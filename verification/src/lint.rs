//! Wiki lint: the deterministic health check over `wiki/**/*.md`.
//!
//! A `[[wikilink]]` target resolves when a page with that slug (file name
//! without `.md`) exists anywhere under `wiki/`, whatever its folder. A
//! broken link targets no page; an orphan is a page that no link anywhere
//! targets. Files whose name starts with `_` are templates: they are
//! scanned for links but are not pages.
use vstd::prelude::*;
use crate::text::{
    chars_ends_with, chars_eq, chars_string, ends_with, find_chars, find_from, lemma_find_from,
    occurs_at, owned, push_chars, push_str, slice_chars, str_chars, trim, trim_chars,
};

verus! {

/// What kind of lint finding this is.
#[derive(Clone, Copy, PartialEq, Eq, Structural, Debug)]
pub enum FindingType {
    /// A wiki page with no inbound `[[wikilinks]]`.
    Orphan,
    /// A `[[wikilink]]` whose target slug resolves to no page.
    BrokenLink,
}

impl FindingType {
    pub fn as_str(&self) -> (s: &'static str)
        ensures
            s@ == (match *self {
                FindingType::Orphan => "orphan"@,
                FindingType::BrokenLink => "broken-link"@,
            }),
    {
        match self {
            FindingType::Orphan => "orphan",
            FindingType::BrokenLink => "broken-link",
        }
    }
}

/// Severity; every finding is a warning.
#[derive(Clone, Copy, PartialEq, Eq, Structural, Debug)]
pub enum Severity {
    Warning,
}

impl Severity {
    pub fn as_str(&self) -> (s: &'static str)
        ensures
            s@ == "warning"@,
    {
        "warning"
    }
}

/// A single lint finding. `page` is relative to the wiki root (e.g.
/// `topics/revenue.md`); for a broken link it is the page holding the link.
#[derive(Debug)]
pub struct LintFinding {
    pub page: String,
    pub finding_type: FindingType,
    pub severity: Severity,
    pub message: String,
}

impl LintFinding {
    pub fn new(page: String, finding_type: FindingType, message: String) -> (f: LintFinding)
        ensures
            f.page == page,
            f.finding_type == finding_type,
            f.severity == Severity::Warning,
            f.message == message,
    {
        LintFinding { page, finding_type, severity: Severity::Warning, message }
    }
}

// ==========================================
// [[wikilink]] extraction
// ==========================================

/// `s` up to the first `c` (all of `s` when there is none).
pub open spec fn before_char(s: Seq<char>, c: char) -> Seq<char>
    decreases s.len(),
{
    if s.len() == 0 {
        s
    } else if s[0] == c {
        Seq::empty()
    } else {
        seq![s[0]] + before_char(s.drop_first(), c)
    }
}

/// `s` after the last `c` (all of `s` when there is none).
pub open spec fn after_last(s: Seq<char>, c: char) -> Seq<char>
    decreases s.len(),
{
    if s.len() == 0 {
        s
    } else if s.last() == c {
        Seq::empty()
    } else {
        after_last(s.drop_last(), c).push(s.last())
    }
}

pub proof fn lemma_after_last_len(s: Seq<char>, c: char)
    ensures
        after_last(s, c).len() <= s.len(),
        after_last(s, c) == s.skip(s.len() - after_last(s, c).len()),
        after_last(s, c).len() < s.len() ==> s[s.len() - after_last(s, c).len() - 1] == c,
    decreases s.len(),
{
    if s.len() > 0 && s.last() != c {
        lemma_after_last_len(s.drop_last(), c);
        let r = after_last(s.drop_last(), c);
        assert(s.drop_last().skip(s.len() - 1 - r.len()).push(s.last()) =~= s.skip(
            s.len() - 1 - r.len(),
        ));
    } else if s.len() > 0 {
        assert(s.skip(s.len() as int) =~= Seq::<char>::empty());
    }
}

/// The bare page slug of a link body: alias (`|...`) and block reference
/// (`#...`) dropped, then the last path component of the trimmed rest.
pub open spec fn link_slug(inner: Seq<char>) -> Seq<char> {
    after_last(trim(before_char(before_char(inner, '|'), '#')), '/')
}

pub open spec fn close_brackets() -> Seq<char> {
    seq![']', ']']
}

/// The link targets found scanning `s` from position `i`.
pub open spec fn link_scan(s: Seq<char>, i: int) -> Seq<Seq<char>>
    decreases s.len() - i,
{
    if i < 0 || i + 1 >= s.len() {
        Seq::empty()
    } else if s[i] == '[' && s[i + 1] == '[' && find_from(s, close_brackets(), i + 2) is Some {
        let e = find_from(s, close_brackets(), i + 2)->0;
        proof {
            lemma_find_from(s, close_brackets(), i + 2);
        }
        let slug = link_slug(s.subrange(i + 2, e));
        let rest = link_scan(s, e + 2);
        if slug.len() > 0 {
            seq![slug] + rest
        } else {
            rest
        }
    } else {
        link_scan(s, i + 1)
    }
}

/// The target slugs of every `[[wikilink]]` in a text.
pub open spec fn link_targets(s: Seq<char>) -> Seq<Seq<char>> {
    link_scan(s, 0)
}

/// The characters of `s` before its first `c`.
pub fn before_first(s: &Vec<char>, c: char) -> (r: Vec<char>)
    ensures
        r@ == before_char(s@, c),
{
    let mut k: usize = 0;
    assert(s@.take(0) =~= Seq::<char>::empty());
    assert(s@.skip(0) =~= s@);
    while k < s.len() && s[k] != c
        invariant
            k <= s.len(),
            before_char(s@, c) == s@.take(k as int) + before_char(s@.skip(k as int), c),
        decreases s.len() - k,
    {
        assert(s@.skip(k as int).drop_first() =~= s@.skip(k + 1));
        assert(s@.take(k + 1) =~= s@.take(k as int) + seq![s@[k as int]]);
        k += 1;
    }
    assert(s@.take(k as int) =~= s@.subrange(0, k as int));
    if k == s.len() {
        assert(s@.skip(k as int) =~= Seq::<char>::empty());
    }
    slice_chars(s, 0, k)
}

/// The characters of `s` after its last `c`.
pub fn after_last_char(s: &Vec<char>, c: char) -> (r: Vec<char>)
    ensures
        r@ == after_last(s@, c),
{
    let mut k: usize = s.len();
    assert(s@.take(k as int) =~= s@);
    assert(s@.skip(k as int) =~= Seq::<char>::empty());
    while k > 0 && s[k - 1] != c
        invariant
            k <= s.len(),
            after_last(s@, c) == after_last(s@.take(k as int), c) + s@.skip(k as int),
        decreases k,
    {
        assert(s@.take(k as int).drop_last() =~= s@.take(k - 1));
        assert(s@.skip(k - 1) =~= seq![s@[k - 1]] + s@.skip(k as int));
        k -= 1;
    }
    if k == 0 {
        assert(s@.take(0) =~= Seq::<char>::empty());
    } else {
        assert(s@.take(k as int).last() == c);
    }
    assert(s@.skip(k as int) =~= s@.subrange(k as int, s@.len() as int));
    slice_chars(s, k, s.len())
}

/// Extracts the target slugs of every `[[wikilink]]` in `text`: handles
/// `[[slug]]`, `[[slug|alias]]`, `[[slug#block]]` and `[[topics/slug]]`.
pub fn extract_wikilink_targets(text: &str) -> (out: Vec<String>)
    ensures
        out@.map_values(|x: String| x@) == link_targets(text@),
{
    let s = str_chars(text);
    let close: Vec<char> = vec![']', ']'];
    assert(close@ =~= close_brackets());
    let mut out: Vec<String> = Vec::new();
    let mut i: usize = 0;
    assert(out@.map_values(|x: String| x@) =~= Seq::<Seq<char>>::empty());
    while i < s.len() && s.len() - i > 1
        invariant
            close@ == close_brackets(),
            i <= s.len(),
            link_targets(s@) == out@.map_values(|x: String| x@) + link_scan(s@, i as int),
        decreases s.len() - i,
    {
        if s[i] == '[' && s[i + 1] == '[' {
            proof {
                lemma_find_from(s@, close@, i + 2);
            }
            match find_chars(&s, &close, i + 2) {
                Some(e) => {
                    let inner = slice_chars(&s, i + 2, e);
                    let a = before_first(&inner, '|');
                    let b = before_first(&a, '#');
                    let t = trim_chars(&b);
                    let slug = after_last_char(&t, '/');
                    let ghost o0 = out@.map_values(|x: String| x@);
                    if slug.len() > 0 {
                        out.push(chars_string(&slug));
                        assert(out@.map_values(|x: String| x@) =~= o0.push(slug@));
                        assert(o0 + (seq![slug@] + link_scan(s@, e + 2)) =~= o0.push(slug@)
                            + link_scan(s@, e + 2));
                    }
                    i = e + 2;
                    continue ;
                },
                None => {},
            }
        }
        i += 1;
    }
    assert(link_scan(s@, i as int) =~= Seq::<Seq<char>>::empty());
    out
}

// ==========================================
// Pages and findings
// ==========================================

/// The slug a wiki file contributes: none for a `_` template, else its
/// name without `.md`. `name` is a file name ending in `.md`.
pub open spec fn page_slug(name: Seq<char>) -> Option<Seq<char>> {
    if name.len() > 0 && name[0] == '_' {
        None
    } else {
        Some(name.take(name.len() - 3))
    }
}

/// The slug of a wiki file, or `None` for a template (`_`-prefixed).
pub fn wiki_page_slug(name: &str) -> (res: Option<String>)
    requires
        ends_with(name@, ".md"@),
        name@.len() > 3,
    ensures
        match page_slug(name@) {
            Some(p) => res matches Some(x) && x@ == p,
            None => res is None,
        },
{
    let v = str_chars(name);
    if v.len() > 0 && v[0] == '_' {
        return None;
    }
    let stem = slice_chars(&v, 0, v.len() - 3);
    assert(stem@ =~= v@.take(v@.len() - 3));
    Some(chars_string(&stem))
}

/// Some page has the slug.
pub open spec fn has_page(pages: Seq<(String, String)>, slug: Seq<char>) -> bool {
    exists|j: int| 0 <= j < pages.len() && #[trigger] pages[j].0@ == slug
}

/// Every link target of the documents, document by document.
pub open spec fn all_targets(docs: Seq<(String, String)>) -> Seq<Seq<char>>
    decreases docs.len(),
{
    if docs.len() == 0 {
        Seq::empty()
    } else {
        all_targets(docs.drop_last()) + link_targets(docs.last().1@)
    }
}

/// Some link targets the slug.
pub open spec fn targeted(docs: Seq<(String, String)>, slug: Seq<char>) -> bool {
    all_targets(docs).contains(slug)
}

/// A finding as plain values: page, kind, message.
pub open spec fn finding_view(f: LintFinding) -> (Seq<char>, FindingType, Seq<char>) {
    (f.page@, f.finding_type, f.message@)
}

/// Broken-link findings for the targets of one document.
pub open spec fn broken_in(page: Seq<char>, ts: Seq<Seq<char>>, pages: Seq<(String, String)>) -> Seq<
    (Seq<char>, FindingType, Seq<char>),
>
    decreases ts.len(),
{
    if ts.len() == 0 {
        Seq::empty()
    } else {
        let r = broken_in(page, ts.drop_last(), pages);
        if has_page(pages, ts.last()) {
            r
        } else {
            r.push((page, FindingType::BrokenLink, broken_message(ts.last())))
        }
    }
}

/// Broken-link findings over all documents, in document order.
pub open spec fn broken_findings(docs: Seq<(String, String)>, pages: Seq<(String, String)>) -> Seq<
    (Seq<char>, FindingType, Seq<char>),
>
    decreases docs.len(),
{
    if docs.len() == 0 {
        Seq::empty()
    } else {
        broken_findings(docs.drop_last(), pages) + broken_in(
            docs.last().0@,
            link_targets(docs.last().1@),
            pages,
        )
    }
}

/// Orphan findings, in page order.
pub open spec fn orphan_findings(pages: Seq<(String, String)>, docs: Seq<(String, String)>) -> Seq<
    (Seq<char>, FindingType, Seq<char>),
>
    decreases pages.len(),
{
    if pages.len() == 0 {
        Seq::empty()
    } else {
        let r = orphan_findings(pages.drop_last(), docs);
        if targeted(docs, pages.last().0@) {
            r
        } else {
            r.push((pages.last().1@, FindingType::Orphan, orphan_message(pages.last().0@)))
        }
    }
}

fn page_exists(pages: &Vec<(String, String)>, slug: &String) -> (res: bool)
    ensures
        res == has_page(pages@, slug@),
{
    let mut j: usize = 0;
    while j < pages.len()
        invariant
            j <= pages.len(),
            forall|k: int| 0 <= k < j ==> pages@[k].0@ != slug@,
        decreases pages.len() - j,
    {
        if pages[j].0 == *slug {
            return true;
        }
        j += 1;
    }
    false
}

fn seq_has(v: &Vec<String>, x: &String) -> (res: bool)
    ensures
        res == v@.map_values(|s: String| s@).contains(x@),
{
    let ghost vv = v@.map_values(|s: String| s@);
    let mut j: usize = 0;
    while j < v.len()
        invariant
            j <= v.len(),
            vv == v@.map_values(|s: String| s@),
            forall|k: int| 0 <= k < j ==> vv[k] != x@,
        decreases v.len() - j,
    {
        if v[j] == *x {
            assert(vv[j as int] == x@);
            return true;
        }
        j += 1;
    }
    false
}

/// The wiki lint over plain values. `pages` lists `(slug, path)` for every
/// non-template page; `docs` lists `(path, contents)` for every `.md` file
/// scanned for links (templates included). Returns one broken-link finding
/// per link whose target is no page's slug (in document and link order),
/// then one orphan finding per page whose slug no link targets.
pub fn lint(pages: &Vec<(String, String)>, docs: &Vec<(String, String)>) -> (findings: Vec<
    LintFinding,
>)
    ensures
        findings@.map_values(|f: LintFinding| finding_view(f)) == broken_findings(docs@, pages@)
            + orphan_findings(pages@, docs@),
{
    let mut findings: Vec<LintFinding> = Vec::new();
    let mut targets: Vec<String> = Vec::new();
    let mut d: usize = 0;
    assert(findings@.map_values(|f: LintFinding| finding_view(f)) =~= Seq::<
        (Seq<char>, FindingType, Seq<char>),
    >::empty());
    assert(targets@.map_values(|x: String| x@) =~= Seq::<Seq<char>>::empty());
    while d < docs.len()
        invariant
            d <= docs.len(),
            findings@.map_values(|f: LintFinding| finding_view(f)) == broken_findings(
                docs@.take(d as int),
                pages@,
            ),
            targets@.map_values(|x: String| x@) == all_targets(docs@.take(d as int)),
        decreases docs.len() - d,
    {
        let ts = extract_wikilink_targets(docs[d].1.as_str());
        let ghost tv = ts@.map_values(|x: String| x@);
        let ghost f0 = findings@.map_values(|f: LintFinding| finding_view(f));
        let ghost t0 = targets@.map_values(|x: String| x@);
        let mut k: usize = 0;
        assert(tv.take(0) =~= Seq::<Seq<char>>::empty());
        while k < ts.len()
            invariant
                d < docs.len(),
                k <= ts.len(),
                tv == ts@.map_values(|x: String| x@),
                tv == link_targets(docs@[d as int].1@),
                findings@.map_values(|f: LintFinding| finding_view(f)) == f0 + broken_in(
                    docs@[d as int].0@,
                    tv.take(k as int),
                    pages@,
                ),
                targets@.map_values(|x: String| x@) == t0 + tv.take(k as int),
            decreases ts.len() - k,
        {
            let t = &ts[k];
            let ghost fk = findings@.map_values(|f: LintFinding| finding_view(f));
            let ghost tk = targets@.map_values(|x: String| x@);
            targets.push(t.clone());
            assert(targets@.map_values(|x: String| x@) =~= tk.push(t@));
            assert(tv.take(k + 1) =~= tv.take(k as int).push(tv[k as int]));
            assert(tv.take(k + 1).drop_last() =~= tv.take(k as int));
            if !page_exists(pages, t) {
                let mut m = owned("[[");
                push_str(&mut m, t.as_str());
                push_str(&mut m, "]] resolves to no page");
                findings.push(LintFinding::new(docs[d].0.clone(), FindingType::BrokenLink, m));
                assert(findings@.map_values(|f: LintFinding| finding_view(f)) =~= fk.push(
                    (docs@[d as int].0@, FindingType::BrokenLink, "[["@ + t@ + "]] resolves to no page"@),
                ));
            }
            k += 1;
        }
        assert(tv.take(ts.len() as int) =~= tv);
        assert(docs@.take(d + 1).drop_last() =~= docs@.take(d as int));
        d += 1;
    }
    assert(docs@.take(docs.len() as int) =~= docs@);
    let ghost fb = findings@.map_values(|f: LintFinding| finding_view(f));
    let mut p: usize = 0;
    assert(pages@.take(0) =~= Seq::<(String, String)>::empty());
    while p < pages.len()
        invariant
            p <= pages.len(),
            targets@.map_values(|x: String| x@) == all_targets(docs@),
            findings@.map_values(|f: LintFinding| finding_view(f)) == fb + orphan_findings(
                pages@.take(p as int),
                docs@,
            ),
        decreases pages.len() - p,
    {
        let ghost fk = findings@.map_values(|f: LintFinding| finding_view(f));
        assert(pages@.take(p + 1).drop_last() =~= pages@.take(p as int));
        if !seq_has(&targets, &pages[p].0) {
            let mut m = owned("page '");
            push_str(&mut m, pages[p].0.as_str());
            push_str(&mut m, "' has no inbound [[wikilinks]]");
            findings.push(LintFinding::new(pages[p].1.clone(), FindingType::Orphan, m));
            assert(findings@.map_values(|f: LintFinding| finding_view(f)) =~= fk.push(
                (
                    pages@[p as int].1@,
                    FindingType::Orphan,
                    "page '"@ + pages@[p as int].0@ + "' has no inbound [[wikilinks]]"@,
                ),
            ));
        }
        p += 1;
    }
    assert(pages@.take(pages.len() as int) =~= pages@);
    findings
}

/// The message of an orphan finding for a page slug.
pub open spec fn orphan_message(slug: Seq<char>) -> Seq<char> {
    "page '"@ + slug + "' has no inbound [[wikilinks]]"@
}

/// The message of a broken-link finding for a link target.
pub open spec fn broken_message(target: Seq<char>) -> Seq<char> {
    "[["@ + target + "]] resolves to no page"@
}

/// Every page whose slug no link in any document targets is reported as an
/// orphan.
pub proof fn lemma_untargeted_page_is_orphan(
    pages: Seq<(String, String)>,
    docs: Seq<(String, String)>,
    i: int,
)
    requires
        0 <= i < pages.len(),
        !targeted(docs, pages[i].0@),
    ensures
        orphan_findings(pages, docs).contains(
            (pages[i].1@, FindingType::Orphan, orphan_message(pages[i].0@)),
        ),
    decreases pages.len(),
{
    let x = (pages[i].1@, FindingType::Orphan, orphan_message(pages[i].0@));
    let init = pages.drop_last();
    let r = orphan_findings(init, docs);
    if i < pages.len() - 1 {
        assert(init[i] == pages[i]);
        lemma_untargeted_page_is_orphan(init, docs, i);
        let j = choose|j: int| 0 <= j < r.len() && r[j] == x;
        if !targeted(docs, pages.last().0@) {
            assert(r.push(
                (pages.last().1@, FindingType::Orphan, orphan_message(pages.last().0@)),
            )[j] == x);
        }
    } else {
        assert(orphan_findings(pages, docs)[r.len() as int] == x);
    }
}

/// Every orphan finding names a page whose slug no link targets.
pub proof fn lemma_orphan_is_untargeted(
    pages: Seq<(String, String)>,
    docs: Seq<(String, String)>,
    k: int,
)
    requires
        0 <= k < orphan_findings(pages, docs).len(),
    ensures
        exists|i: int|
            0 <= i < pages.len() && !targeted(docs, pages[i].0@) && orphan_findings(pages, docs)[k]
                == (#[trigger] pages[i].1@, FindingType::Orphan, orphan_message(pages[i].0@)),
    decreases pages.len(),
{
    let init = pages.drop_last();
    let r = orphan_findings(init, docs);
    if k < r.len() {
        lemma_orphan_is_untargeted(init, docs, k);
        let i = choose|i: int|
            0 <= i < init.len() && !targeted(docs, init[i].0@) && r[k] == (
                #[trigger] init[i].1@,
                FindingType::Orphan,
                orphan_message(init[i].0@),
            );
        assert(init[i] == pages[i]);
        assert(orphan_findings(pages, docs)[k] == r[k]);
        assert(pages[i].1@ == init[i].1@);
    } else {
        let i = pages.len() - 1;
        assert(pages[i].1@ == pages.last().1@);
    }
}

/// Every link in a document whose target is no page's slug is reported as a
/// broken link of that document.
pub proof fn lemma_unresolved_link_is_reported(
    docs: Seq<(String, String)>,
    pages: Seq<(String, String)>,
    d: int,
    t: Seq<char>,
)
    requires
        0 <= d < docs.len(),
        link_targets(docs[d].1@).contains(t),
        !has_page(pages, t),
    ensures
        broken_findings(docs, pages).contains((docs[d].0@, FindingType::BrokenLink, broken_message(t))),
    decreases docs.len(),
{
    let x = (docs[d].0@, FindingType::BrokenLink, broken_message(t));
    let init = docs.drop_last();
    let r = broken_findings(init, pages);
    let last = broken_in(docs.last().0@, link_targets(docs.last().1@), pages);
    assert(broken_findings(docs, pages) == r + last);
    if d < docs.len() - 1 {
        assert(init[d] == docs[d]);
        lemma_unresolved_link_is_reported(init, pages, d, t);
        let j = choose|j: int| 0 <= j < r.len() && r[j] == x;
        assert((r + last)[j] == x);
    } else {
        lemma_broken_in_complete(docs.last().0@, link_targets(docs.last().1@), pages, t);
        let j = choose|j: int| 0 <= j < last.len() && last[j] == x;
        assert((r + last)[r.len() + j] == x);
    }
}

proof fn lemma_broken_in_complete(
    page: Seq<char>,
    ts: Seq<Seq<char>>,
    pages: Seq<(String, String)>,
    t: Seq<char>,
)
    requires
        ts.contains(t),
        !has_page(pages, t),
    ensures
        broken_in(page, ts, pages).contains((page, FindingType::BrokenLink, broken_message(t))),
    decreases ts.len(),
{
    let x = (page, FindingType::BrokenLink, broken_message(t));
    let r = broken_in(page, ts.drop_last(), pages);
    if ts.last() == t {
        assert(broken_in(page, ts, pages)[r.len() as int] == x);
    } else {
        let j = choose|j: int| 0 <= j < ts.len() && ts[j] == t;
        assert(ts.drop_last()[j] == t);
        lemma_broken_in_complete(page, ts.drop_last(), pages, t);
        let m = choose|m: int| 0 <= m < r.len() && r[m] == x;
        if !has_page(pages, ts.last()) {
            assert(r.push((page, FindingType::BrokenLink, broken_message(ts.last())))[m] == x);
        }
    }
}

/// Every broken-link finding names a document holding a link whose target
/// is no page's slug.
pub proof fn lemma_broken_finding_is_unresolved(
    docs: Seq<(String, String)>,
    pages: Seq<(String, String)>,
    k: int,
)
    requires
        0 <= k < broken_findings(docs, pages).len(),
    ensures
        exists|d: int, t: Seq<char>|
            0 <= d < docs.len() && #[trigger] link_targets(docs[d].1@).contains(t) && !has_page(
                pages,
                t,
            ) && broken_findings(docs, pages)[k] == (
                docs[d].0@,
                FindingType::BrokenLink,
                broken_message(t),
            ),
    decreases docs.len(),
{
    let init = docs.drop_last();
    let r = broken_findings(init, pages);
    let last = broken_in(docs.last().0@, link_targets(docs.last().1@), pages);
    assert(broken_findings(docs, pages) == r + last);
    if k < r.len() {
        lemma_broken_finding_is_unresolved(init, pages, k);
        let (d, t) = choose|d: int, t: Seq<char>|
            0 <= d < init.len() && #[trigger] link_targets(init[d].1@).contains(t) && !has_page(
                pages,
                t,
            ) && r[k] == (init[d].0@, FindingType::BrokenLink, broken_message(t));
        assert(init[d] == docs[d]);
        assert((r + last)[k] == r[k]);
        assert(docs[d].1@ == init[d].1@);
    } else {
        let d = docs.len() - 1;
        lemma_broken_in_sound(docs.last().0@, link_targets(docs.last().1@), pages, k - r.len());
        let t = choose|t: Seq<char>|
            link_targets(docs.last().1@).contains(t) && !has_page(pages, t) && last[k - r.len()]
                == (docs.last().0@, FindingType::BrokenLink, broken_message(t));
        assert((r + last)[k] == last[k - r.len()]);
        assert(docs[d].1@ == docs.last().1@);
    }
}

proof fn lemma_broken_in_sound(
    page: Seq<char>,
    ts: Seq<Seq<char>>,
    pages: Seq<(String, String)>,
    k: int,
)
    requires
        0 <= k < broken_in(page, ts, pages).len(),
    ensures
        exists|t: Seq<char>|
            ts.contains(t) && !has_page(pages, t) && #[trigger] broken_in(page, ts, pages)[k] == (
                page,
                FindingType::BrokenLink,
                broken_message(t),
            ),
    decreases ts.len(),
{
    let init = ts.drop_last();
    let r = broken_in(page, init, pages);
    if k < r.len() {
        lemma_broken_in_sound(page, init, pages, k);
        let t = choose|t: Seq<char>|
            init.contains(t) && !has_page(pages, t) && #[trigger] r[k] == (
                page,
                FindingType::BrokenLink,
                broken_message(t),
            );
        let j = choose|j: int| 0 <= j < init.len() && init[j] == t;
        assert(ts[j] == t);
        if !has_page(pages, ts.last()) {
            assert(r.push((page, FindingType::BrokenLink, broken_message(ts.last())))[k] == r[k]);
        }
        assert(broken_in(page, ts, pages)[k] == r[k]);
    } else {
        assert(ts[ts.len() - 1] == ts.last());
        assert(broken_in(page, ts, pages)[k] == (page, FindingType::BrokenLink, broken_message(ts.last())));
    }
}

} // verus!
