//! Workspace identity: the slug, the derived folder name, and lookup of a
//! workspace by a query over the workspaces found on disk.
use vstd::prelude::*;
use vstd::multiset::Multiset;
use crate::error::WorkspaceError;
use crate::models::Workspace;
use crate::text::{lemma_str_lt_total, lemma_str_lt_transitive, str_less, str_lt, alnum, ascii_lower, is_ascii_char, char_is_alphanumeric, char_lower, char_to_lowercase, chars_string, join_path, owned, path_join, push_str, str_chars, str_trim, trim, push_chars, chars_eq, chars_starts_with, starts_with};

verus! {

// ==========================================
// slugify
// ==========================================

/// One step of slug building: keep an alphanumeric character, turn any
/// other into a single `-` (never at the start, never doubled).
pub open spec fn slug_step(prev: Seq<char>, ch: char) -> Seq<char> {
    if alnum(ch) {
        prev.push(ch)
    } else if prev.len() > 0 && prev.last() != '-' {
        prev.push('-')
    } else {
        prev
    }
}

/// Folds `slug_step` over characters, front to back.
pub open spec fn slug_fold(prev: Seq<char>, cs: Seq<char>) -> Seq<char>
    decreases cs.len(),
{
    if cs.len() == 0 {
        prev
    } else {
        slug_fold(slug_step(prev, cs[0]), cs.drop_first())
    }
}

/// Folds over a title, each character first lowered.
pub open spec fn slug_over(prev: Seq<char>, title: Seq<char>) -> Seq<char>
    decreases title.len(),
{
    if title.len() == 0 {
        prev
    } else {
        slug_over(slug_fold(prev, char_lower(title[0])), title.drop_first())
    }
}

/// `s` without its trailing dashes.
pub open spec fn strip_dashes(s: Seq<char>) -> Seq<char>
    decreases s.len(),
{
    if s.len() > 0 && s.last() == '-' {
        strip_dashes(s.drop_last())
    } else {
        s
    }
}

/// The kebab-case slug of a title; `workspace` when nothing is left.
pub open spec fn slug_of(title: Seq<char>) -> Seq<char> {
    let r = strip_dashes(slug_over(Seq::empty(), title));
    if r.len() == 0 {
        "workspace"@
    } else {
        r
    }
}

/// Kebab-case slug for a feature title, e.g. "Realtime Chat Agent" →
/// `realtime-chat-agent`. The slug is a workspace's identity.
pub fn slugify(title: &str) -> (slug: String)
    ensures
        slug@ == slug_of(title@),
{
    let t = str_chars(title);
    let mut cur: Vec<char> = Vec::new();
    let mut prev_dash = false;
    let mut i: usize = 0;
    assert(t@.skip(0) =~= t@);
    while i < t.len()
        invariant
            i <= t.len(),
            slug_over(Seq::empty(), t@) == slug_over(cur@, t@.skip(i as int)),
            prev_dash == (cur@.len() > 0 && cur@.last() == '-'),
        decreases t.len() - i,
    {
        let lower = char_to_lowercase(t[i]);
        let ghost cur0 = cur@;
        let mut j: usize = 0;
        assert(lower@.skip(0) =~= lower@);
        while j < lower.len()
            invariant
                j <= lower.len(),
                slug_fold(cur0, lower@) == slug_fold(cur@, lower@.skip(j as int)),
                prev_dash == (cur@.len() > 0 && cur@.last() == '-'),
            decreases lower.len() - j,
        {
            let ch = lower[j];
            if char_is_alphanumeric(ch) {
                cur.push(ch);
                prev_dash = false;
            } else if !prev_dash && cur.len() > 0 {
                cur.push('-');
                prev_dash = true;
            }
            assert(lower@.skip(j as int).drop_first() =~= lower@.skip(j + 1));
            j += 1;
        }
        assert(t@.skip(i as int).drop_first() =~= t@.skip(i + 1));
        i += 1;
    }
    assert(t@.skip(i as int) =~= Seq::<char>::empty());
    while cur.len() > 0 && cur[cur.len() - 1] == '-'
        invariant
            strip_dashes(slug_over(Seq::empty(), t@)) == strip_dashes(cur@),
        decreases cur.len(),
    {
        cur.pop();
    }
    if cur.len() == 0 {
        let w = owned("workspace");
        w
    } else {
        chars_string(&cur)
    }
}

/// No `-` at the start and no `--` anywhere.
pub open spec fn dash_clean(s: Seq<char>) -> bool {
    &&& (s.len() > 0 ==> s[0] != '-')
    &&& forall|i: int, j: int|
        0 <= i && j == i + 1 && j < s.len() ==> !(#[trigger] s[i] == '-' && #[trigger] s[j] == '-')
}

pub proof fn lemma_slug_fold_clean(prev: Seq<char>, cs: Seq<char>)
    requires
        dash_clean(prev),
    ensures
        dash_clean(slug_fold(prev, cs)),
    decreases cs.len(),
{
    if cs.len() > 0 {
        let next = slug_step(prev, cs[0]);
        if alnum(cs[0]) {
            assert(cs[0] != '-');
        }
        assert(dash_clean(next));
        lemma_slug_fold_clean(next, cs.drop_first());
    }
}

pub proof fn lemma_slug_over_clean(prev: Seq<char>, title: Seq<char>)
    requires
        dash_clean(prev),
    ensures
        dash_clean(slug_over(prev, title)),
    decreases title.len(),
{
    if title.len() > 0 {
        lemma_slug_fold_clean(prev, char_lower(title[0]));
        lemma_slug_over_clean(slug_fold(prev, char_lower(title[0])), title.drop_first());
    }
}

pub proof fn lemma_strip_dashes(s: Seq<char>)
    requires
        dash_clean(s),
    ensures
        dash_clean(strip_dashes(s)),
        strip_dashes(s).len() > 0 ==> strip_dashes(s).last() != '-',
        strip_dashes(s).len() <= s.len(),
        strip_dashes(s) == s.take(strip_dashes(s).len() as int),
    decreases s.len(),
{
    if s.len() > 0 && s.last() == '-' {
        assert(dash_clean(s.drop_last()));
        lemma_strip_dashes(s.drop_last());
        assert(s.drop_last().take(strip_dashes(s).len() as int) =~= s.take(strip_dashes(s).len() as int));
    } else {
        assert(s.take(s.len() as int) =~= s);
    }
}

/// Every character is `-` or alphanumeric.
pub open spec fn slug_chars(s: Seq<char>) -> bool {
    forall|i: int| #![trigger s[i]] 0 <= i < s.len() ==> s[i] == '-' || alnum(s[i])
}

proof fn lemma_slug_fold_chars(prev: Seq<char>, cs: Seq<char>)
    requires
        slug_chars(prev),
    ensures
        slug_chars(slug_fold(prev, cs)),
    decreases cs.len(),
{
    if cs.len() > 0 {
        let next = slug_step(prev, cs[0]);
        assert(slug_chars(next)) by {
            assert forall|i: int| 0 <= i < next.len() implies next[i] == '-' || alnum(next[i]) by {
                if i < prev.len() {
                    assert(next[i] == prev[i]);
                }
            }
        }
        lemma_slug_fold_chars(next, cs.drop_first());
    }
}

proof fn lemma_slug_over_chars(prev: Seq<char>, title: Seq<char>)
    requires
        slug_chars(prev),
    ensures
        slug_chars(slug_over(prev, title)),
    decreases title.len(),
{
    if title.len() > 0 {
        lemma_slug_fold_chars(prev, char_lower(title[0]));
        lemma_slug_over_chars(slug_fold(prev, char_lower(title[0])), title.drop_first());
    }
}

/// A slug is never empty, never starts or ends with `-`, never holds `--`,
/// and holds nothing but `-` and alphanumeric characters.
pub proof fn lemma_slug_shape(title: Seq<char>)
    ensures
        slug_of(title).len() > 0,
        dash_clean(slug_of(title)),
        slug_of(title).last() != '-',
        slug_chars(slug_of(title)),
{
    let over = slug_over(Seq::empty(), title);
    lemma_slug_over_clean(Seq::empty(), title);
    lemma_slug_over_chars(Seq::empty(), title);
    lemma_strip_dashes(over);
    let r = strip_dashes(over);
    assert(slug_chars(r)) by {
        assert forall|i: int| 0 <= i < r.len() implies r[i] == '-' || alnum(r[i]) by {
            assert(r[i] == over[i]);
        }
    }
    reveal_strlit("workspace");
}

/// Every character of the text is ASCII.
pub open spec fn ascii_text(s: Seq<char>) -> bool {
    forall|i: int| #![trigger s[i]] 0 <= i < s.len() ==> is_ascii_char(s[i])
}

/// A `-`, an ASCII digit or an ASCII lower-case letter.
pub open spec fn lower_slug_char(c: char) -> bool {
    c == '-' || ('a' <= c && c <= 'z') || ('0' <= c && c <= '9')
}

pub open spec fn lower_slug_chars(s: Seq<char>) -> bool {
    forall|i: int| #![trigger s[i]] 0 <= i < s.len() ==> lower_slug_char(s[i])
}

proof fn lemma_ascii_lower_char(c: char)
    requires
        is_ascii_char(c),
    ensures
        char_lower(c) == seq![ascii_lower(c)],
        is_ascii_char(ascii_lower(c)),
        alnum(ascii_lower(c)) ==> lower_slug_char(ascii_lower(c)),
{
    if 'A' <= c && c <= 'Z' {
        assert('a' <= ascii_lower(c) && ascii_lower(c) <= 'z');
    }
}

proof fn lemma_slug_over_lower(prev: Seq<char>, title: Seq<char>)
    requires
        lower_slug_chars(prev),
        ascii_text(title),
    ensures
        lower_slug_chars(slug_over(prev, title)),
    decreases title.len(),
{
    if title.len() > 0 {
        let c = ascii_lower(title[0]);
        lemma_ascii_lower_char(title[0]);
        assert(seq![c].drop_first() =~= Seq::<char>::empty());
        let next = slug_step(prev, c);
        assert(seq![c][0] == c);
        assert(slug_fold(next, Seq::<char>::empty()) == next);
        assert(slug_fold(prev, seq![c]) == next);
        assert(lower_slug_chars(next)) by {
            assert forall|i: int| 0 <= i < next.len() implies lower_slug_char(next[i]) by {
                if i < prev.len() {
                    assert(next[i] == prev[i]);
                }
            }
        }
        assert(ascii_text(title.drop_first())) by {
            assert forall|i: int| 0 <= i < title.drop_first().len() implies is_ascii_char(
                title.drop_first()[i],
            ) by {
                assert(title.drop_first()[i] == title[i + 1]);
            }
        }
        lemma_slug_over_lower(next, title.drop_first());
    }
}

proof fn lemma_slug_over_fixed(s: Seq<char>, k: int)
    requires
        0 <= k <= s.len(),
        lower_slug_chars(s),
        dash_clean(s),
    ensures
        slug_over(s.take(k), s.skip(k)) == s,
    decreases s.len() - k,
{
    if k == s.len() {
        assert(s.take(k) =~= s);
        assert(s.skip(k) =~= Seq::<char>::empty());
    } else {
        let c = s[k];
        assert(lower_slug_char(c));
        assert(is_ascii_char(c));
        lemma_ascii_lower_char(c);
        assert(ascii_lower(c) == c);
        assert(s.skip(k)[0] == c);
        assert(s.skip(k).drop_first() =~= s.skip(k + 1));
        assert(seq![c].drop_first() =~= Seq::<char>::empty());
        assert(seq![c][0] == c);
        assert(slug_fold(slug_step(s.take(k), c), Seq::<char>::empty()) == slug_step(s.take(k), c));
        assert(slug_fold(s.take(k), seq![c]) == slug_step(s.take(k), c));
        if c == '-' {
            assert(k > 0);
            assert(s[k - 1] != '-');
            assert(s.take(k).last() == s[k - 1]);
        }
        assert(slug_step(s.take(k), c) =~= s.take(k + 1));
        lemma_slug_over_fixed(s, k + 1);
    }
}

/// The slug of an ASCII title is a fixed point: slugifying it again gives
/// it back. Such a slug holds only `-`, ASCII digits and ASCII lower-case
/// letters.
pub proof fn lemma_ascii_slug_idempotent(title: Seq<char>)
    requires
        ascii_text(title),
    ensures
        lower_slug_chars(slug_of(title)),
        slug_of(slug_of(title)) == slug_of(title),
{
    let over = slug_over(Seq::empty(), title);
    lemma_slug_shape(title);
    assert(lower_slug_chars(Seq::<char>::empty()));
    lemma_slug_over_lower(Seq::<char>::empty(), title);
    lemma_slug_over_clean(Seq::<char>::empty(), title);
    lemma_strip_dashes(over);
    let s = slug_of(title);
    assert(lower_slug_chars(s)) by {
        reveal_strlit("workspace");
        let r = strip_dashes(over);
        assert forall|i: int| 0 <= i < s.len() implies lower_slug_char(s[i]) by {
            if r.len() > 0 {
                assert(r[i] == over[i]);
            }
        }
    }
    lemma_slug_over_fixed(s, 0);
    assert(s.take(0) =~= Seq::<char>::empty());
    assert(s.skip(0) =~= s);
}

// ==========================================
// Folder names
// ==========================================

/// The folder of a workspace: `TICKET-slug` when a non-blank ticket is
/// attached, else the slug.
pub open spec fn dir_name_of(ws: Workspace) -> Seq<char> {
    match ws.ticket {
        Some(t) if trim(t@).len() > 0 => trim(t@) + "-"@ + ws.id@,
        _ => ws.id@,
    }
}

/// The derived folder name for a workspace.
pub fn workspace_dir_name(ws: &Workspace) -> (name: String)
    ensures
        name@ == dir_name_of(*ws),
{
    match &ws.ticket {
        Some(t) => {
            let tt = str_trim(t.as_str());
            if tt.len() > 0 {
                let mut s = chars_string(&tt);
                push_str(&mut s, "-");
                push_str(&mut s, ws.id.as_str());
                return s;
            }
            ws.id.clone()
        },
        None => ws.id.clone(),
    }
}

/// `root/workspaces/<folder>`: the single choke point for a workspace's folder.
pub fn get_workspace_dir(root: &str, folder: &str) -> (dir: String)
    ensures
        dir@ == path_join(path_join(root@, "workspaces"@), folder@),
{
    let w = join_path(root, "workspaces");
    join_path(w.as_str(), folder)
}

// ==========================================
// Lookup
// ==========================================

/// A workspace found on disk: `folder` is its directory name under
/// `workspaces/`, `ws` its parsed `workspace.yaml`.
pub struct WorkspaceOnDisk {
    pub folder: String,
    pub ws: Workspace,
}

/// The folders ascend (equal folders in any order).
pub open spec fn by_folder(es: Seq<WorkspaceOnDisk>) -> bool {
    forall|i: int, j: int| 0 <= i < j < es.len() ==> !str_lt(es[j].folder@, es[i].folder@)
}

/// The workspaces found on disk (each folder of `workspaces/` holding a
/// readable `workspace.yaml`), ordered by folder name.
pub fn list_workspaces(entries: Vec<WorkspaceOnDisk>) -> (out: Vec<WorkspaceOnDisk>)
    ensures
        by_folder(out@),
        out@.to_multiset() == entries@.to_multiset(),
{
    broadcast use vstd::seq_lib::group_to_multiset_ensures;

    let ghost all = entries@;
    let mut rest = entries;
    let mut out: Vec<WorkspaceOnDisk> = Vec::new();
    proof {
        assert(out@.to_multiset() =~= Multiset::empty());
        assert(out@.to_multiset().add(rest@.to_multiset()) =~= all.to_multiset());
    }
    while rest.len() > 0
        invariant
            by_folder(out@),
            out@.to_multiset().add(rest@.to_multiset()) == all.to_multiset(),
        decreases rest.len(),
    {
        let ghost r0 = rest@;
        let x = rest.pop().unwrap();
        proof {
            assert(r0 =~= rest@.push(x));
        }
        let mut p: usize = 0;
        while p < out.len() && !str_less(x.folder.as_str(), out[p].folder.as_str())
            invariant
                p <= out.len(),
                forall|k: int| 0 <= k < p ==> !str_lt(x.folder@, #[trigger] out@[k].folder@),
            decreases out.len() - p,
        {
            p += 1;
        }
        let ghost o0 = out@;
        proof {
            assert forall|k: int| p <= k < o0.len() implies str_lt(
                x.folder@,
                #[trigger] o0[k].folder@,
            ) by {
                if k > p {
                    lemma_str_lt_total(o0[p as int].folder@, o0[k].folder@);
                    if o0[p as int].folder@ != o0[k].folder@ {
                        lemma_str_lt_transitive(x.folder@, o0[p as int].folder@, o0[k].folder@);
                    }
                }
            }
        }
        out.insert(p, x);
        proof {
            let n = out@;
            assert(n =~= o0.insert(p as int, x));
            assert forall|i: int, j: int| 0 <= i < j < n.len() implies !str_lt(
                n[j].folder@,
                n[i].folder@,
            ) by {
                if i == p {
                    lemma_str_lt_total(x.folder@, o0[j - 1].folder@);
                } else if j == p {
                    assert(!str_lt(x.folder@, o0[i].folder@));
                } else if i < p && j < p {
                    assert(n[i] == o0[i] && n[j] == o0[j]);
                } else if i < p {
                    assert(n[i] == o0[i] && n[j] == o0[j - 1]);
                } else {
                    assert(n[i] == o0[i - 1] && n[j] == o0[j - 1]);
                }
            }
            vstd::seq_lib::to_multiset_insert(o0, p as int, x);
            vstd::seq_lib::to_multiset_build(rest@, x);
            assert(out@.to_multiset().add(rest@.to_multiset()) =~= o0.to_multiset().add(
                r0.to_multiset(),
            ));
        }
    }
    proof {
        assert(rest@.to_multiset() =~= Multiset::empty());
        assert(out@.to_multiset().add(rest@.to_multiset()) =~= out@.to_multiset());
    }
    out
}

/// The query names the workspace exactly: folder, slug or ticket.
pub open spec fn exact_hit(e: WorkspaceOnDisk, q: Seq<char>) -> bool {
    e.folder@ == q || e.ws.id@ == q || (e.ws.ticket matches Some(t) && t@ == q)
}

/// The folder starts with `q-`, e.g. `EPIC-123` for `EPIC-123-realtime-chat`.
pub open spec fn prefix_hit(e: WorkspaceOnDisk, q: Seq<char>) -> bool {
    starts_with(e.folder@, q + "-"@)
}

/// Positions of the entries that `q` names exactly, in order.
pub open spec fn exact_hits(es: Seq<WorkspaceOnDisk>, q: Seq<char>) -> Seq<int>
    decreases es.len(),
{
    if es.len() == 0 {
        Seq::empty()
    } else {
        let r = exact_hits(es.drop_last(), q);
        if exact_hit(es.last(), q) { r.push(es.len() - 1) } else { r }
    }
}

/// Positions of the entries whose folder has the prefix `q-`, in order.
pub open spec fn prefix_hits(es: Seq<WorkspaceOnDisk>, q: Seq<char>) -> Seq<int>
    decreases es.len(),
{
    if es.len() == 0 {
        Seq::empty()
    } else {
        let r = prefix_hits(es.drop_last(), q);
        if prefix_hit(es.last(), q) { r.push(es.len() - 1) } else { r }
    }
}

/// The candidate lines `"  folder"` joined with newlines.
pub open spec fn candidate_lines(folders: Seq<Seq<char>>) -> Seq<char>
    decreases folders.len(),
{
    if folders.len() == 0 {
        Seq::empty()
    } else if folders.len() == 1 {
        "  "@ + folders[0]
    } else {
        candidate_lines(folders.drop_last()) + "\n  "@ + folders.last()
    }
}

/// The message of an ambiguous query.
pub open spec fn ambiguous_text(q: Seq<char>, folders: Seq<Seq<char>>) -> Seq<char> {
    "Query '"@ + q + "' matches multiple workspaces:\n"@ + candidate_lines(folders)
        + "\nUse a full id or ticket."@
}

/// The folders at the given positions.
pub open spec fn folders_at(es: Seq<WorkspaceOnDisk>, idx: Seq<int>) -> Seq<Seq<char>> {
    idx.map_values(|i: int| es[i].folder@)
}

/// How a lookup ends: the entry found, or the message of a validation or
/// not-found error.
pub enum Resolved {
    Found(WorkspaceOnDisk),
    Invalid(Seq<char>),
    Missing(Seq<char>),
}

/// The outcome of resolving `q` among `es`, rooted at `root`.
pub open spec fn resolve_result(es: Seq<WorkspaceOnDisk>, q0: Seq<char>, root: Seq<char>) -> Resolved {
    let q = trim(q0);
    let ex = exact_hits(es, q);
    let px = prefix_hits(es, q);
    if q.len() == 0 {
        Resolved::Invalid("Workspace query must not be empty."@)
    } else if ex.len() == 1 {
        Resolved::Found(es[ex[0]])
    } else if ex.len() > 1 {
        Resolved::Invalid(ambiguous_text(q, folders_at(es, ex)))
    } else if px.len() == 1 {
        Resolved::Found(es[px[0]])
    } else if px.len() > 1 {
        Resolved::Invalid(ambiguous_text(q, folders_at(es, px)))
    } else {
        Resolved::Missing(
            "No workspace matches '"@ + q + "' under "@ + path_join(root, "workspaces"@),
        )
    }
}

proof fn lemma_exact_hits_none(es: Seq<WorkspaceOnDisk>, q: Seq<char>)
    requires
        forall|j: int| 0 <= j < es.len() ==> !exact_hit(#[trigger] es[j], q),
    ensures
        exact_hits(es, q) == Seq::<int>::empty(),
    decreases es.len(),
{
    if es.len() > 0 {
        assert(!exact_hit(es[es.len() - 1], q));
        lemma_exact_hits_none(es.drop_last(), q);
    }
}

proof fn lemma_exact_hits_unique(es: Seq<WorkspaceOnDisk>, q: Seq<char>, k: int)
    requires
        0 <= k < es.len(),
        exact_hit(es[k], q),
        forall|j: int| 0 <= j < es.len() && j != k ==> !exact_hit(#[trigger] es[j], q),
    ensures
        exact_hits(es, q) == seq![k],
    decreases es.len(),
{
    if k == es.len() - 1 {
        assert forall|j: int| 0 <= j < es.drop_last().len() implies !exact_hit(
            #[trigger] es.drop_last()[j],
            q,
        ) by {
            assert(es.drop_last()[j] == es[j]);
        }
        lemma_exact_hits_none(es.drop_last(), q);
        assert(exact_hits(es, q) =~= seq![k]);
    } else {
        assert(!exact_hit(es[es.len() - 1], q));
        assert forall|j: int| 0 <= j < es.drop_last().len() && j != k implies !exact_hit(
            #[trigger] es.drop_last()[j],
            q,
        ) by {
            assert(es.drop_last()[j] == es[j]);
        }
        lemma_exact_hits_unique(es.drop_last(), q, k);
    }
}

/// Lookup is by content, not by folder: a (trimmed, non-empty) query that
/// exactly one workspace names, by its folder, slug or ticket, resolves to
/// that workspace. So a workspace moved to `TICKET-slug` on attach is still
/// found by its slug and, from then on, by its ticket.
pub proof fn lemma_unique_name_resolves(es: Seq<WorkspaceOnDisk>, q: Seq<char>, root: Seq<char>, k: int)
    requires
        trim(q) == q,
        q.len() > 0,
        0 <= k < es.len(),
        exact_hit(es[k], q),
        forall|j: int| 0 <= j < es.len() && j != k ==> !exact_hit(#[trigger] es[j], q),
    ensures
        resolve_result(es, q, root) == Resolved::Found(es[k]),
{
    lemma_exact_hits_unique(es, q, k);
}

proof fn lemma_prefix_hits_contain(es: Seq<WorkspaceOnDisk>, q: Seq<char>, k: int)
    requires
        0 <= k < es.len(),
        prefix_hit(es[k], q),
    ensures
        prefix_hits(es, q).contains(k),
    decreases es.len(),
{
    let n = es.len() - 1;
    if k == n {
        assert(prefix_hits(es, q).last() == k);
    } else {
        assert(es.drop_last()[k] == es[k]);
        lemma_prefix_hits_contain(es.drop_last(), q, k);
        let r = prefix_hits(es.drop_last(), q);
        let i = choose|i: int| 0 <= i < r.len() && r[i] == k;
        if prefix_hit(es.last(), q) {
            assert(prefix_hits(es, q)[i] == k);
        }
    }
}

/// A query that names no workspace exactly but is the `q-` folder prefix of
/// two or more workspaces is ambiguous: the lookup fails with a validation
/// error listing them and never picks one.
pub proof fn lemma_shared_prefix_is_ambiguous(
    es: Seq<WorkspaceOnDisk>,
    q: Seq<char>,
    root: Seq<char>,
    i: int,
    j: int,
)
    requires
        trim(q) == q,
        q.len() > 0,
        0 <= i < es.len(),
        0 <= j < es.len(),
        i != j,
        starts_with(es[i].folder@, q + "-"@),
        starts_with(es[j].folder@, q + "-"@),
        forall|k: int|
            0 <= k < es.len() ==> (#[trigger] es[k]).folder@ != q && es[k].ws.id@ != q && !(
            es[k].ws.ticket matches Some(t) && t@ == q),
    ensures
        resolve_result(es, q, root) matches Resolved::Invalid(m) && m == ambiguous_text(
            q,
            folders_at(es, prefix_hits(es, q)),
        ),
{
    assert forall|k: int| 0 <= k < es.len() implies !exact_hit(#[trigger] es[k], q) by {
        assert(es[k].folder@ != q);
    }
    lemma_exact_hits_none(es, q);
    lemma_prefix_hits_contain(es, q, i);
    lemma_prefix_hits_contain(es, q, j);
    let px = prefix_hits(es, q);
    if px.len() <= 1 {
        let a = choose|a: int| 0 <= a < px.len() && px[a] == i;
        let b = choose|b: int| 0 <= b < px.len() && px[b] == j;
        assert(a == b);
    }
}

proof fn lemma_exact_hits_contain(es: Seq<WorkspaceOnDisk>, q: Seq<char>, k: int)
    requires
        0 <= k < es.len(),
        exact_hit(es[k], q),
    ensures
        exact_hits(es, q).contains(k),
    decreases es.len(),
{
    let n = es.len() - 1;
    if k == n {
        assert(exact_hits(es, q).last() == k);
    } else {
        assert(es.drop_last()[k] == es[k]);
        lemma_exact_hits_contain(es.drop_last(), q, k);
        let r = exact_hits(es.drop_last(), q);
        let i = choose|i: int| 0 <= i < r.len() && r[i] == k;
        if exact_hit(es.last(), q) {
            assert(exact_hits(es, q)[i] == k);
        }
    }
}

/// A query that two workspaces both answer to exactly (by folder, slug or
/// ticket) is ambiguous: the lookup fails with a validation error and never
/// picks one.
pub proof fn lemma_shared_name_is_ambiguous(
    es: Seq<WorkspaceOnDisk>,
    q: Seq<char>,
    root: Seq<char>,
    i: int,
    j: int,
)
    requires
        trim(q) == q,
        q.len() > 0,
        0 <= i < es.len(),
        0 <= j < es.len(),
        i != j,
        es[i].folder@ == q || es[i].ws.id@ == q || (es[i].ws.ticket matches Some(t) && t@ == q),
        es[j].folder@ == q || es[j].ws.id@ == q || (es[j].ws.ticket matches Some(t) && t@ == q),
    ensures
        resolve_result(es, q, root) matches Resolved::Invalid(m) && m == ambiguous_text(
            q,
            folders_at(es, exact_hits(es, q)),
        ),
{
    lemma_exact_hits_contain(es, q, i);
    lemma_exact_hits_contain(es, q, j);
    let ex = exact_hits(es, q);
    if ex.len() <= 1 {
        let a = choose|a: int| 0 <= a < ex.len() && ex[a] == i;
        let b = choose|b: int| 0 <= b < ex.len() && ex[b] == j;
        assert(a == b);
    }
}

pub proof fn lemma_folders_push(es: Seq<WorkspaceOnDisk>, h: Seq<int>, k: int)
    ensures
        folders_at(es, h.push(k)) == folders_at(es, h).push(es[k].folder@),
{
    assert(folders_at(es, h.push(k)) =~= folders_at(es, h).push(es[k].folder@));
}

/// The validation error for an ambiguous query.
pub fn ambiguous(q: &Vec<char>, folders: &Vec<String>) -> (e: WorkspaceError)
    ensures
        e matches WorkspaceError::Validation(m) && m@ == ambiguous_text(
            q@,
            folders@.map_values(|f: String| f@),
        ),
{
    let ghost fs = folders@.map_values(|f: String| f@);
    let mut list = String::new();
    let mut i: usize = 0;
    while i < folders.len()
        invariant
            i <= folders.len(),
            fs == folders@.map_values(|f: String| f@),
            list@ == candidate_lines(fs.take(i as int)),
        decreases folders.len() - i,
    {
        if i > 0 {
            push_str(&mut list, "\n  ");
        } else {
            push_str(&mut list, "  ");
        }
        push_str(&mut list, folders[i].as_str());
        assert(fs.take(i + 1).drop_last() =~= fs.take(i as int));
        if i == 0 {
            assert(fs.take(1) =~= seq![fs[0]]);
        }
        i += 1;
    }
    assert(fs.take(folders.len() as int) =~= fs);
    let mut m = owned("Query '");
    push_chars(&mut m, q);
    push_str(&mut m, "' matches multiple workspaces:\n");
    push_str(&mut m, list.as_str());
    push_str(&mut m, "\nUse a full id or ticket.");
    WorkspaceError::Validation(m)
}

/// Whether `q` names the entry exactly.
fn is_exact_hit(e: &WorkspaceOnDisk, q: &Vec<char>) -> (res: bool)
    ensures
        res == exact_hit(*e, q@),
{
    let f = str_chars(e.folder.as_str());
    if chars_eq(&f, q) {
        return true;
    }
    let id = str_chars(e.ws.id.as_str());
    if chars_eq(&id, q) {
        return true;
    }
    match &e.ws.ticket {
        Some(t) => {
            let tv = str_chars(t.as_str());
            chars_eq(&tv, q)
        },
        None => false,
    }
}

/// Whether the entry's folder starts with `q-`.
fn is_prefix_hit(e: &WorkspaceOnDisk, q: &Vec<char>) -> (res: bool)
    ensures
        res == prefix_hit(*e, q@),
{
    let f = str_chars(e.folder.as_str());
    let mut p = q.clone();
    p.push('-');
    proof {
        reveal_strlit("-");
        assert(p@ =~= q@ + "-"@);
    }
    chars_starts_with(&f, &p)
}

/// Resolve a workspace query to a unique folder and workspace by content.
///
/// The query (trimmed) first matches exactly a folder name, slug or ticket;
/// failing that, a folder prefix `{q}-`. More than one match at either level
/// is a `Validation` error listing the candidates; none is `NotFound`.
/// `entries` are the workspaces found under `root/workspaces`.
pub fn resolve_workspace(entries: Vec<WorkspaceOnDisk>, root: &str, q: &str) -> (res: Result<
    WorkspaceOnDisk,
    WorkspaceError,
>)
    ensures
        match resolve_result(entries@, q@, root@) {
            Resolved::Found(e) => res == Ok::<WorkspaceOnDisk, WorkspaceError>(e),
            Resolved::Invalid(m) => res matches Err(WorkspaceError::Validation(msg)) && msg@ == m,
            Resolved::Missing(m) => res matches Err(WorkspaceError::NotFound(msg)) && msg@ == m,
        },
{
    let mut entries = entries;
    let qv = str_trim(q);
    let ghost es = entries@;
    if qv.len() == 0 {
        return Err(WorkspaceError::Validation(owned("Workspace query must not be empty.")));
    }
    let mut exact: Vec<usize> = Vec::new();
    let mut exact_folders: Vec<String> = Vec::new();
    let mut prefix: Vec<usize> = Vec::new();
    let mut prefix_folders: Vec<String> = Vec::new();
    let mut i: usize = 0;
    while i < entries.len()
        invariant
            entries@ == es,
            i <= entries.len(),
            exact@.map_values(|x: usize| x as int) == exact_hits(es.take(i as int), qv@),
            prefix@.map_values(|x: usize| x as int) == prefix_hits(es.take(i as int), qv@),
            exact_folders@.map_values(|f: String| f@) == folders_at(
                es,
                exact_hits(es.take(i as int), qv@),
            ),
            prefix_folders@.map_values(|f: String| f@) == folders_at(
                es,
                prefix_hits(es.take(i as int), qv@),
            ),
            forall|k: int| 0 <= k < exact@.len() ==> exact@[k] < i,
            forall|k: int| 0 <= k < prefix@.len() ==> prefix@[k] < i,
        decreases entries.len() - i,
    {
        assert(es.take(i + 1).drop_last() =~= es.take(i as int));
        assert(es.take(i + 1).last() == es[i as int]);
        proof {
            lemma_folders_push(es, exact_hits(es.take(i as int), qv@), i as int);
            lemma_folders_push(es, prefix_hits(es.take(i as int), qv@), i as int);
        }
        if is_exact_hit(&entries[i], &qv) {
            exact.push(i);
            exact_folders.push(entries[i].folder.clone());
        }
        if is_prefix_hit(&entries[i], &qv) {
            prefix.push(i);
            prefix_folders.push(entries[i].folder.clone());
        }
        assert(exact@.map_values(|x: usize| x as int) =~= exact_hits(es.take(i + 1), qv@));
        assert(prefix@.map_values(|x: usize| x as int) =~= prefix_hits(es.take(i + 1), qv@));
        assert(exact_folders@.map_values(|f: String| f@) =~= folders_at(
            es,
            exact_hits(es.take(i + 1), qv@),
        ));
        assert(prefix_folders@.map_values(|f: String| f@) =~= folders_at(
            es,
            prefix_hits(es.take(i + 1), qv@),
        ));
        i += 1;
    }
    assert(es.take(entries.len() as int) =~= es);
    if exact.len() == 1 {
        let k = exact[0];
        assert(exact@.map_values(|x: usize| x as int)[0] == k as int);
        return Ok(entries.swap_remove(k));
    }
    if exact.len() > 1 {
        return Err(ambiguous(&qv, &exact_folders));
    }
    if prefix.len() == 1 {
        let k = prefix[0];
        assert(prefix@.map_values(|x: usize| x as int)[0] == k as int);
        return Ok(entries.swap_remove(k));
    }
    if prefix.len() > 1 {
        return Err(ambiguous(&qv, &prefix_folders));
    }
    let mut m = owned("No workspace matches '");
    push_chars(&mut m, &qv);
    push_str(&mut m, "' under ");
    let wdir = join_path(root, "workspaces");
    push_str(&mut m, wdir.as_str());
    Err(WorkspaceError::NotFound(m))
}

} // verus!
