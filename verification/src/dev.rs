//! `ws dev-install` bookkeeping: GitHub PR URLs, the registry of dev
//! binaries built from PRs, and the paths those binaries live at.
use vstd::prelude::*;
use crate::error::WorkspaceError;
use crate::text::{
    chars_string, decimal_value, find_chars, find_from, join_path, owned, parse_u64, path_join,
    push_chars, push_str, slice_chars, str_chars, str_eq, str_trim, trim, u64_text,
    decimal_text, lemma_find_from, occurs_at, join_strings, joined, views, contains_seq, is_digit,
    lemma_decimal_text_value, lemma_find_from_first, lemma_find_from_none, white, trim_start, trim_end,
};
use crate::repo_ops::{i32_string, i32_text};

verus! {

/// Default name of a dev binary when `--name` is not given.
pub const DEFAULT_DEV_NAME: &'static str = "ws-dev";

// =========================================================================
// Data model
// =========================================================================

/// One installed dev binary, tracked in the registry.
pub struct DevInstall {
    pub pr_url: String,
    pub owner: String,
    pub repo: String,
    pub pr_number: u64,
    pub name: String,
    /// Absolute path to the installed dev binary.
    pub binary_path: String,
    pub git_sha: Option<String>,
    pub installed_at: String,
}

/// Every dev binary installed via `ws dev-install`.
pub struct DevRegistry {
    pub installs: Vec<DevInstall>,
}

/// A parsed GitHub PR reference.
#[derive(Debug, PartialEq, Eq)]
pub struct PrRef {
    pub owner: String,
    pub repo: String,
    pub pr_number: u64,
}

pub struct DevInstallInput {
    pub pr_url: String,
    pub name: Option<String>,
    /// When true, replace an existing binary at the destination path.
    pub force: bool,
}

pub struct DevInstallOutput {
    pub install: DevInstall,
    /// True if a previous binary at the same path was replaced.
    pub overwritten: bool,
}

pub struct DevUninstallOutput {
    pub removed: Vec<DevInstall>,
}

pub struct DevPurgeOutput {
    pub removed: Vec<DevInstall>,
}

// =========================================================================
// Paths
// =========================================================================

/// The persisted PR→binary registry, `<home>/.ws/dev-installs.json`.
pub fn registry_path(home: &str) -> (p: String)
    ensures
        p@ == path_join(path_join(home@, ".ws"@), "dev-installs.json"@),
{
    let d = join_path(home, ".ws");
    join_path(d.as_str(), "dev-installs.json")
}

/// Cached source checkouts used for dev builds, `<home>/.ws/dev-builds`.
pub fn build_cache_root(home: &str) -> (p: String)
    ensures
        p@ == path_join(path_join(home@, ".ws"@), "dev-builds"@),
{
    let d = join_path(home, ".ws");
    join_path(d.as_str(), "dev-builds")
}

// =========================================================================
// URL parsing
// =========================================================================

/// Scans path segments: `done` holds the finished non-empty segments,
/// `cur` the one being read.
pub open spec fn seg_scan(done: Seq<Seq<char>>, cur: Seq<char>, s: Seq<char>) -> Seq<Seq<char>>
    decreases s.len(),
{
    if s.len() == 0 {
        if cur.len() > 0 { done.push(cur) } else { done }
    } else if s[0] == '/' {
        seg_scan(if cur.len() > 0 { done.push(cur) } else { done }, Seq::empty(), s.drop_first())
    } else {
        seg_scan(done, cur.push(s[0]), s.drop_first())
    }
}

/// The non-empty `/`-separated segments of a path.
pub open spec fn segments(s: Seq<char>) -> Seq<Seq<char>> {
    seg_scan(Seq::empty(), Seq::empty(), s)
}

/// The non-empty `/`-separated segments of a path.
pub fn split_segments(s: &Vec<char>) -> (segs: Vec<String>)
    ensures
        segs@.map_values(|x: String| x@) == segments(s@),
{
    let mut done: Vec<String> = Vec::new();
    let mut cur: Vec<char> = Vec::new();
    let mut i: usize = 0;
    assert(s@.skip(0) =~= s@);
    assert(done@.map_values(|x: String| x@) =~= Seq::<Seq<char>>::empty());
    while i < s.len()
        invariant
            i <= s.len(),
            segments(s@) == seg_scan(done@.map_values(|x: String| x@), cur@, s@.skip(i as int)),
        decreases s.len() - i,
    {
        let ghost d0 = done@.map_values(|x: String| x@);
        if s[i] == '/' {
            if cur.len() > 0 {
                let st = chars_string(&cur);
                done.push(st);
                assert(done@.map_values(|x: String| x@) =~= d0.push(cur@));
            }
            cur = Vec::new();
        } else {
            cur.push(s[i]);
        }
        assert(s@.skip(i as int).drop_first() =~= s@.skip(i + 1));
        i += 1;
    }
    let ghost d0 = done@.map_values(|x: String| x@);
    if cur.len() > 0 {
        let st = chars_string(&cur);
        done.push(st);
        assert(done@.map_values(|x: String| x@) =~= d0.push(cur@));
    }
    done
}

pub open spec fn is_pull_word(s: Seq<char>) -> bool {
    s == "pull"@ || s == "pulls"@
}

/// The first segment that reads `pull` or `pulls`.
pub open spec fn pull_index(segs: Seq<Seq<char>>) -> Option<int>
    decreases segs.len(),
{
    if segs.len() == 0 {
        None
    } else {
        match pull_index(segs.drop_last()) {
            Some(k) => Some(k),
            None => if is_pull_word(segs.last()) { Some(segs.len() - 1) } else { None },
        }
    }
}

pub proof fn lemma_pull_index(segs: Seq<Seq<char>>)
    ensures
        pull_index(segs) matches Some(k) ==> 0 <= k < segs.len() && is_pull_word(segs[k])
            && forall|j: int| 0 <= j < k ==> !is_pull_word(segs[j]),
        pull_index(segs) is None ==> forall|j: int| 0 <= j < segs.len() ==> !is_pull_word(segs[j]),
    decreases segs.len(),
{
    if segs.len() > 0 {
        let init = segs.drop_last();
        lemma_pull_index(init);
        assert forall|j: int| 0 <= j < init.len() implies init[j] == segs[j] by {}
    }
}

/// The text after the first `github.com/`, up to the next one.
pub open spec fn github_path(t: Seq<char>) -> Option<Seq<char>> {
    match find_from(t, "github.com/"@, 0) {
        None => None,
        Some(i) => {
            let a = i + "github.com/"@.len();
            match find_from(t, "github.com/"@, a) {
                Some(j) => Some(t.subrange(a, j)),
                None => Some(t.skip(a)),
            }
        },
    }
}

/// How reading a PR URL ends.
pub enum PrParsed {
    Parsed(Seq<char>, Seq<char>, u64),
    Invalid(Seq<char>),
}

/// The PR number in the segment after `pull`.
pub open spec fn pr_number_of(segs: Seq<Seq<char>>, k: int) -> Option<u64> {
    if k + 1 < segs.len() {
        match decimal_value(segs[k + 1]) {
            Some(n) => if n <= u64::MAX { Some(n as u64) } else { None },
            None => None,
        }
    } else {
        None
    }
}

/// What `parse_pr_url` makes of a URL.
pub open spec fn pr_url_result(url: Seq<char>) -> PrParsed {
    match github_path(trim(url)) {
        None => PrParsed::Invalid(
            "Expected a GitHub PR URL like https://github.com/<owner>/<repo>/pull/<number>, got: "@
                + url,
        ),
        Some(part) => {
            let segs = segments(part);
            match pull_index(segs) {
                None => PrParsed::Invalid("PR URL is missing '/pull/<number>': "@ + url),
                Some(k) => if k < 2 {
                    PrParsed::Invalid("PR URL is missing owner/repo before '/pull': "@ + url)
                } else {
                    match pr_number_of(segs, k) {
                        Some(n) => PrParsed::Parsed(segs[k - 2], segs[k - 1], n),
                        None => PrParsed::Invalid("Could not read PR number from URL: "@ + url),
                    }
                },
            }
        },
    }
}

/// Parse a GitHub PR URL such as `https://github.com/Nestyko/workspace/pull/14`
/// (a trailing `/`, further segments such as `/files`, and `pulls` in place
/// of `pull` are accepted) into its owner, repo and PR number.
pub fn parse_pr_url(url: &str) -> (res: Result<PrRef, WorkspaceError>)
    ensures
        match pr_url_result(url@) {
            PrParsed::Parsed(o, r, n) => res matches Ok(p) && p.owner@ == o && p.repo@ == r
                && p.pr_number == n,
            PrParsed::Invalid(m) => res matches Err(WorkspaceError::Validation(msg)) && msg@ == m,
        },
{
    let t = str_trim(url);
    let gh = str_chars("github.com/");
    proof {
        lemma_find_from(t@, gh@, 0);
    }
    let i = match find_chars(&t, &gh, 0) {
        Some(i) => i,
        None => {
            let mut m = owned(
                "Expected a GitHub PR URL like https://github.com/<owner>/<repo>/pull/<number>, got: ",
            );
            push_str(&mut m, url);
            return Err(WorkspaceError::Validation(m));
        },
    };
    assert(find_from(t@, gh@, 0) == Some(i as int));
    assert(occurs_at(t@, gh@, i as int));
    assert(i + gh@.len() <= t@.len());
    let tl = t.len();
    let gl = gh.len();
    let a = i + gl;
    let part = match find_chars(&t, &gh, a) {
        Some(j) => {
            proof {
                lemma_find_from(t@, gh@, a as int);
            }
            slice_chars(&t, a, j)
        },
        None => {
            assert(t@.skip(a as int) =~= t@.subrange(a as int, t@.len() as int));
            slice_chars(&t, a, tl)
        },
    };
    let segs = split_segments(&part);
    let ghost sv = segs@.map_values(|x: String| x@);
    proof {
        lemma_pull_index(sv);
    }
    let mut k: usize = 0;
    while k < segs.len() && !(str_eq(segs[k].as_str(), "pull") || str_eq(segs[k].as_str(), "pulls"))
        invariant
            k <= segs.len(),
            sv == segs@.map_values(|x: String| x@),
            forall|j: int| 0 <= j < k ==> !is_pull_word(sv[j]),
        decreases segs.len() - k,
    {
        k += 1;
    }
    if k == segs.len() {
        let mut m = owned("PR URL is missing '/pull/<number>': ");
        push_str(&mut m, url);
        return Err(WorkspaceError::Validation(m));
    }
    assert(sv[k as int] == segs@[k as int]@);
    assert(pull_index(sv) == Some(k as int));
    if k < 2 {
        let mut m = owned("PR URL is missing owner/repo before '/pull': ");
        push_str(&mut m, url);
        return Err(WorkspaceError::Validation(m));
    }
    let n = if k + 1 < segs.len() {
        parse_u64(segs[k + 1].as_str())
    } else {
        None
    };
    match n {
        Some(n) => Ok(
            PrRef { owner: segs[k - 2].clone(), repo: segs[k - 1].clone(), pr_number: n },
        ),
        None => {
            let mut m = owned("Could not read PR number from URL: ");
            push_str(&mut m, url);
            Err(WorkspaceError::Validation(m))
        },
    }
}

// =========================================================================
// The PR URL round trip
// =========================================================================

/// The URL of PR `n` of `owner/repo`, followed by `tail`.
pub open spec fn pr_url_text(owner: Seq<char>, repo: Seq<char>, n: nat, tail: Seq<char>) -> Seq<
    char,
> {
    "https://github.com/"@ + owner + "/"@ + repo + "/pull/"@ + decimal_text(n) + tail
}

/// What can stand as the owner or the repo in a PR URL: non-empty, no `/`,
/// no `github.com`, and neither `pull` nor `pulls`.
pub open spec fn url_segment(s: Seq<char>) -> bool {
    &&& s.len() > 0
    &&& forall|i: int| 0 <= i < s.len() ==> #[trigger] s[i] != '/'
    &&& !contains_seq(s, "github.com"@)
    &&& !is_pull_word(s)
}

/// The tails a PR URL may carry after its number.
pub open spec fn pr_url_tail(tail: Seq<char>) -> bool {
    tail == ""@ || tail == "/"@ || tail == "/files"@
}

proof fn lemma_scan_word(done: Seq<Seq<char>>, cur: Seq<char>, w: Seq<char>, s: Seq<char>)
    requires
        forall|i: int| 0 <= i < w.len() ==> #[trigger] w[i] != '/',
    ensures
        seg_scan(done, cur, w + s) == seg_scan(done, cur + w, s),
    decreases w.len(),
{
    if w.len() == 0 {
        assert(w + s =~= s);
        assert(cur + w =~= cur);
    } else {
        assert((w + s)[0] == w[0]);
        assert((w + s).drop_first() =~= w.drop_first() + s);
        lemma_scan_word(done, cur.push(w[0]), w.drop_first(), s);
        assert(cur.push(w[0]) + w.drop_first() =~= cur + w);
    }
}

proof fn lemma_scan_slash(done: Seq<Seq<char>>, cur: Seq<char>, s: Seq<char>)
    ensures
        seg_scan(done, cur, "/"@ + s) == seg_scan(
            if cur.len() > 0 { done.push(cur) } else { done },
            Seq::empty(),
            s,
        ),
{
    reveal_strlit("/");
    assert(("/"@ + s)[0] == '/');
    assert(("/"@ + s).drop_first() =~= s);
}

/// No `github.com/` starts inside a word `w` that is followed by `/`, when
/// `w` holds neither `/` nor `github.com`.
proof fn lemma_no_host_in_word(s: Seq<char>, pre: Seq<char>, w: Seq<char>, rest: Seq<char>, j: int)
    requires
        s == pre + w + "/"@ + rest,
        forall|i: int| 0 <= i < w.len() ==> #[trigger] w[i] != '/',
        !contains_seq(w, "github.com"@),
        pre.len() <= j < pre.len() + w.len(),
    ensures
        !occurs_at(s, "github.com/"@, j),
{
    reveal_strlit("/");
    reveal_strlit("github.com/");
    reveal_strlit("github.com");
    let g = "github.com/"@;
    let q: int = (pre.len() + w.len()) as int;
    assert(s[q] == '/');
    if occurs_at(s, g, j) {
        assert forall|k: int| 0 <= k < 11 implies s[j + k] == g[k] by {
            assert(s.subrange(j, j + 11)[k] == s[j + k]);
        }
        if q < j + 10 {
            assert(s[q] == g[q - j]);
            assert(false);
        } else {
            let a = j - pre.len();
            assert(w.subrange(a, a + 10) =~= s.subrange(j, j + 10));
            assert(s.subrange(j, j + 10) =~= g.subrange(0, 10));
            assert(g.subrange(0, 10) =~= "github.com"@);
            assert(w.subrange(a, a + 10) =~= "github.com"@);
            assert(occurs_at(w, "github.com"@, a));
        }
    }
}

/// `github.com/` never starts at a character other than `g`.
proof fn lemma_host_starts_with_g(s: Seq<char>, j: int)
    requires
        0 <= j < s.len(),
        s[j] != 'g',
    ensures
        !occurs_at(s, "github.com/"@, j),
{
    reveal_strlit("github.com/");
    if occurs_at(s, "github.com/"@, j) {
        assert(s.subrange(j, j + 11)[0] == s[j]);
    }
}

/// The path part of a formatted PR URL, after `https://github.com/`.
pub open spec fn pr_path_text(owner: Seq<char>, repo: Seq<char>, d: Seq<char>, tail: Seq<char>) -> Seq<
    char,
> {
    owner + "/"@ + repo + "/pull/"@ + d + tail
}

pub open spec fn all_digits(d: Seq<char>) -> bool {
    forall|i: int| 0 <= i < d.len() ==> is_digit(#[trigger] d[i])
}

proof fn lemma_path_has_no_host(owner: Seq<char>, repo: Seq<char>, d: Seq<char>, tail: Seq<char>)
    requires
        url_segment(owner),
        url_segment(repo),
        all_digits(d),
        pr_url_tail(tail),
    ensures
        forall|j: int| 0 <= j ==> !occurs_at(pr_path_text(owner, repo, d, tail), "github.com/"@, j),
{
    reveal_strlit("/pull/");
    reveal_strlit("pull/");
    reveal_strlit("/");
    reveal_strlit("");
    reveal_strlit("/files");
    reveal_strlit("github.com/");
    let g = "github.com/"@;
    let part = pr_path_text(owner, repo, d, tail);
    let lo: int = owner.len() as int;
    let lr: int = repo.len() as int;
    let tail3 = "/pull/"@ + d + tail;
    assert(part =~= owner + "/"@ + repo + tail3);
    assert forall|i: int| 0 <= i < tail3.len() implies tail3[i] != 'g' by {
        if i >= 6 && i < 6 + d.len() {
            assert(tail3[i] == d[i - 6]);
            assert(is_digit(d[i - 6]));
        } else if i >= 6 + d.len() {
            assert(tail3[i] == tail[i - 6 - d.len()]);
        }
    }
    let rest1 = repo + tail3;
    assert(part =~= Seq::<char>::empty() + owner + "/"@ + rest1);
    let pre2 = owner + "/"@;
    let rest2 = "pull/"@ + d + tail;
    assert(tail3 =~= "/"@ + rest2);
    assert(part =~= pre2 + repo + "/"@ + rest2);
    assert forall|j: int| 0 <= j implies !occurs_at(part, g, j) by {
        if j < lo {
            lemma_no_host_in_word(part, Seq::<char>::empty(), owner, rest1, j);
        } else if j == lo {
            assert(part[j] == '/');
            lemma_host_starts_with_g(part, j);
        } else if j < lo + 1 + lr {
            lemma_no_host_in_word(part, pre2, repo, rest2, j);
        } else if j < part.len() {
            assert(part[j] == tail3[j - lo - 1 - lr]);
            lemma_host_starts_with_g(part, j);
        }
    }
}

proof fn lemma_url_path(owner: Seq<char>, repo: Seq<char>, d: Seq<char>, tail: Seq<char>)
    requires
        url_segment(owner),
        url_segment(repo),
        all_digits(d),
        d.len() > 0,
        pr_url_tail(tail),
    ensures
        github_path(trim("https://github.com/"@ + pr_path_text(owner, repo, d, tail))) == Some(
            pr_path_text(owner, repo, d, tail),
        ),
{
    reveal_strlit("https://github.com/");
    reveal_strlit("github.com/");
    reveal_strlit("");
    reveal_strlit("/");
    reveal_strlit("/files");
    let g = "github.com/"@;
    let head = "https://github.com/"@;
    let part = pr_path_text(owner, repo, d, tail);
    let url = head + part;
    lemma_path_has_no_host(owner, repo, d, tail);
    assert forall|j: int| 19 <= j implies !occurs_at(url, g, j) by {
        if occurs_at(url, g, j) {
            assert(url.subrange(j, j + 11) =~= part.subrange(j - 19, j - 19 + 11));
            assert(occurs_at(part, g, j - 19));
        }
    }
    assert(url.subrange(8, 19) =~= g);
    assert forall|j: int| 0 <= j < 8 implies !occurs_at(url, g, j) by {
        assert(url[j] == head[j]);
        lemma_host_starts_with_g(url, j);
    }
    lemma_find_from_first(url, g, 0, 8);
    lemma_find_from_none(url, g, 19);
    assert(url.skip(19) =~= part);
    assert(!white(url[0]));
    if tail.len() == 0 {
        assert(url.last() == d[d.len() - 1]);
        assert(is_digit(d[d.len() - 1]));
    } else {
        assert(url.last() == tail.last());
    }
    assert(!white(url.last()));
    assert(trim_start(url) == url);
    assert(trim_end(url) == url);
}

proof fn lemma_path_segments(owner: Seq<char>, repo: Seq<char>, d: Seq<char>, tail: Seq<char>)
    requires
        url_segment(owner),
        url_segment(repo),
        all_digits(d),
        d.len() > 0,
        pr_url_tail(tail),
    ensures
        segments(pr_path_text(owner, repo, d, tail)).len() >= 4,
        segments(pr_path_text(owner, repo, d, tail))[0] == owner,
        segments(pr_path_text(owner, repo, d, tail))[1] == repo,
        segments(pr_path_text(owner, repo, d, tail))[2] == "pull"@,
        segments(pr_path_text(owner, repo, d, tail))[3] == d,
{
    reveal_strlit("/pull/");
    reveal_strlit("pull");
    reveal_strlit("/");
    reveal_strlit("");
    reveal_strlit("/files");
    reveal_strlit("files");
    let part = pr_path_text(owner, repo, d, tail);
    let x6 = d + tail;
    let x5 = "/"@ + x6;
    let x4 = "pull"@ + x5;
    let x3 = "/"@ + x4;
    let x2 = repo + x3;
    let x1 = "/"@ + x2;
    assert(part =~= owner + x1);
    assert forall|i: int| 0 <= i < 4 implies #[trigger] "pull"@[i] != '/' by {}
    assert forall|i: int| 0 <= i < d.len() implies #[trigger] d[i] != '/' by {
        assert(is_digit(d[i]));
    }
    let e = Seq::<Seq<char>>::empty();
    let z = Seq::<char>::empty();
    lemma_scan_word(e, z, owner, x1);
    assert(z + owner =~= owner);
    lemma_scan_slash(e, owner, x2);
    lemma_scan_word(e.push(owner), z, repo, x3);
    assert(z + repo =~= repo);
    lemma_scan_slash(e.push(owner), repo, x4);
    let d2 = e.push(owner).push(repo);
    lemma_scan_word(d2, z, "pull"@, x5);
    assert(z + "pull"@ =~= "pull"@);
    lemma_scan_slash(d2, "pull"@, x6);
    let d3 = d2.push("pull"@);
    lemma_scan_word(d3, z, d, tail);
    assert(z + d =~= d);
    let segs = segments(part);
    if tail == ""@ {
        assert(segs == d3.push(d));
    } else if tail == "/"@ {
        assert(tail =~= "/"@ + z);
        lemma_scan_slash(d3, d, z);
        assert(segs == d3.push(d));
    } else {
        assert(tail =~= "/"@ + ("files"@ + z));
        lemma_scan_slash(d3, d, "files"@ + z);
        assert forall|i: int| 0 <= i < 5 implies #[trigger] "files"@[i] != '/' by {}
        lemma_scan_word(d3.push(d), z, "files"@, z);
        assert(z + "files"@ =~= "files"@);
        assert(segs == d3.push(d).push("files"@));
    }
}

/// A formatted PR URL reads back as its owner, repo and number: for an
/// owner and a repo that are plain path segments, any number, and a tail of
/// nothing, `/` or `/files`.
pub proof fn lemma_pr_url_round_trip(owner: Seq<char>, repo: Seq<char>, n: u64, tail: Seq<char>)
    requires
        url_segment(owner),
        url_segment(repo),
        pr_url_tail(tail),
    ensures
        pr_url_result(pr_url_text(owner, repo, n as nat, tail)) == PrParsed::Parsed(owner, repo, n),
{
    let d = decimal_text(n as nat);
    lemma_decimal_text_value(n as nat);
    let part = pr_path_text(owner, repo, d, tail);
    assert(pr_url_text(owner, repo, n as nat, tail) =~= "https://github.com/"@ + part);
    lemma_url_path(owner, repo, d, tail);
    lemma_path_segments(owner, repo, d, tail);
    let segs = segments(part);
    lemma_pull_index(segs);
    reveal_strlit("pull");
    assert(is_pull_word(segs[2]));
    assert(pull_index(segs) == Some(2int));
    assert(pr_number_of(segs, 2) == Some(n));
}

// =========================================================================
// Registry bookkeeping
// =========================================================================

/// The record was installed from PR `owner/repo#n`.
pub open spec fn of_pr(e: DevInstall, owner: Seq<char>, repo: Seq<char>, n: u64) -> bool {
    e.owner@ == owner && e.repo@ == repo && e.pr_number == n
}

/// The records of `es` installed from PR `owner/repo#n`, in order.
pub open spec fn pr_records(es: Seq<DevInstall>, owner: Seq<char>, repo: Seq<char>, n: u64) -> Seq<
    DevInstall,
>
    decreases es.len(),
{
    if es.len() == 0 {
        Seq::empty()
    } else {
        let r = pr_records(es.drop_last(), owner, repo, n);
        if of_pr(es.last(), owner, repo, n) { r.push(es.last()) } else { r }
    }
}

/// The records of `es` not installed from PR `owner/repo#n`, in order.
pub open spec fn other_records(es: Seq<DevInstall>, owner: Seq<char>, repo: Seq<char>, n: u64) -> Seq<
    DevInstall,
>
    decreases es.len(),
{
    if es.len() == 0 {
        Seq::empty()
    } else {
        let r = other_records(es.drop_last(), owner, repo, n);
        if of_pr(es.last(), owner, repo, n) { r } else { r.push(es.last()) }
    }
}

/// The records of `es` other than the one for PR `owner/repo#n` named `name`.
pub open spec fn without_install(
    es: Seq<DevInstall>,
    owner: Seq<char>,
    repo: Seq<char>,
    n: u64,
    name: Seq<char>,
) -> Seq<DevInstall>
    decreases es.len(),
{
    if es.len() == 0 {
        Seq::empty()
    } else {
        let r = without_install(es.drop_last(), owner, repo, n, name);
        if of_pr(es.last(), owner, repo, n) && es.last().name@ == name { r } else { r.push(es.last()) }
    }
}

fn is_of_pr(e: &DevInstall, owner: &String, repo: &String, n: u64) -> (res: bool)
    ensures
        res == of_pr(*e, owner@, repo@, n),
{
    e.owner == *owner && e.repo == *repo && e.pr_number == n
}

/// The checks `dev-install` makes before any build: the PR URL must parse,
/// the binary name defaults to `ws-dev`, and the stable `ws` binary is never
/// a target.
pub fn dev_install_target(input: &DevInstallInput) -> (res: Result<(PrRef, String), WorkspaceError>)
    ensures
        match pr_url_result(input.pr_url@) {
            PrParsed::Invalid(m) => res matches Err(WorkspaceError::Validation(msg)) && msg@ == m,
            PrParsed::Parsed(o, r, n) => {
                let name = match input.name {
                    Some(x) => x@,
                    None => DEFAULT_DEV_NAME@,
                };
                if name == "ws"@ {
                    res matches Err(WorkspaceError::Validation(msg)) && msg@
                        == "Refusing to overwrite the stable `ws` binary — pick a dev name (e.g. `ws-dev`) via --name."@
                } else {
                    res matches Ok((p, nm)) && p.owner@ == o && p.repo@ == r && p.pr_number == n
                        && nm@ == name
                }
            },
        },
{
    let pr = match parse_pr_url(input.pr_url.as_str()) {
        Ok(p) => p,
        Err(e) => return Err(e),
    };
    let name = match &input.name {
        Some(x) => x.clone(),
        None => owned(DEFAULT_DEV_NAME),
    };
    if str_eq(name.as_str(), "ws") {
        return Err(
            WorkspaceError::Validation(
                owned(
                    "Refusing to overwrite the stable `ws` binary — pick a dev name (e.g. `ws-dev`) via --name.",
                ),
            ),
        );
    }
    Ok((pr, name))
}

/// Where dev binaries are installed: `WS_DEV_BIN_DIR` when set and
/// non-empty, else `$CARGO_HOME/bin` when set and non-empty, else
/// `<home>/.cargo/bin`; without a home directory, a `Config` error.
pub open spec fn bin_dir_of(
    ws_dev_bin_dir: Option<Seq<char>>,
    cargo_home: Option<Seq<char>>,
    home: Option<Seq<char>>,
) -> Option<Seq<char>> {
    match ws_dev_bin_dir {
        Some(d) if d.len() > 0 => Some(d),
        _ => match cargo_home {
            Some(c) if c.len() > 0 => Some(path_join(c, "bin"@)),
            _ => match home {
                Some(h) => Some(path_join(path_join(h, ".cargo"@), "bin"@)),
                None => None,
            },
        },
    }
}

pub open spec fn spec_view_of(o: Option<String>) -> Option<Seq<char>> {
    match o {
        Some(x) => Some(x@),
        None => None,
    }
}

/// The install directory for dev binaries, from the values of
/// `WS_DEV_BIN_DIR`, `CARGO_HOME` and the home directory (each `None`
/// when unset).
pub fn dev_bin_dir(ws_dev_bin_dir: &Option<String>, cargo_home: &Option<String>, home: &Option<String>) -> (res: Result<String, WorkspaceError>)
    ensures
        match bin_dir_of(spec_view_of(*ws_dev_bin_dir), spec_view_of(*cargo_home), spec_view_of(*home)) {
            Some(d) => res matches Ok(p) && p@ == d,
            None => res matches Err(WorkspaceError::Config(m))
                && m@ == "Could not determine home directory"@,
        },
{
    match ws_dev_bin_dir {
        Some(d) => {
            if d.as_str().unicode_len() > 0 {
                return Ok(d.clone());
            }
        },
        None => {},
    }
    match cargo_home {
        Some(c) => {
            if c.as_str().unicode_len() > 0 {
                return Ok(join_path(c.as_str(), "bin"));
            }
        },
        None => {},
    }
    match home {
        Some(h) => {
            let c = join_path(h.as_str(), ".cargo");
            Ok(join_path(c.as_str(), "bin"))
        },
        None => Err(WorkspaceError::Config(owned("Could not determine home directory"))),
    }
}

/// Whether the install may go ahead when a binary already sits at
/// `bin_path`: without `--force` it is a `Validation` error; otherwise the
/// result says whether a binary is replaced.
pub fn overwrite_check(exists: bool, force: bool, name: &str, bin_path: &str) -> (res: Result<bool, WorkspaceError>)
    ensures
        exists && !force ==> (res matches Err(WorkspaceError::Validation(m)) && m@
            == "A binary named `"@ + name@ + "` already exists at "@ + bin_path@
            + ". Pass --force to replace it."@),
        !(exists && !force) ==> res == Ok::<bool, WorkspaceError>(exists),
{
    if exists && !force {
        let mut m = owned("A binary named `");
        push_str(&mut m, name);
        push_str(&mut m, "` already exists at ");
        push_str(&mut m, bin_path);
        push_str(&mut m, ". Pass --force to replace it.");
        return Err(WorkspaceError::Validation(m));
    }
    Ok(exists)
}

/// The cached checkout of a PR's repository: `<cache root>/<owner>-<repo>`.
pub fn clone_dir(cache_root: &str, pr: &PrRef) -> (p: String)
    ensures
        p@ == path_join(cache_root@, pr.owner@ + "-"@ + pr.repo@),
{
    let mut n = pr.owner.clone();
    push_str(&mut n, "-");
    push_str(&mut n, pr.repo.as_str());
    join_path(cache_root, n.as_str())
}

/// The URL a PR's repository is cloned from.
pub fn clone_url(pr: &PrRef) -> (u: String)
    ensures
        u@ == "https://github.com/"@ + pr.owner@ + "/"@ + pr.repo@ + ".git"@,
{
    let mut u = owned("https://github.com/");
    push_str(&mut u, pr.owner.as_str());
    push_str(&mut u, "/");
    push_str(&mut u, pr.repo.as_str());
    push_str(&mut u, ".git");
    u
}

/// The local ref a PR's head is fetched into: `refs/ws-dev-pr/<n>`.
pub fn pr_local_ref(pr: &PrRef) -> (r: String)
    ensures
        r@ == "refs/ws-dev-pr/"@ + decimal_text(pr.pr_number as nat),
{
    let mut r = owned("refs/ws-dev-pr/");
    push_str(&mut r, u64_text(pr.pr_number).as_str());
    r
}

/// The refspec that fetches a PR's head: `pull/<n>/head:refs/ws-dev-pr/<n>`.
pub fn pr_refspec(pr: &PrRef) -> (r: String)
    ensures
        r@ == "pull/"@ + decimal_text(pr.pr_number as nat) + "/head:"@ + "refs/ws-dev-pr/"@
            + decimal_text(pr.pr_number as nat),
{
    let mut r = owned("pull/");
    push_str(&mut r, u64_text(pr.pr_number).as_str());
    push_str(&mut r, "/head:");
    push_str(&mut r, pr_local_ref(pr).as_str());
    r
}

/// The commit a checkout is at: `git rev-parse HEAD` trimmed, `None` when
/// the command failed or printed nothing.
pub fn git_sha_of(stdout: &Option<String>) -> (sha: Option<String>)
    ensures
        match *stdout {
            Some(out) => if trim(out@).len() > 0 {
                sha matches Some(s) && s@ == trim(out@)
            } else {
                sha is None
            },
            None => sha is None,
        },
{
    match stdout {
        Some(out) => {
            let t = str_trim(out.as_str());
            if t.len() > 0 {
                Some(chars_string(&t))
            } else {
                None
            }
        },
        None => None,
    }
}

/// Where the release build leaves the binary: `<checkout>/target/release/ws`.
pub fn built_binary_path(checkout: &str) -> (p: String)
    ensures
        p@ == path_join(path_join(path_join(checkout@, "target"@), "release"@), "ws"@),
{
    let a = join_path(checkout, "target");
    let b = join_path(a.as_str(), "release");
    join_path(b.as_str(), "ws")
}

/// The error when the build ran but left no binary.
pub fn build_missing(built: &str) -> (e: WorkspaceError)
    ensures
        e matches WorkspaceError::Other(m) && m@ == "Build completed but `"@ + built@
            + "` was not produced. The PR may rename the binary or the build failed."@,
{
    let mut m = owned("Build completed but `");
    push_str(&mut m, built);
    push_str(&mut m, "` was not produced. The PR may rename the binary or the build failed.");
    WorkspaceError::Other(m)
}

/// The error when a program could not be started.
pub fn spawn_failed(program: &str, err: &str) -> (e: WorkspaceError)
    ensures
        e matches WorkspaceError::Command(m) && m@ == "failed to run `"@ + program@ + "`: "@ + err@,
{
    let mut m = owned("failed to run `");
    push_str(&mut m, program);
    push_str(&mut m, "`: ");
    push_str(&mut m, err);
    WorkspaceError::Command(m)
}

/// `` `program args` failed in dir`` — the head of a failed command's error.
pub open spec fn failed_head(program: Seq<char>, args: Seq<Seq<char>>, dir: Seq<char>) -> Seq<char> {
    "`"@ + program + " "@ + joined(args, " "@) + "` failed in "@ + dir
}

fn failed_head_string(program: &str, args: &Vec<String>, dir: &str) -> (s: String)
    ensures
        s@ == failed_head(program@, views(args@), dir@),
{
    let mut m = owned("`");
    push_str(&mut m, program);
    push_str(&mut m, " ");
    push_str(&mut m, join_strings(args, " ").as_str());
    push_str(&mut m, "` failed in ");
    push_str(&mut m, dir);
    m
}

/// The error of a command run with inherited output that exited
/// unsuccessfully, with its exit code when it has one.
pub fn inherit_failed(program: &str, args: &Vec<String>, dir: &str, code: Option<i32>) -> (e: WorkspaceError)
    ensures
        e matches WorkspaceError::Command(m) && m@ == failed_head(program@, views(args@), dir@)
            + match code {
            Some(c) => " (exit "@ + i32_text(c) + ")"@,
            None => Seq::empty(),
        },
{
    let mut m = failed_head_string(program, args, dir);
    match code {
        Some(c) => {
            push_str(&mut m, " (exit ");
            push_str(&mut m, i32_string(c).as_str());
            push_str(&mut m, ")");
        },
        None => {
            assert(m@ =~= m@ + Seq::<char>::empty());
        },
    }
    WorkspaceError::Command(m)
}

/// The error of a captured command that exited unsuccessfully: the head,
/// then its trimmed stdout and stderr when they are not empty.
pub fn capture_failed(program: &str, args: &Vec<String>, dir: &str, stdout: &str, stderr: &str) -> (e: WorkspaceError)
    ensures
        e matches WorkspaceError::Command(m) && m@ == failed_head(program@, views(args@), dir@)
            + (if trim(stdout@).len() == 0 {
            Seq::empty()
        } else {
            "\nstdout:\n"@ + trim(stdout@)
        }) + (if trim(stderr@).len() == 0 {
            Seq::empty()
        } else {
            "\nstderr:\n"@ + trim(stderr@)
        }),
{
    let mut m = failed_head_string(program, args, dir);
    let ghost head = m@;
    let o = str_trim(stdout);
    if o.len() > 0 {
        push_str(&mut m, "\nstdout:\n");
        push_chars(&mut m, &o);
    } else {
        assert(m@ =~= head + Seq::<char>::empty());
    }
    let ghost mid = m@;
    let r = str_trim(stderr);
    if r.len() > 0 {
        push_str(&mut m, "\nstderr:\n");
        push_chars(&mut m, &r);
    } else {
        assert(m@ =~= mid + Seq::<char>::empty());
    }
    WorkspaceError::Command(m)
}

/// Records a fresh install: any earlier record for the same PR and name is
/// dropped, then the new record is appended.
pub fn record_install(reg: &mut DevRegistry, install: DevInstall)
    ensures
        final(reg).installs@ == without_install(
            old(reg).installs@,
            install.owner@,
            install.repo@,
            install.pr_number,
            install.name@,
        ).push(install),
{
    let ghost orig = reg.installs@;
    let mut rest: Vec<DevInstall> = Vec::new();
    std::mem::swap(&mut rest, &mut reg.installs);
    let mut kept: Vec<DevInstall> = Vec::new();
    let mut i: usize = 0;
    let total = rest.len();
    while rest.len() > 0
        invariant
            i + rest@.len() == total,
            total == orig.len(),
            rest@ == orig.skip(i as int),
            kept@ == without_install(
                orig.take(i as int),
                install.owner@,
                install.repo@,
                install.pr_number,
                install.name@,
            ),
        decreases rest.len(),
    {
        let e = rest.remove(0);
        assert(orig.take(i + 1).drop_last() =~= orig.take(i as int));
        assert(orig.take(i + 1).last() == e);
        assert(rest@ =~= orig.skip(i + 1));
        if !(is_of_pr(&e, &install.owner, &install.repo, install.pr_number)
            && e.name == install.name) {
            kept.push(e);
        }
        i += 1;
    }
    assert(orig.take(i as int) =~= orig);
    kept.push(install);
    reg.installs = kept;
}

/// Removes every record of the PR from the registry and returns them:
/// different spellings of one PR's URL collapse to one uninstall.
pub fn uninstall_records(reg: &mut DevRegistry, pr: &PrRef) -> (out: DevUninstallOutput)
    ensures
        out.removed@ == pr_records(old(reg).installs@, pr.owner@, pr.repo@, pr.pr_number),
        final(reg).installs@ == other_records(old(reg).installs@, pr.owner@, pr.repo@, pr.pr_number),
{
    let ghost orig = reg.installs@;
    let mut rest: Vec<DevInstall> = Vec::new();
    std::mem::swap(&mut rest, &mut reg.installs);
    let mut kept: Vec<DevInstall> = Vec::new();
    let mut removed: Vec<DevInstall> = Vec::new();
    let mut i: usize = 0;
    let total = rest.len();
    while rest.len() > 0
        invariant
            i + rest@.len() == total,
            total == orig.len(),
            rest@ == orig.skip(i as int),
            kept@ == other_records(orig.take(i as int), pr.owner@, pr.repo@, pr.pr_number),
            removed@ == pr_records(orig.take(i as int), pr.owner@, pr.repo@, pr.pr_number),
        decreases rest.len(),
    {
        let e = rest.remove(0);
        assert(orig.take(i + 1).drop_last() =~= orig.take(i as int));
        assert(orig.take(i + 1).last() == e);
        assert(rest@ =~= orig.skip(i + 1));
        if is_of_pr(&e, &pr.owner, &pr.repo, pr.pr_number) {
            removed.push(e);
        } else {
            kept.push(e);
        }
        i += 1;
    }
    assert(orig.take(i as int) =~= orig);
    reg.installs = kept;
    DevUninstallOutput { removed }
}

/// Removes every record and returns them.
pub fn purge_records(reg: &mut DevRegistry) -> (out: DevPurgeOutput)
    ensures
        out.removed@ == old(reg).installs@,
        final(reg).installs@.len() == 0,
{
    let mut removed: Vec<DevInstall> = Vec::new();
    std::mem::swap(&mut removed, &mut reg.installs);
    DevPurgeOutput { removed }
}

/// Uninstalling partitions the registry: the records removed are exactly
/// those of the PR, the records kept are exactly the others, and together
/// they account for every record.
pub proof fn lemma_uninstall_partition(es: Seq<DevInstall>, owner: Seq<char>, repo: Seq<char>, n: u64)
    ensures
        pr_records(es, owner, repo, n).len() + other_records(es, owner, repo, n).len() == es.len(),
        forall|i: int|
            0 <= i < pr_records(es, owner, repo, n).len() ==> of_pr(
                #[trigger] pr_records(es, owner, repo, n)[i],
                owner,
                repo,
                n,
            ),
        forall|i: int|
            0 <= i < other_records(es, owner, repo, n).len() ==> !of_pr(
                #[trigger] other_records(es, owner, repo, n)[i],
                owner,
                repo,
                n,
            ),
    decreases es.len(),
{
    if es.len() > 0 {
        lemma_uninstall_partition(es.drop_last(), owner, repo, n);
    }
}

/// After a fresh install the registry holds exactly one record for that
/// PR and name, the new one, at the end.
pub proof fn lemma_record_install_unique(es: Seq<DevInstall>, install: DevInstall)
    ensures
        ({
            let r = without_install(
                es,
                install.owner@,
                install.repo@,
                install.pr_number,
                install.name@,
            ).push(install);
            &&& r.last() == install
            &&& forall|i: int|
                0 <= i < r.len() - 1 ==> !(of_pr(
                    #[trigger] r[i],
                    install.owner@,
                    install.repo@,
                    install.pr_number,
                ) && r[i].name@ == install.name@)
        }),
{
    lemma_without_install(es, install.owner@, install.repo@, install.pr_number, install.name@);
}

proof fn lemma_without_install(
    es: Seq<DevInstall>,
    owner: Seq<char>,
    repo: Seq<char>,
    n: u64,
    name: Seq<char>,
)
    ensures
        forall|i: int|
            0 <= i < without_install(es, owner, repo, n, name).len() ==> !(of_pr(
                #[trigger] without_install(es, owner, repo, n, name)[i],
                owner,
                repo,
                n,
            ) && without_install(es, owner, repo, n, name)[i].name@ == name),
    decreases es.len(),
{
    if es.len() > 0 {
        lemma_without_install(es.drop_last(), owner, repo, n, name);
    }
}

} // verus!
