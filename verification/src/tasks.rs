//! `ws tasks`: the rows of open feature workspaces and task slices, how a
//! row is printed, and how a token picks rows.
//!
//! Token matching is a superset of workspace lookup: it also understands
//! 1-based list indices and task rows. Buckets are tried in order (index,
//! exact id, exact ticket, exact folder, folder prefix, task slug/key/full,
//! description word) and the first non-empty one wins.
use vstd::prelude::*;
use crate::error::WorkspaceError;
use crate::text::{
    alnum, char_is_alphanumeric, chars_string, contains_chars, contains_seq, decimal_text,
    decimal_value, joined, owned, parse_usize, path_join, push_str, slice_chars, starts_with,
    str_chars, str_eq, str_to_lowercase, str_trim, trim, u64_text, unicode_str_lower, views,
    join_path, concat, chars_starts_with,
};
use crate::workspaces::{get_workspace_dir, WorkspaceOnDisk};
use crate::lifecycle::{opt_view, RepoStatus, TaskStatusOutput};
use crate::models::{find_key, lookup};
use crate::text::{sorted_unique, strictly_sorted};

verus! {

/// One repo of a row: service, checked-out branch, uncommitted changes.
pub struct RowBranch {
    pub service: String,
    pub branch: String,
    pub dirty: bool,
}

/// A row of `ws tasks`: a workspace, or one of its task slices.
pub struct TaskRow {
    pub folder: String,
    pub id: String,
    pub ticket: Option<String>,
    pub description: String,
    /// `Some` for a task slice, `None` for the workspace itself.
    pub task_slug: Option<String>,
    pub task_key: Option<String>,
    pub repos: Vec<String>,
    pub branches: Vec<RowBranch>,
    /// Seconds since `workspace.yaml` last changed: `None` when unknown,
    /// `Some(None)` when the modification time lies in the future.
    pub age: Option<Option<u64>>,
}

// ==========================================
// Text helpers
// ==========================================

/// `s` cut to `max` characters, the cut marked by `...`.
pub open spec fn truncated(s: Seq<char>, max: nat) -> Seq<char> {
    if s.len() <= max {
        s
    } else {
        s.take(if max >= 3 { max - 3 } else { 0 }) + "..."@
    }
}

/// `s` when it has at most `max` characters; else its first `max - 3`
/// (saturating) characters followed by `...`.
pub fn truncate(s: &str, max: usize) -> (r: String)
    ensures
        r@ == truncated(s@, max as nat),
{
    let v = str_chars(s);
    if v.len() <= max {
        owned(s)
    } else {
        let keep = if max >= 3 { max - 3 } else { 0 };
        let head = slice_chars(&v, 0, keep);
        let mut r = chars_string(&head);
        push_str(&mut r, "...");
        assert(head@ =~= s@.take(keep as int));
        r
    }
}

/// How long ago, coarsely: seconds, minutes, hours or days; `now` when the
/// time lies in the future.
pub open spec fn age_text(elapsed: Option<u64>) -> Seq<char> {
    match elapsed {
        None => "now"@,
        Some(secs) => if secs < 60 {
            decimal_text(secs as nat) + "s"@
        } else if secs < 3600 {
            decimal_text((secs / 60) as nat) + "m"@
        } else if secs < 86400 {
            decimal_text((secs / 3600) as nat) + "h"@
        } else {
            decimal_text((secs / 86400) as nat) + "d"@
        },
    }
}

/// Formats an age; `elapsed` is `None` when the modification time lies
/// after the current time.
pub fn fmt_age(elapsed: Option<u64>) -> (r: String)
    ensures
        r@ == age_text(elapsed),
{
    match elapsed {
        None => owned("now"),
        Some(secs) => {
            let (n, unit) = if secs < 60 {
                (secs, "s")
            } else if secs < 3600 {
                (secs / 60, "m")
            } else if secs < 86400 {
                (secs / 3600, "h")
            } else {
                (secs / 86400, "d")
            };
            let mut r = u64_text(n);
            push_str(&mut r, unit);
            r
        },
    }
}

/// A commit id cut to its first 8 characters.
pub open spec fn short_sha(s: Seq<char>) -> Seq<char> {
    if s.len() > 8 {
        s.take(8)
    } else {
        s
    }
}

pub fn shorten_sha(s: &str) -> (r: String)
    ensures
        r@ == short_sha(s@),
{
    let v = str_chars(s);
    if v.len() > 8 {
        let head = slice_chars(&v, 0, 8);
        assert(head@ =~= s@.take(8));
        chars_string(&head)
    } else {
        owned(s)
    }
}

// ==========================================
// Row lines
// ==========================================

pub open spec fn branch_text(b: RowBranch) -> Seq<char> {
    b.service@ + ":"@ + b.branch@ + if b.dirty { "*"@ } else { Seq::empty() }
}

pub open spec fn branch_texts(bs: Seq<RowBranch>) -> Seq<Seq<char>> {
    bs.map_values(|b: RowBranch| branch_text(b))
}

/// The token naming a row: `id`, or `id/slug (task key)` for a task row.
pub open spec fn row_token(r: TaskRow) -> Seq<char> {
    match (r.task_slug, r.task_key) {
        (Some(s), Some(k)) => r.id@ + "/"@ + s@ + " (task "@ + k@ + ")"@,
        _ => r.id@,
    }
}

pub open spec fn ticket_text(t: Option<String>) -> Seq<char> {
    match t {
        Some(x) => x@,
        None => "unticketed"@,
    }
}

pub open spec fn row_age_text(a: Option<Option<u64>>) -> Seq<char> {
    match a {
        Some(e) => age_text(e),
        None => "?"@,
    }
}

/// `token | ticket | service:branch[*],... | description | age`, prefixed by
/// `[index] ` when an index is given.
pub open spec fn row_text(r: TaskRow, index: Option<usize>) -> Seq<char> {
    let body = row_token(r) + " | "@ + ticket_text(r.ticket) + " | "@ + joined(
        branch_texts(r.branches@),
        ","@,
    ) + " | "@ + truncated(r.description@, 44) + " | "@ + row_age_text(r.age);
    match index {
        Some(i) => "["@ + decimal_text(i as nat) + "] "@ + body,
        None => body,
    }
}

fn branch_string(b: &RowBranch) -> (s: String)
    ensures
        s@ == branch_text(*b),
{
    let mut s = b.service.clone();
    push_str(&mut s, ":");
    push_str(&mut s, b.branch.as_str());
    if b.dirty {
        push_str(&mut s, "*");
    } else {
        assert(s@ =~= s@ + Seq::<char>::empty());
    }
    s
}

pub fn row_line(r: &TaskRow, index: Option<usize>) -> (line: String)
    ensures
        line@ == row_text(*r, index),
{
    let token = match (&r.task_slug, &r.task_key) {
        (Some(s), Some(k)) => {
            let mut t = r.id.clone();
            push_str(&mut t, "/");
            push_str(&mut t, s.as_str());
            push_str(&mut t, " (task ");
            push_str(&mut t, k.as_str());
            push_str(&mut t, ")");
            t
        },
        _ => r.id.clone(),
    };
    let mut parts: Vec<String> = Vec::new();
    let mut k: usize = 0;
    while k < r.branches.len()
        invariant
            k <= r.branches.len(),
            views(parts@) == branch_texts(r.branches@).take(k as int),
        decreases r.branches.len() - k,
    {
        let b = branch_string(&r.branches[k]);
        let ghost before = views(parts@);
        parts.push(b);
        assert(views(parts@) =~= before.push(b@));
        assert(branch_texts(r.branches@).take(k + 1) =~= branch_texts(r.branches@).take(
            k as int,
        ).push(branch_text(r.branches@[k as int])));
        k += 1;
    }
    assert(branch_texts(r.branches@).take(r.branches.len() as int) =~= branch_texts(
        r.branches@,
    ));
    let repos = crate::text::join_strings(&parts, ",");
    let mut body = token;
    push_str(&mut body, " | ");
    match &r.ticket {
        Some(t) => push_str(&mut body, t.as_str()),
        None => push_str(&mut body, "unticketed"),
    }
    push_str(&mut body, " | ");
    push_str(&mut body, repos.as_str());
    push_str(&mut body, " | ");
    push_str(&mut body, truncate(r.description.as_str(), 44).as_str());
    push_str(&mut body, " | ");
    match r.age {
        Some(e) => push_str(&mut body, fmt_age(e).as_str()),
        None => push_str(&mut body, "?"),
    }
    match index {
        Some(i) => {
            let mut line = owned("[");
            push_str(&mut line, u64_text(i as u64).as_str());
            push_str(&mut line, "] ");
            push_str(&mut line, body.as_str());
            line
        },
        None => body,
    }
}

// ==========================================
// Token matching
// ==========================================

pub open spec fn all_alnum(t: Seq<char>) -> bool {
    forall|i: int| 0 <= i < t.len() ==> alnum(#[trigger] t[i])
}

/// The trimmed token occurs inside one alphanumeric word of the lowercased
/// description. (Words are the maximal runs of alphanumeric characters, so
/// this holds exactly when the token is alphanumeric throughout and occurs
/// in the lowercased description.)
pub open spec fn desc_match(desc: Seq<char>, token_lc: Seq<char>) -> bool {
    let t = trim(token_lc);
    t.len() > 0 && all_alnum(t) && contains_seq(unicode_str_lower(desc), t)
}

/// Whether the description has a word containing the (lowercase) token.
pub fn desc_matches(desc: &str, token_lc: &str) -> (res: bool)
    ensures
        res == desc_match(desc@, token_lc@),
{
    let t = str_trim(token_lc);
    if t.len() == 0 {
        return false;
    }
    let mut i: usize = 0;
    while i < t.len()
        invariant
            t@ == trim(token_lc@),
            i <= t.len(),
            forall|k: int| 0 <= k < i ==> alnum(#[trigger] t@[k]),
        decreases t.len() - i,
    {
        if !char_is_alphanumeric(t[i]) {
            assert(!alnum(t@[i as int]));
            return false;
        }
        i += 1;
    }
    let lower = str_to_lowercase(desc);
    let lv = str_chars(lower.as_str());
    contains_chars(&lv, &t)
}

/// A workspace row (not a task slice).
pub open spec fn is_ws_row(r: TaskRow) -> bool {
    r.task_slug is None
}

/// Whether row `r` belongs to bucket `k` for the trimmed token `t`.
pub open spec fn in_bucket(r: TaskRow, t: Seq<char>, k: int) -> bool {
    if k == 1 {
        is_ws_row(r) && r.id@ == t
    } else if k == 2 {
        is_ws_row(r) && (r.ticket matches Some(x) && x@ == t)
    } else if k == 3 {
        is_ws_row(r) && r.folder@ == t
    } else if k == 4 {
        is_ws_row(r) && starts_with(r.folder@, t + "-"@)
    } else if k == 5 {
        r.task_slug matches Some(s) && (s@ == t || (r.task_key matches Some(kk) && kk@ == t)
            || r.id@ + "/"@ + s@ == t)
    } else {
        is_ws_row(r) && desc_match(r.description@, unicode_str_lower(t))
    }
}

/// The indices of the first `n` rows in bucket `k`, ascending.
pub open spec fn bucket(rows: Seq<TaskRow>, t: Seq<char>, k: int, n: int) -> Seq<usize>
    decreases n,
{
    if n <= 0 {
        Seq::empty()
    } else if in_bucket(rows[n - 1], t, k) {
        bucket(rows, t, k, n - 1).push((n - 1) as usize)
    } else {
        bucket(rows, t, k, n - 1)
    }
}

/// The first non-empty bucket from `k` on, if any.
pub open spec fn first_bucket(rows: Seq<TaskRow>, t: Seq<char>, k: int) -> Option<Seq<usize>>
    decreases 7 - k,
{
    if k > 6 || k < 1 {
        None
    } else if bucket(rows, t, k, rows.len() as int).len() > 0 {
        Some(bucket(rows, t, k, rows.len() as int))
    } else {
        first_bucket(rows, t, k + 1)
    }
}

/// What a token selects: `Ok` with row indices, or the error's message
/// (`true` for a validation error, `false` for not-found).
pub open spec fn token_matches(rows: Seq<TaskRow>, token: Seq<char>) -> Result<
    Seq<usize>,
    (bool, Seq<char>),
> {
    let t = trim(token);
    if t.len() == 0 {
        Err((true, "Empty ws tasks token."@))
    } else if decimal_value(t) is Some && 1 <= decimal_value(t)->0 <= rows.len() {
        Ok(seq![(decimal_value(t)->0 - 1) as usize])
    } else {
        match first_bucket(rows, t, 1) {
            Some(b) => Ok(b),
            None => Err(
                (false, "Nothing matches '"@ + t + "' — list open tasks with `ws tasks`."@),
            ),
        }
    }
}

proof fn lemma_bucket_ordered(rows: Seq<TaskRow>, t: Seq<char>, k: int, n: int)
    requires
        n <= usize::MAX + 1,
    ensures
        forall|i: int|
            0 <= i < bucket(rows, t, k, n).len() ==> (#[trigger] bucket(rows, t, k, n)[i]) < n
                && in_bucket(rows[bucket(rows, t, k, n)[i] as int], t, k),
        forall|i: int, j: int|
            0 <= i < j < bucket(rows, t, k, n).len() ==> #[trigger] bucket(rows, t, k, n)[i]
                < #[trigger] bucket(rows, t, k, n)[j],
    decreases n,
{
    if n > 0 {
        lemma_bucket_ordered(rows, t, k, n - 1);
        let prev = bucket(rows, t, k, n - 1);
        let b = bucket(rows, t, k, n);
        if in_bucket(rows[n - 1], t, k) {
            assert(b == prev.push((n - 1) as usize));
            assert forall|i: int| 0 <= i < b.len() implies (#[trigger] b[i]) < n && in_bucket(
                rows[b[i] as int],
                t,
                k,
            ) by {
                if i < prev.len() {
                    assert(b[i] == prev[i]);
                }
            }
            assert forall|i: int, j: int| 0 <= i < j < b.len() implies #[trigger] b[i]
                < #[trigger] b[j] by {
                assert(b[i] == prev[i]);
                if j < prev.len() {
                    assert(b[j] == prev[j]);
                }
            }
        } else {
            assert(b == prev);
        }
    }
}

proof fn lemma_first_bucket_ordered(rows: Seq<TaskRow>, t: Seq<char>, k: int)
    requires
        rows.len() <= usize::MAX,
    ensures
        first_bucket(rows, t, k) matches Some(b) ==> {
            &&& b.len() > 0
            &&& forall|i: int| 0 <= i < b.len() ==> #[trigger] b[i] < rows.len()
            &&& forall|i: int, j: int| 0 <= i < j < b.len() ==> #[trigger] b[i] < #[trigger] b[j]
        },
    decreases 7 - k,
{
    if 1 <= k <= 6 {
        lemma_bucket_ordered(rows, t, k, rows.len() as int);
        lemma_first_bucket_ordered(rows, t, k + 1);
    }
}

/// What a `ws tasks` token selects is never empty, lists rows in ascending
/// order without repeats, and names only rows that exist.
pub proof fn lemma_selection_ordered(rows: Seq<TaskRow>, token: Seq<char>)
    requires
        rows.len() <= usize::MAX,
    ensures
        token_matches(rows, token) matches Ok(v) ==> {
            &&& v.len() > 0
            &&& forall|i: int| 0 <= i < v.len() ==> #[trigger] v[i] < rows.len()
            &&& forall|i: int, j: int| 0 <= i < j < v.len() ==> #[trigger] v[i] < #[trigger] v[j]
        },
{
    lemma_first_bucket_ordered(rows, trim(token), 1);
}

proof fn lemma_bucket_empty(rows: Seq<TaskRow>, t: Seq<char>, k: int, n: int)
    requires
        n <= rows.len(),
        forall|j: int| 0 <= j < rows.len() ==> !in_bucket(#[trigger] rows[j], t, k),
    ensures
        bucket(rows, t, k, n).len() == 0,
    decreases n,
{
    if n > 0 {
        lemma_bucket_empty(rows, t, k, n - 1);
    }
}

proof fn lemma_bucket_has(rows: Seq<TaskRow>, t: Seq<char>, k: int, n: int, i: int)
    requires
        0 <= i < n <= rows.len(),
        rows.len() <= usize::MAX,
        in_bucket(rows[i], t, k),
    ensures
        bucket(rows, t, k, n).contains(i as usize),
    decreases n,
{
    let b = bucket(rows, t, k, n);
    if i == n - 1 {
        assert(b.last() == i as usize);
    } else {
        lemma_bucket_has(rows, t, k, n - 1, i);
        let r = bucket(rows, t, k, n - 1);
        let m = choose|m: int| 0 <= m < r.len() && r[m] == i as usize;
        if in_bucket(rows[n - 1], t, k) {
            assert(b[m] == r[m]);
        }
    }
}

/// Searching descriptions ignores letter case: when a token is neither a row
/// number nor an id, ticket, folder, folder prefix or task of any row, it
/// selects every workspace row whose lower-cased description contains the
/// lower-cased token (an alphanumeric word).
pub proof fn lemma_description_search_ignores_case(rows: Seq<TaskRow>, token: Seq<char>, i: int)
    requires
        rows.len() <= usize::MAX,
        0 <= i < rows.len(),
        rows[i].task_slug is None,
        ({
            let t = trim(token);
            let w = trim(unicode_str_lower(t));
            &&& t.len() > 0
            &&& !(decimal_value(t) is Some && 1 <= decimal_value(t)->0 <= rows.len())
            &&& w.len() > 0
            &&& all_alnum(w)
            &&& contains_seq(unicode_str_lower(rows[i].description@), w)
            &&& forall|j: int, k: int|
                0 <= j < rows.len() && 1 <= k <= 5 ==> !#[trigger] in_bucket(rows[j], t, k)
        }),
    ensures
        token_matches(rows, token) matches Ok(v) && v.contains(i as usize),
{
    let t = trim(token);
    let n = rows.len() as int;
    assert forall|k: int| 1 <= k <= 5 implies #[trigger] bucket(rows, t, k, n).len() == 0 by {
        assert forall|j: int| 0 <= j < rows.len() implies !in_bucket(#[trigger] rows[j], t, k) by {
            assert(!in_bucket(rows[j], t, k));
        }
        lemma_bucket_empty(rows, t, k, n);
    }
    assert(in_bucket(rows[i], t, 6));
    lemma_bucket_has(rows, t, 6, n, i);
    assert(bucket(rows, t, 6, n).len() > 0);
    assert(first_bucket(rows, t, 6) == Some(bucket(rows, t, 6, n)));
    assert(bucket(rows, t, 5, n).len() == 0);
    assert(first_bucket(rows, t, 5) == first_bucket(rows, t, 6));
    assert(bucket(rows, t, 4, n).len() == 0);
    assert(first_bucket(rows, t, 4) == first_bucket(rows, t, 5));
    assert(bucket(rows, t, 3, n).len() == 0);
    assert(first_bucket(rows, t, 3) == first_bucket(rows, t, 4));
    assert(bucket(rows, t, 2, n).len() == 0);
    assert(first_bucket(rows, t, 2) == first_bucket(rows, t, 3));
    assert(bucket(rows, t, 1, n).len() == 0);
    assert(first_bucket(rows, t, 1) == first_bucket(rows, t, 2));
}

fn row_in_bucket(r: &TaskRow, t: &str, t_lc: &str, k: u8) -> (res: bool)
    requires
        1 <= k <= 6,
        t_lc@ == unicode_str_lower(t@),
    ensures
        res == in_bucket(*r, t@, k as int),
{
    let ws_row = r.task_slug.is_none();
    if k == 1 {
        ws_row && str_eq(r.id.as_str(), t)
    } else if k == 2 {
        ws_row && match &r.ticket {
            Some(x) => str_eq(x.as_str(), t),
            None => false,
        }
    } else if k == 3 {
        ws_row && str_eq(r.folder.as_str(), t)
    } else if k == 4 {
        if !ws_row {
            return false;
        }
        let p = concat(t, "-");
        let fv = str_chars(r.folder.as_str());
        let pv = str_chars(p.as_str());
        chars_starts_with(&fv, &pv)
    } else if k == 5 {
        match &r.task_slug {
            Some(s) => {
                let key_hit = match &r.task_key {
                    Some(kk) => str_eq(kk.as_str(), t),
                    None => false,
                };
                let mut full = r.id.clone();
                push_str(&mut full, "/");
                push_str(&mut full, s.as_str());
                str_eq(s.as_str(), t) || key_hit || str_eq(full.as_str(), t)
            },
            None => false,
        }
    } else {
        ws_row && desc_matches(r.description.as_str(), t_lc)
    }
}

fn collect_bucket(rows: &Vec<TaskRow>, t: &str, t_lc: &str, k: u8) -> (b: Vec<usize>)
    requires
        1 <= k <= 6,
        t_lc@ == unicode_str_lower(t@),
    ensures
        b@ == bucket(rows@, t@, k as int, rows@.len() as int),
{
    let mut b: Vec<usize> = Vec::new();
    let mut i: usize = 0;
    while i < rows.len()
        invariant
            1 <= k <= 6,
            t_lc@ == unicode_str_lower(t@),
            i <= rows.len(),
            b@ == bucket(rows@, t@, k as int, i as int),
        decreases rows.len() - i,
    {
        if row_in_bucket(&rows[i], t, t_lc, k) {
            b.push(i);
        }
        i += 1;
    }
    b
}

/// The rows a `ws tasks` token selects (see [`token_matches`]).
pub fn match_rows(rows: &Vec<TaskRow>, token: &str) -> (res: Result<Vec<usize>, WorkspaceError>)
    ensures
        match (res, token_matches(rows@, token@)) {
            (Ok(v), Ok(want)) => v@ == want,
            (Err(WorkspaceError::Validation(m)), Err((true, want))) => m@ == want,
            (Err(WorkspaceError::NotFound(m)), Err((false, want))) => m@ == want,
            _ => false,
        },
{
    let tv = str_trim(token);
    if tv.len() == 0 {
        return Err(WorkspaceError::Validation(owned("Empty ws tasks token.")));
    }
    let t = chars_string(&tv);
    let parsed = parse_usize(t.as_str());
    match parsed {
        Some(n) => {
            if n >= 1 && n <= rows.len() {
                let v = vec![n - 1];
                assert(v@ =~= seq![(n - 1) as usize]);
                return Ok(v);
            }
        },
        None => {},
    }
    let len = rows.len();
    proof {
        if decimal_value(t@) is Some {
            let dv = decimal_value(t@)->0;
            if dv <= usize::MAX {
                assert(parsed == Some(dv as usize));
            } else {
                assert(dv > len);
            }
        }
    }
    let t_lc = str_to_lowercase(t.as_str());
    let mut k: u8 = 1;
    while k <= 6
        invariant
            1 <= k <= 7,
            t@ == trim(token@),
            t@.len() > 0,
            !(decimal_value(t@) is Some && 1 <= decimal_value(t@)->0 <= rows@.len()),
            t_lc@ == unicode_str_lower(t@),
            first_bucket(rows@, t@, 1) == first_bucket(rows@, t@, k as int),
        decreases 7 - k,
    {
        let b = collect_bucket(rows, t.as_str(), t_lc.as_str(), k);
        if b.len() > 0 {
            return Ok(b);
        }
        k += 1;
    }
    let mut m = owned("Nothing matches '");
    push_str(&mut m, t.as_str());
    push_str(&mut m, "' — list open tasks with `ws tasks`.");
    Err(WorkspaceError::NotFound(m))
}

/// The directory `ws tasks open` prints for a row: `tasks/<slug>/<first repo>`
/// for a task row, `repos/<first repo>` for a workspace row, or the workspace
/// folder itself when it has no repo.
pub open spec fn open_path(root: Seq<char>, r: TaskRow) -> Seq<char> {
    let dir = path_join(path_join(root, "workspaces"@), r.folder@);
    match r.task_slug {
        Some(s) => path_join(
            path_join(path_join(dir, "tasks"@), s@),
            if r.repos@.len() > 0 { r.repos@[0]@ } else { Seq::empty() },
        ),
        None => if r.repos@.len() > 0 {
            path_join(path_join(dir, "repos"@), r.repos@[0]@)
        } else {
            dir
        },
    }
}

pub fn open_workspace_path(root: &str, row: &TaskRow) -> (p: String)
    ensures
        p@ == open_path(root@, *row),
{
    let dir = get_workspace_dir(root, row.folder.as_str());
    match &row.task_slug {
        Some(slug) => {
            let first = if row.repos.len() > 0 { row.repos[0].clone() } else { String::new() };
            let a = join_path(dir.as_str(), "tasks");
            let b = join_path(a.as_str(), slug.as_str());
            join_path(b.as_str(), first.as_str())
        },
        None => {
            if row.repos.len() > 0 {
                let a = join_path(dir.as_str(), "repos");
                join_path(a.as_str(), row.repos[0].as_str())
            } else {
                dir
            }
        },
    }
}

// ==========================================
// Building the rows
// ==========================================

/// What `ws tasks` knows of one workspace: the workspace, the status of its
/// main worktrees and of its task slices, and its age.
pub struct WorkspaceRows {
    pub entry: WorkspaceOnDisk,
    pub repo_statuses: Vec<(String, RepoStatus)>,
    pub task_statuses: Vec<TaskStatusOutput>,
    pub age: Option<Option<u64>>,
}

pub open spec fn branch_view(b: RowBranch) -> (Seq<char>, Seq<char>, bool) {
    (b.service@, b.branch@, b.dirty)
}

/// A main worktree's row branch: its status's branch and changes, or `?`
/// and clean when it has no status.
pub open spec fn main_branch(statuses: Seq<(String, RepoStatus)>, svc: Seq<char>) -> (
    Seq<char>,
    Seq<char>,
    bool,
) {
    match lookup(statuses, svc) {
        Some(r) => (svc, r.branch@, r.has_changes),
        None => (svc, "?"@, false),
    }
}

/// The fields every row of a workspace shares.
pub open spec fn same_workspace(r: TaskRow, e: WorkspaceRows) -> bool {
    &&& r.folder@ == e.entry.folder@
    &&& r.id@ == e.entry.ws.id@
    &&& opt_view(r.ticket) == opt_view(e.entry.ws.ticket)
    &&& r.description@ == e.entry.ws.description@
    &&& r.age == e.age
}

/// The workspace row: its services as repos, each with its branch.
pub open spec fn is_workspace_row(r: TaskRow, e: WorkspaceRows) -> bool {
    &&& same_workspace(r, e)
    &&& r.task_slug is None
    &&& r.task_key is None
    &&& views(r.repos@) == views(e.entry.ws.services@)
    &&& r.branches@.map_values(|b: RowBranch| branch_view(b)) == views(
        e.entry.ws.services@,
    ).map_values(|s: Seq<char>| main_branch(e.repo_statuses@, s))
}

/// A task row: slug and key, its repos in ascending order, and one branch
/// per task worktree status.
pub open spec fn is_task_row(r: TaskRow, e: WorkspaceRows, t: TaskStatusOutput) -> bool {
    &&& same_workspace(r, e)
    &&& opt_view(r.task_slug) == Some(t.slug@)
    &&& opt_view(r.task_key) == Some(t.key@)
    &&& strictly_sorted(views(r.repos@))
    &&& forall|x: Seq<char>| #[trigger] views(r.repos@).contains(x) <==> t.repo_statuses@.map_values(
        |p: (String, RepoStatus)| p.0@,
    ).contains(x)
    &&& r.branches@.map_values(|b: RowBranch| branch_view(b)) == t.repo_statuses@.map_values(
        |p: (String, RepoStatus)| (p.0@, p.1.branch@, p.1.has_changes),
    )
}

/// Where the rows of the `i`-th workspace start.
pub open spec fn row_offset(entries: Seq<WorkspaceRows>, i: int) -> int
    decreases i,
{
    if i <= 0 {
        0
    } else {
        row_offset(entries, i - 1) + 1 + entries[i - 1].task_statuses@.len()
    }
}

fn copy_opt(o: &Option<String>) -> (c: Option<String>)
    ensures
        c == *o,
{
    match o {
        Some(x) => Some(x.clone()),
        None => None,
    }
}

fn copy_names(v: &Vec<String>) -> (r: Vec<String>)
    ensures
        r@ == v@,
{
    let mut r: Vec<String> = Vec::new();
    let mut k: usize = 0;
    while k < v.len()
        invariant
            k <= v.len(),
            r@ == v@.take(k as int),
        decreases v.len() - k,
    {
        r.push(v[k].clone());
        assert(r@ =~= v@.take(k + 1));
        k += 1;
    }
    assert(v@.take(v.len() as int) =~= v@);
    r
}

fn workspace_row(e: &WorkspaceRows) -> (r: TaskRow)
    ensures
        is_workspace_row(r, *e),
{
    let ws = &e.entry.ws;
    let mut branches: Vec<RowBranch> = Vec::new();
    let mut k: usize = 0;
    while k < ws.services.len()
        invariant
            k <= ws.services.len(),
            branches@.map_values(|b: RowBranch| branch_view(b)) == views(ws.services@).take(
                k as int,
            ).map_values(|s: Seq<char>| main_branch(e.repo_statuses@, s)),
        decreases ws.services.len() - k,
    {
        let svc = &ws.services[k];
        let b = match find_key(&e.repo_statuses, svc.as_str()) {
            Some(i) => RowBranch {
                service: svc.clone(),
                branch: e.repo_statuses[i].1.branch.clone(),
                dirty: e.repo_statuses[i].1.has_changes,
            },
            None => RowBranch { service: svc.clone(), branch: owned("?"), dirty: false },
        };
        let ghost before = branches@.map_values(|b: RowBranch| branch_view(b));
        branches.push(b);
        assert(branches@.map_values(|b: RowBranch| branch_view(b)) =~= before.push(branch_view(b)));
        assert(views(ws.services@).take(k + 1).map_values(
            |s: Seq<char>| main_branch(e.repo_statuses@, s),
        ) =~= views(ws.services@).take(k as int).map_values(
            |s: Seq<char>| main_branch(e.repo_statuses@, s),
        ).push(main_branch(e.repo_statuses@, svc@)));
        k += 1;
    }
    assert(views(ws.services@).take(ws.services.len() as int) =~= views(ws.services@));
    TaskRow {
        folder: e.entry.folder.clone(),
        id: ws.id.clone(),
        ticket: copy_opt(&ws.ticket),
        description: ws.description.clone(),
        task_slug: None,
        task_key: None,
        repos: copy_names(&ws.services),
        branches,
        age: e.age,
    }
}

fn task_row(e: &WorkspaceRows, t: &TaskStatusOutput) -> (r: TaskRow)
    ensures
        is_task_row(r, *e, *t),
{
    let ws = &e.entry.ws;
    let mut branches: Vec<RowBranch> = Vec::new();
    let mut names: Vec<String> = Vec::new();
    let mut k: usize = 0;
    while k < t.repo_statuses.len()
        invariant
            k <= t.repo_statuses.len(),
            branches@.map_values(|b: RowBranch| branch_view(b)) == t.repo_statuses@.take(
                k as int,
            ).map_values(|p: (String, RepoStatus)| (p.0@, p.1.branch@, p.1.has_changes)),
            views(names@) == t.repo_statuses@.take(k as int).map_values(
                |p: (String, RepoStatus)| p.0@,
            ),
        decreases t.repo_statuses.len() - k,
    {
        let p = &t.repo_statuses[k];
        let b = RowBranch { service: p.0.clone(), branch: p.1.branch.clone(), dirty: p.1.has_changes };
        let ghost before = branches@.map_values(|b: RowBranch| branch_view(b));
        let ghost nbefore = views(names@);
        branches.push(b);
        names.push(p.0.clone());
        assert(branches@.map_values(|b: RowBranch| branch_view(b)) =~= before.push(branch_view(b)));
        assert(views(names@) =~= nbefore.push(p.0@));
        assert(t.repo_statuses@.take(k + 1) =~= t.repo_statuses@.take(k as int).push(*p));
        k += 1;
    }
    assert(t.repo_statuses@.take(t.repo_statuses.len() as int) =~= t.repo_statuses@);
    let repos = sorted_unique(&names);
    TaskRow {
        folder: e.entry.folder.clone(),
        id: ws.id.clone(),
        ticket: copy_opt(&ws.ticket),
        description: ws.description.clone(),
        task_slug: Some(t.slug.clone()),
        task_key: Some(t.key.clone()),
        repos,
        branches,
        age: e.age,
    }
}

/// The rows of `ws tasks`: for each workspace in order, its own row and
/// then one row per task slice.
pub fn build_task_rows(entries: &Vec<WorkspaceRows>) -> (rows: Vec<TaskRow>)
    ensures
        rows@.len() == row_offset(entries@, entries@.len() as int),
        forall|i: int|
            0 <= i < entries@.len() ==> is_workspace_row(
                #[trigger] rows@[row_offset(entries@, i)],
                entries@[i],
            ),
        forall|i: int, k: int|
            0 <= i < entries@.len() && 0 <= k < entries@[i].task_statuses@.len() ==> is_task_row(
                #[trigger] rows@[row_offset(entries@, i) + 1 + k],
                entries@[i],
                entries@[i].task_statuses@[k],
            ),
{
    let mut rows: Vec<TaskRow> = Vec::new();
    let mut i: usize = 0;
    while i < entries.len()
        invariant
            i <= entries.len(),
            rows@.len() == row_offset(entries@, i as int),
            forall|a: int|
                0 <= a < i ==> is_workspace_row(
                    #[trigger] rows@[row_offset(entries@, a)],
                    entries@[a],
                ),
            forall|a: int, k: int|
                0 <= a < i && 0 <= k < entries@[a].task_statuses@.len() ==> is_task_row(
                    #[trigger] rows@[row_offset(entries@, a) + 1 + k],
                    entries@[a],
                    entries@[a].task_statuses@[k],
                ),
        decreases entries.len() - i,
    {
        let e = &entries[i];
        let ghost base = rows@;
        proof {
            lemma_row_offset_mono(entries@, i as int);
        }
        rows.push(workspace_row(e));
        let mut k: usize = 0;
        while k < e.task_statuses.len()
            invariant
                k <= e.task_statuses.len(),
                rows@.len() == base.len() + 1 + k,
                forall|q: int| 0 <= q < base.len() ==> rows@[q] == base[q],
                is_workspace_row(rows@[base.len() as int], *e),
                forall|q: int|
                    0 <= q < k ==> is_task_row(
                        #[trigger] rows@[base.len() + 1 + q],
                        *e,
                        e.task_statuses@[q],
                    ),
            decreases e.task_statuses.len() - k,
        {
            rows.push(task_row(e, &e.task_statuses[k]));
            k += 1;
        }
        proof {
            assert forall|a: int| 0 <= a < i + 1 implies is_workspace_row(
                #[trigger] rows@[row_offset(entries@, a)],
                entries@[a],
            ) by {
                if a < i {
                    lemma_row_offset_mono(entries@, a);
                    lemma_row_offset_le(entries@, a + 1, i as int);
                    assert(rows@[row_offset(entries@, a)] == base[row_offset(entries@, a)]);
                }
            }
            assert forall|a: int, q: int|
                0 <= a < i + 1 && 0 <= q < entries@[a].task_statuses@.len() implies is_task_row(
                #[trigger] rows@[row_offset(entries@, a) + 1 + q],
                entries@[a],
                entries@[a].task_statuses@[q],
            ) by {
                if a < i {
                    lemma_row_offset_mono(entries@, a);
                    assert(row_offset(entries@, a + 1) <= row_offset(entries@, i as int)) by {
                        lemma_row_offset_le(entries@, a + 1, i as int);
                    }
                    assert(rows@[row_offset(entries@, a) + 1 + q] == base[row_offset(entries@, a)
                        + 1 + q]);
                }
            }
        }
        i += 1;
    }
    rows
}

proof fn lemma_row_offset_mono(entries: Seq<WorkspaceRows>, i: int)
    requires
        0 <= i <= entries.len(),
    ensures
        0 <= row_offset(entries, i),
        i < entries.len() ==> row_offset(entries, i + 1) == row_offset(entries, i) + 1
            + entries[i].task_statuses@.len(),
    decreases i,
{
    if i > 0 {
        lemma_row_offset_mono(entries, i - 1);
    }
}

proof fn lemma_row_offset_le(entries: Seq<WorkspaceRows>, a: int, b: int)
    requires
        0 <= a <= b <= entries.len(),
    ensures
        row_offset(entries, a) <= row_offset(entries, b),
    decreases b - a,
{
    if a < b {
        lemma_row_offset_le(entries, a, b - 1);
        lemma_row_offset_mono(entries, b - 1);
    }
}

} // verus!
