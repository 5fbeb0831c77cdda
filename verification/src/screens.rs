//! What the CLI prints: the `ws status` overview and workspace report, the
//! `ws tasks` listing, candidate lists and the detail of one workspace. Each
//! function returns the lines to print, in order; the caller prints them.
use vstd::prelude::*;
use crate::error::WorkspaceError;
use crate::lifecycle::{RepoStatus, TaskStatusOutput, WorkspaceStatusOutput};
use crate::models::{LocalConfig, Workspace};
use crate::tasks::{
    age_text, fmt_age, row_age_text, row_line, row_text, short_sha, shorten_sha, ticket_text,
    truncate, truncated, TaskRow,
};
use crate::text::{decimal_text, owned, push_str, str_eq, u64_text, views};
use crate::workspaces::WorkspaceOnDisk;

verus! {

// ==========================================
// Line helpers
// ==========================================

fn push_line(out: &mut Vec<String>, s: String)
    ensures
        views(final(out)@) == views(old(out)@).push(s@),
{
    out.push(s);
    assert(views(out@) =~= views(old(out)@).push(s@));
}

fn extend_lines(out: &mut Vec<String>, more: Vec<String>)
    ensures
        views(final(out)@) == views(old(out)@) + views(more@),
{
    let ghost m0 = more@;
    let mut more = more;
    out.append(&mut more);
    assert(views(out@) =~= views(old(out)@) + views(m0));
}

fn text2(a: &str, b: &str) -> (s: String)
    ensures
        s@ == a@ + b@,
{
    let mut s = owned(a);
    push_str(&mut s, b);
    s
}

/// A text, or `default` when there is none.
pub open spec fn or_text(o: Option<String>, default: Seq<char>) -> Seq<char> {
    match o {
        Some(x) => x@,
        None => default,
    }
}

fn or_string(o: &Option<String>, default: &str) -> (s: String)
    ensures
        s@ == or_text(*o, default@),
{
    match o {
        Some(x) => x.clone(),
        None => owned(default),
    }
}

/// How a `bool` prints.
pub open spec fn bool_text(b: bool) -> Seq<char> {
    if b {
        "true"@
    } else {
        "false"@
    }
}

/// A commit count, or `n/a` without an upstream.
pub open spec fn count_text(n: Option<u64>) -> Seq<char> {
    match n {
        Some(k) => decimal_text(k as nat),
        None => "n/a"@,
    }
}

fn count_string(n: Option<u64>) -> (s: String)
    ensures
        s@ == count_text(n),
{
    match n {
        Some(k) => u64_text(k),
        None => owned("n/a"),
    }
}

// ==========================================
// ws status (no workspace given)
// ==========================================

/// The configuration section of `ws status`.
pub open spec fn config_status_text(c: LocalConfig) -> Seq<Seq<char>> {
    seq![
        "Configuration status:"@,
        "  Code provider: "@ + c.code_provider.provider_type@,
        "  Issue provider: "@ + c.issue_provider.provider_type@,
    ] + match c.doc_provider {
        Some(d) => seq!["  Doc provider:   "@ + d.provider_type@],
        None => Seq::empty(),
    } + seq!["  Default editor: "@ + c.editor.default@ + "\n"@]
}

pub fn config_status_lines(c: &LocalConfig) -> (out: Vec<String>)
    ensures
        views(out@) == config_status_text(*c),
{
    let mut out: Vec<String> = Vec::new();
    push_line(&mut out, owned("Configuration status:"));
    push_line(&mut out, text2("  Code provider: ", c.code_provider.provider_type.as_str()));
    push_line(&mut out, text2("  Issue provider: ", c.issue_provider.provider_type.as_str()));
    match &c.doc_provider {
        Some(d) => push_line(&mut out, text2("  Doc provider:   ", d.provider_type.as_str())),
        None => {},
    }
    let mut e = text2("  Default editor: ", c.editor.default.as_str());
    push_str(&mut e, "\n");
    push_line(&mut out, e);
    assert(views(out@) =~= config_status_text(*c));
    out
}

/// The catalog section of `ws status`: how many services, products and
/// teams are registered.
pub open spec fn catalog_status_text(services: nat, products: nat, teams: nat) -> Seq<Seq<char>> {
    seq![
        "Catalog database status:"@,
        "  Services: "@ + decimal_text(services) + " registered"@,
        "  Products: "@ + decimal_text(products) + " registered"@,
        "  Teams: "@ + decimal_text(teams) + " registered\n"@,
    ]
}

fn count_line(head: &str, n: usize, tail: &str) -> (s: String)
    ensures
        s@ == head@ + decimal_text(n as nat) + tail@,
{
    let mut s = owned(head);
    push_str(&mut s, u64_text(n as u64).as_str());
    push_str(&mut s, tail);
    s
}

pub fn catalog_status_lines(services: usize, products: usize, teams: usize) -> (out: Vec<String>)
    ensures
        views(out@) == catalog_status_text(services as nat, products as nat, teams as nat),
{
    let mut out: Vec<String> = Vec::new();
    push_line(&mut out, owned("Catalog database status:"));
    push_line(&mut out, count_line("  Services: ", services, " registered"));
    push_line(&mut out, count_line("  Products: ", products, " registered"));
    push_line(&mut out, count_line("  Teams: ", teams, " registered\n"));
    assert(views(out@) =~= catalog_status_text(services as nat, products as nat, teams as nat));
    out
}

/// One active workspace: folder, ticket and the description cut to 48
/// characters.
pub open spec fn workspace_entry_text(e: WorkspaceOnDisk) -> Seq<char> {
    "  - "@ + e.folder@ + "  ["@ + ticket_text(e.ws.ticket) + "]  "@ + truncated(
        e.ws.description@,
        48,
    )
}

/// The active-workspaces section of `ws status`.
pub open spec fn workspace_list_text(es: Seq<WorkspaceOnDisk>) -> Seq<Seq<char>> {
    seq!["Local active workspaces:"@] + if es.len() == 0 {
        seq!["  *(None found)*"@]
    } else {
        es.map_values(|e: WorkspaceOnDisk| workspace_entry_text(e))
    }
}

fn workspace_entry_line(e: &WorkspaceOnDisk) -> (s: String)
    ensures
        s@ == workspace_entry_text(*e),
{
    let mut s = text2("  - ", e.folder.as_str());
    push_str(&mut s, "  [");
    push_str(&mut s, or_string(&e.ws.ticket, "unticketed").as_str());
    push_str(&mut s, "]  ");
    push_str(&mut s, truncate(e.ws.description.as_str(), 48).as_str());
    s
}

pub fn workspace_list_lines(entries: &Vec<WorkspaceOnDisk>) -> (out: Vec<String>)
    ensures
        views(out@) == workspace_list_text(entries@),
{
    let mut out: Vec<String> = Vec::new();
    push_line(&mut out, owned("Local active workspaces:"));
    if entries.len() == 0 {
        push_line(&mut out, owned("  *(None found)*"));
        assert(views(out@) =~= workspace_list_text(entries@));
        return out;
    }
    let mut i: usize = 0;
    while i < entries.len()
        invariant
            i <= entries.len(),
            views(out@) == seq!["Local active workspaces:"@] + entries@.take(i as int).map_values(
                |e: WorkspaceOnDisk| workspace_entry_text(e),
            ),
        decreases entries.len() - i,
    {
        push_line(&mut out, workspace_entry_line(&entries[i]));
        assert(entries@.take(i + 1).map_values(|e: WorkspaceOnDisk| workspace_entry_text(e))
            =~= entries@.take(i as int).map_values(|e: WorkspaceOnDisk| workspace_entry_text(e)).push(
            workspace_entry_text(entries@[i as int]),
        ));
        i += 1;
    }
    assert(entries@.take(i as int) =~= entries@);
    out
}

// ==========================================
// ws tasks: listing and picking a row
// ==========================================

/// The `ws tasks` listing: one numbered line per row (numbers from 1), or,
/// without rows, where none were found and how to start one.
pub open spec fn rows_text(rows: Seq<TaskRow>, workspaces_dir: Seq<char>) -> Seq<Seq<char>> {
    if rows.len() == 0 {
        seq![
            "No open feature workspaces found under "@ + workspaces_dir + "."@,
            "Start one with: ws ai run workspace.create --input '{\"title\": \"...\", \"description\": \"...\", \"services\": [...]}'"@,
        ]
    } else {
        Seq::new(rows.len(), |i: int| row_text(rows[i], Some((i + 1) as usize)))
    }
}

pub fn rows_lines(rows: &Vec<TaskRow>, workspaces_dir: &str) -> (out: Vec<String>)
    ensures
        views(out@) == rows_text(rows@, workspaces_dir@),
{
    let mut out: Vec<String> = Vec::new();
    if rows.len() == 0 {
        let mut a = text2("No open feature workspaces found under ", workspaces_dir);
        push_str(&mut a, ".");
        push_line(&mut out, a);
        push_line(
            &mut out,
            owned(
                "Start one with: ws ai run workspace.create --input '{\"title\": \"...\", \"description\": \"...\", \"services\": [...]}'",
            ),
        );
        assert(views(out@) =~= rows_text(rows@, workspaces_dir@));
        return out;
    }
    let mut i: usize = 0;
    while i < rows.len()
        invariant
            i <= rows.len(),
            views(out@) =~= Seq::new(i as nat, |k: int| row_text(rows@[k], Some((k + 1) as usize))),
        decreases rows.len() - i,
    {
        push_line(&mut out, row_line(&rows[i], Some(i + 1)));
        i += 1;
    }
    assert(views(out@) =~= rows_text(rows@, workspaces_dir@));
    out
}

/// The candidate list shown when a token matches several rows: a header,
/// then each matching row with its list number.
pub open spec fn candidates_text(rows: Seq<TaskRow>, token: Seq<char>, matches: Seq<usize>) -> Seq<
    Seq<char>,
> {
    seq!["Token '"@ + token + "' matched "@ + decimal_text(matches.len()) + " candidates:"@]
        + Seq::new(
        matches.len(),
        |k: int| "  "@ + row_text(rows[matches[k] as int], Some((matches[k] + 1) as usize)),
    )
}

pub fn candidate_lines(rows: &Vec<TaskRow>, token: &str, matches: &Vec<usize>) -> (out: Vec<String>)
    requires
        forall|k: int| 0 <= k < matches.len() ==> #[trigger] matches[k] < rows.len(),
    ensures
        views(out@) == candidates_text(rows@, token@, matches@),
{
    let mut out: Vec<String> = Vec::new();
    let mut h = text2("Token '", token);
    push_str(&mut h, "' matched ");
    push_str(&mut h, u64_text(matches.len() as u64).as_str());
    push_str(&mut h, " candidates:");
    push_line(&mut out, h);
    let mut k: usize = 0;
    while k < matches.len()
        invariant
            k <= matches.len(),
            forall|j: int| 0 <= j < matches.len() ==> #[trigger] matches[j] < rows.len(),
            views(out@) =~= seq![
                "Token '"@ + token@ + "' matched "@ + decimal_text(matches@.len()) + " candidates:"@,
            ] + Seq::new(
                k as nat,
                |j: int| "  "@ + row_text(rows@[matches@[j] as int], Some((matches@[j] + 1) as usize)),
            ),
        decreases matches.len() - k,
    {
        let i = matches[k];
        let l = row_line(&rows[i], Some(i + 1));
        push_line(&mut out, text2("  ", l.as_str()));
        k += 1;
    }
    out
}

/// The error of a token that still names several rows.
pub fn ambiguous_token(token: &str) -> (e: WorkspaceError)
    ensures
        e matches WorkspaceError::Validation(m) && m@ == "Token '"@ + token@
            + "' is ambiguous — re-run with a full slug, ticket, or the index above."@,
{
    let mut m = text2("Token '", token);
    push_str(&mut m, "' is ambiguous — re-run with a full slug, ticket, or the index above.");
    WorkspaceError::Validation(m)
}

/// The first of the matching rows whose numbered line is `selection` (the
/// line picked from the candidate list).
pub open spec fn chosen(rows: Seq<TaskRow>, matches: Seq<usize>, selection: Seq<char>) -> Option<
    usize,
>
    decreases matches.len(),
{
    if matches.len() == 0 {
        None
    } else if row_text(rows[matches[0] as int], Some((matches[0] + 1) as usize)) == selection {
        Some(matches[0])
    } else {
        chosen(rows, matches.drop_first(), selection)
    }
}

pub fn chosen_row(rows: &Vec<TaskRow>, matches: &Vec<usize>, selection: &str) -> (res: Option<usize>)
    requires
        forall|k: int| 0 <= k < matches.len() ==> #[trigger] matches[k] < rows.len(),
    ensures
        res == chosen(rows@, matches@, selection@),
{
    let mut k: usize = 0;
    assert(matches@.skip(0) =~= matches@);
    while k < matches.len()
        invariant
            k <= matches.len(),
            forall|j: int| 0 <= j < matches.len() ==> #[trigger] matches[j] < rows.len(),
            chosen(rows@, matches@, selection@) == chosen(rows@, matches@.skip(k as int), selection@),
        decreases matches.len() - k,
    {
        let i = matches[k];
        let l = row_line(&rows[i], Some(i + 1));
        assert(matches@.skip(k as int)[0] == i);
        if str_eq(l.as_str(), selection) {
            return Some(i);
        }
        assert(matches@.skip(k as int).drop_first() =~= matches@.skip(k + 1));
        k += 1;
    }
    None
}

// ==========================================
// ws status <workspace>
// ==========================================

fn yes_no(b: bool, yes: &'static str, no: &'static str) -> (s: &'static str)
    ensures
        s@ == if b { yes@ } else { no@ },
{
    if b {
        yes
    } else {
        no
    }
}

/// The lines of one main worktree in the workspace report.
pub open spec fn repo_report_text(service_id: Seq<char>, st: RepoStatus) -> Seq<Seq<char>> {
    seq![
        "  - service: "@ + service_id,
        "    branch:  "@ + st.branch@,
        "    current: "@ + st.current_commit@,
        "    unpushed: "@ + count_text(st.unpushed_count),
        "    changes: "@ + if st.has_changes {
            "Yes (uncommitted files)"@
        } else {
            "No"@
        },
    ]
}

pub open spec fn repo_reports_text(rs: Seq<(String, RepoStatus)>) -> Seq<Seq<char>>
    decreases rs.len(),
{
    if rs.len() == 0 {
        Seq::empty()
    } else {
        repo_reports_text(rs.drop_last()) + repo_report_text(rs.last().0@, rs.last().1)
    }
}

/// One repository of a task slice in the workspace report.
pub open spec fn task_repo_report_text(service_id: Seq<char>, st: RepoStatus) -> Seq<char> {
    "      - service: "@ + service_id + " | branch: "@ + st.branch@ + " | changes: "@ + if st.has_changes {
        "yes"@
    } else {
        "no"@
    }
}

pub open spec fn task_repo_reports_text(rs: Seq<(String, RepoStatus)>) -> Seq<Seq<char>> {
    rs.map_values(|p: (String, RepoStatus)| task_repo_report_text(p.0@, p.1))
}

pub open spec fn task_reports_text(ts: Seq<TaskStatusOutput>) -> Seq<Seq<char>>
    decreases ts.len(),
{
    if ts.len() == 0 {
        Seq::empty()
    } else {
        let t = ts.last();
        task_reports_text(ts.drop_last()) + seq![
            "  - task: "@ + t.key@ + " ("@ + t.slug@ + ") on "@ + t.branch@,
        ] + task_repo_reports_text(t.repo_statuses@)
    }
}

/// `ws status <workspace>`: identity, settings, each main worktree, then
/// each task slice with its worktrees.
pub open spec fn workspace_report_text(o: WorkspaceStatusOutput) -> Seq<Seq<char>> {
    seq![
        "Workspace "@ + o.id@ + " ("@ + o.folder@ + ")"@,
        "  ticket:      "@ + ticket_text(o.ticket),
    ] + (if o.title@.len() > 0 {
        seq!["  title:       "@ + o.title@]
    } else {
        Seq::empty()
    }) + (if o.description@.len() > 0 {
        seq!["  description: "@ + o.description@]
    } else {
        Seq::empty()
    }) + seq![
        "  Base branch:     "@ + o.base_branch@,
        "  Created branches: "@ + bool_text(o.create_branches),
        "  Preferred editor: "@ + o.editor@,
        "\nRepository worktree details:"@,
    ] + repo_reports_text(o.repo_statuses@) + if o.tasks@.len() > 0 {
        seq!["\nTask worktrees:"@] + task_reports_text(o.tasks@)
    } else {
        Seq::empty()
    }
}

fn repo_report_lines(service_id: &str, st: &RepoStatus) -> (out: Vec<String>)
    ensures
        views(out@) == repo_report_text(service_id@, *st),
{
    let mut out: Vec<String> = Vec::new();
    push_line(&mut out, text2("  - service: ", service_id));
    push_line(&mut out, text2("    branch:  ", st.branch.as_str()));
    push_line(&mut out, text2("    current: ", st.current_commit.as_str()));
    push_line(&mut out, text2("    unpushed: ", count_string(st.unpushed_count).as_str()));
    push_line(
        &mut out,
        text2("    changes: ", yes_no(st.has_changes, "Yes (uncommitted files)", "No")),
    );
    assert(views(out@) =~= repo_report_text(service_id@, *st));
    out
}

fn task_report_lines(t: &TaskStatusOutput) -> (out: Vec<String>)
    ensures
        views(out@) == seq!["  - task: "@ + t.key@ + " ("@ + t.slug@ + ") on "@ + t.branch@]
            + task_repo_reports_text(t.repo_statuses@),
{
    let mut out: Vec<String> = Vec::new();
    let mut h = text2("  - task: ", t.key.as_str());
    push_str(&mut h, " (");
    push_str(&mut h, t.slug.as_str());
    push_str(&mut h, ") on ");
    push_str(&mut h, t.branch.as_str());
    push_line(&mut out, h);
    let ghost head = views(out@);
    let mut j: usize = 0;
    while j < t.repo_statuses.len()
        invariant
            j <= t.repo_statuses.len(),
            views(out@) == head + task_repo_reports_text(t.repo_statuses@.take(j as int)),
        decreases t.repo_statuses.len() - j,
    {
        let (sid, st) = (&t.repo_statuses[j].0, &t.repo_statuses[j].1);
        let mut l = text2("      - service: ", sid.as_str());
        push_str(&mut l, " | branch: ");
        push_str(&mut l, st.branch.as_str());
        push_str(&mut l, " | changes: ");
        push_str(&mut l, yes_no(st.has_changes, "yes", "no"));
        push_line(&mut out, l);
        assert(task_repo_reports_text(t.repo_statuses@.take(j + 1)) =~= task_repo_reports_text(
            t.repo_statuses@.take(j as int),
        ).push(task_repo_report_text(sid@, *st)));
        j += 1;
    }
    assert(t.repo_statuses@.take(j as int) =~= t.repo_statuses@);
    out
}

pub fn workspace_status_lines(o: &WorkspaceStatusOutput) -> (out: Vec<String>)
    ensures
        views(out@) == workspace_report_text(*o),
{
    let mut out: Vec<String> = Vec::new();
    let mut h = text2("Workspace ", o.id.as_str());
    push_str(&mut h, " (");
    push_str(&mut h, o.folder.as_str());
    push_str(&mut h, ")");
    push_line(&mut out, h);
    push_line(&mut out, text2("  ticket:      ", or_string(&o.ticket, "unticketed").as_str()));
    if o.title.as_str().unicode_len() > 0 {
        push_line(&mut out, text2("  title:       ", o.title.as_str()));
    }
    if o.description.as_str().unicode_len() > 0 {
        push_line(&mut out, text2("  description: ", o.description.as_str()));
    }
    push_line(&mut out, text2("  Base branch:     ", o.base_branch.as_str()));
    push_line(
        &mut out,
        text2("  Created branches: ", yes_no(o.create_branches, "true", "false")),
    );
    push_line(&mut out, text2("  Preferred editor: ", o.editor.as_str()));
    push_line(&mut out, owned("\nRepository worktree details:"));
    let ghost head = views(out@);
    assert(head =~= seq![
        "Workspace "@ + o.id@ + " ("@ + o.folder@ + ")"@,
        "  ticket:      "@ + ticket_text(o.ticket),
    ] + (if o.title@.len() > 0 {
        seq!["  title:       "@ + o.title@]
    } else {
        Seq::empty()
    }) + (if o.description@.len() > 0 {
        seq!["  description: "@ + o.description@]
    } else {
        Seq::empty()
    }) + seq![
        "  Base branch:     "@ + o.base_branch@,
        "  Created branches: "@ + bool_text(o.create_branches),
        "  Preferred editor: "@ + o.editor@,
        "\nRepository worktree details:"@,
    ]);
    let mut i: usize = 0;
    while i < o.repo_statuses.len()
        invariant
            i <= o.repo_statuses.len(),
            views(out@) == head + repo_reports_text(o.repo_statuses@.take(i as int)),
        decreases o.repo_statuses.len() - i,
    {
        let more = repo_report_lines(o.repo_statuses[i].0.as_str(), &o.repo_statuses[i].1);
        extend_lines(&mut out, more);
        assert(o.repo_statuses@.take(i + 1).drop_last() =~= o.repo_statuses@.take(i as int));
        i += 1;
    }
    assert(o.repo_statuses@.take(i as int) =~= o.repo_statuses@);
    let ghost mid = views(out@);
    if o.tasks.len() > 0 {
        push_line(&mut out, owned("\nTask worktrees:"));
        let ghost mid2 = views(out@);
        let mut k: usize = 0;
        while k < o.tasks.len()
            invariant
                k <= o.tasks.len(),
                views(out@) == mid2 + task_reports_text(o.tasks@.take(k as int)),
            decreases o.tasks.len() - k,
        {
            let more = task_report_lines(&o.tasks[k]);
            extend_lines(&mut out, more);
            assert(o.tasks@.take(k + 1).drop_last() =~= o.tasks@.take(k as int));
            k += 1;
        }
        assert(o.tasks@.take(k as int) =~= o.tasks@);
    }
    assert(views(out@) =~= workspace_report_text(*o));
    out
}

// ==========================================
// ws tasks show
// ==========================================

/// The status recorded for a service, if any (the first entry for it).
pub open spec fn status_of(rs: Seq<(String, RepoStatus)>, service_id: Seq<char>) -> Option<RepoStatus>
    decreases rs.len(),
{
    if rs.len() == 0 {
        None
    } else if rs[0].0@ == service_id {
        Some(rs[0].1)
    } else {
        status_of(rs.drop_first(), service_id)
    }
}

fn find_status<'a>(rs: &'a Vec<(String, RepoStatus)>, service_id: &str) -> (res: Option<&'a RepoStatus>)
    ensures
        match status_of(rs@, service_id@) {
            Some(st) => res == Some(&st),
            None => res is None,
        },
{
    let mut k: usize = 0;
    assert(rs@.skip(0) =~= rs@);
    while k < rs.len()
        invariant
            k <= rs.len(),
            status_of(rs@, service_id@) == status_of(rs@.skip(k as int), service_id@),
        decreases rs.len() - k,
    {
        assert(rs@.skip(k as int)[0] == rs@[k as int]);
        if str_eq(rs[k].0.as_str(), service_id) {
            return Some(&rs[k].1);
        }
        assert(rs@.skip(k as int).drop_first() =~= rs@.skip(k + 1));
        k += 1;
    }
    None
}

/// One service of `ws tasks show`: its worktree path, branch, baseline
/// (shortened), whether it is dirty and its unpushed commits; `?`,
/// `unknown`, `no` and `n/a` where no status was recorded.
pub open spec fn service_detail_text(path: Seq<char>, service_id: Seq<char>, st: Option<RepoStatus>) -> Seq<char> {
    "    "@ + service_id + ": path "@ + path + "/repos/"@ + service_id + " | branch "@ + match st {
        Some(r) => r.branch@,
        None => "?"@,
    } + " | baseline "@ + match st {
        Some(r) => short_sha(r.baseline_commit@),
        None => "unknown"@,
    } + " | dirty "@ + match st {
        Some(r) => if r.has_changes {
            "yes"@
        } else {
            "no"@
        },
        None => "no"@,
    } + " | unpushed "@ + match st {
        Some(r) => count_text(r.unpushed_count),
        None => "n/a"@,
    }
}

/// One repository of a task slice in `ws tasks show`.
pub open spec fn task_repo_detail_text(service_id: Seq<char>, st: RepoStatus) -> Seq<char> {
    "      "@ + service_id + ": branch "@ + st.branch@ + " "@ + if st.has_changes {
        "(dirty)"@
    } else {
        Seq::empty()
    }
}

pub open spec fn task_details_text(ts: Seq<TaskStatusOutput>) -> Seq<Seq<char>>
    decreases ts.len(),
{
    if ts.len() == 0 {
        Seq::empty()
    } else {
        let t = ts.last();
        task_details_text(ts.drop_last()) + seq![
            "    "@ + t.key@ + " ("@ + t.slug@ + "): branch "@ + t.branch@,
        ] + t.repo_statuses@.map_values(
            |p: (String, RepoStatus)| task_repo_detail_text(p.0@, p.1),
        )
    }
}

/// `ws tasks show`: the workspace's identity and settings, each service's
/// main worktree, each task slice, and the selected task if the token named
/// one. `path` is the workspace directory, `age` the row's age.
pub open spec fn detail_text(
    ws: Workspace,
    folder: Seq<char>,
    path: Seq<char>,
    age: Option<Option<u64>>,
    repos: Seq<(String, RepoStatus)>,
    tasks: Seq<TaskStatusOutput>,
    selected: Option<String>,
) -> Seq<Seq<char>> {
    seq!["Workspace: "@ + ws.id@] + (if ws.title@.len() > 0 {
        seq!["  title:        "@ + ws.title@]
    } else {
        Seq::empty()
    }) + seq![
        "  ticket:       "@ + ticket_text(ws.ticket),
        "  folder:       "@ + folder,
        "  path:         "@ + path,
    ] + (if ws.description@.len() > 0 {
        seq!["  description:  "@ + ws.description@]
    } else {
        Seq::empty()
    }) + seq![
        "  created:      "@ + or_text(ws.created_at, "n/a"@),
        "  last changed: "@ + row_age_text(age),
        "  base_branch:  "@ + ws.base_branch@,
        "  services:"@,
    ] + ws.services@.map_values(
        |svc: String| service_detail_text(path, svc@, status_of(repos, svc@)),
    ) + (if tasks.len() > 0 {
        seq!["  tasks:"@] + task_details_text(tasks)
    } else {
        Seq::empty()
    }) + match selected {
        Some(s) => seq!["  selected task: "@ + s@],
        None => Seq::empty(),
    }
}

fn service_detail_line(path: &str, service_id: &str, st: Option<&RepoStatus>) -> (s: String)
    ensures
        s@ == service_detail_text(
            path@,
            service_id@,
            match st {
                Some(r) => Some(*r),
                None => None,
            },
        ),
{
    let mut s = text2("    ", service_id);
    push_str(&mut s, ": path ");
    push_str(&mut s, path);
    push_str(&mut s, "/repos/");
    push_str(&mut s, service_id);
    push_str(&mut s, " | branch ");
    match st {
        Some(r) => push_str(&mut s, r.branch.as_str()),
        None => push_str(&mut s, "?"),
    }
    push_str(&mut s, " | baseline ");
    match st {
        Some(r) => push_str(&mut s, shorten_sha(r.baseline_commit.as_str()).as_str()),
        None => push_str(&mut s, "unknown"),
    }
    push_str(&mut s, " | dirty ");
    match st {
        Some(r) => push_str(&mut s, yes_no(r.has_changes, "yes", "no")),
        None => push_str(&mut s, "no"),
    }
    push_str(&mut s, " | unpushed ");
    match st {
        Some(r) => push_str(&mut s, count_string(r.unpushed_count).as_str()),
        None => push_str(&mut s, "n/a"),
    }
    s
}

fn task_detail_lines(t: &TaskStatusOutput) -> (out: Vec<String>)
    ensures
        views(out@) == seq!["    "@ + t.key@ + " ("@ + t.slug@ + "): branch "@ + t.branch@]
            + t.repo_statuses@.map_values(
            |p: (String, RepoStatus)| task_repo_detail_text(p.0@, p.1),
        ),
{
    let mut out: Vec<String> = Vec::new();
    let mut h = text2("    ", t.key.as_str());
    push_str(&mut h, " (");
    push_str(&mut h, t.slug.as_str());
    push_str(&mut h, "): branch ");
    push_str(&mut h, t.branch.as_str());
    push_line(&mut out, h);
    let ghost head = views(out@);
    let mut j: usize = 0;
    while j < t.repo_statuses.len()
        invariant
            j <= t.repo_statuses.len(),
            views(out@) == head + t.repo_statuses@.take(j as int).map_values(
                |p: (String, RepoStatus)| task_repo_detail_text(p.0@, p.1),
            ),
        decreases t.repo_statuses.len() - j,
    {
        let (sid, st) = (&t.repo_statuses[j].0, &t.repo_statuses[j].1);
        let mut l = text2("      ", sid.as_str());
        push_str(&mut l, ": branch ");
        push_str(&mut l, st.branch.as_str());
        push_str(&mut l, " ");
        if st.has_changes {
            push_str(&mut l, "(dirty)");
        } else {
            assert(l@ =~= l@ + Seq::<char>::empty());
        }
        push_line(&mut out, l);
        assert(t.repo_statuses@.take(j + 1).map_values(
            |p: (String, RepoStatus)| task_repo_detail_text(p.0@, p.1),
        ) =~= t.repo_statuses@.take(j as int).map_values(
            |p: (String, RepoStatus)| task_repo_detail_text(p.0@, p.1),
        ).push(task_repo_detail_text(sid@, *st)));
        j += 1;
    }
    assert(t.repo_statuses@.take(j as int) =~= t.repo_statuses@);
    out
}

fn detail_head_lines(ws: &Workspace, folder: &str, path: &str, age: Option<Option<u64>>) -> (out: Vec<String>)
    ensures
        views(out@) == seq!["Workspace: "@ + ws.id@] + (if ws.title@.len() > 0 {
            seq!["  title:        "@ + ws.title@]
        } else {
            Seq::empty()
        }) + seq![
            "  ticket:       "@ + ticket_text(ws.ticket),
            "  folder:       "@ + folder@,
            "  path:         "@ + path@,
        ] + (if ws.description@.len() > 0 {
            seq!["  description:  "@ + ws.description@]
        } else {
            Seq::empty()
        }) + seq![
            "  created:      "@ + or_text(ws.created_at, "n/a"@),
            "  last changed: "@ + row_age_text(age),
            "  base_branch:  "@ + ws.base_branch@,
            "  services:"@,
        ],
{
    let mut out: Vec<String> = Vec::new();
    push_line(&mut out, text2("Workspace: ", ws.id.as_str()));
    if ws.title.as_str().unicode_len() > 0 {
        push_line(&mut out, text2("  title:        ", ws.title.as_str()));
    }
    push_line(&mut out, text2("  ticket:       ", or_string(&ws.ticket, "unticketed").as_str()));
    push_line(&mut out, text2("  folder:       ", folder));
    push_line(&mut out, text2("  path:         ", path));
    if ws.description.as_str().unicode_len() > 0 {
        push_line(&mut out, text2("  description:  ", ws.description.as_str()));
    }
    push_line(&mut out, text2("  created:      ", or_string(&ws.created_at, "n/a").as_str()));
    let a = match age {
        Some(e) => fmt_age(e),
        None => owned("?"),
    };
    push_line(&mut out, text2("  last changed: ", a.as_str()));
    push_line(&mut out, text2("  base_branch:  ", ws.base_branch.as_str()));
    push_line(&mut out, owned("  services:"));
    assert(views(out@) =~= seq!["Workspace: "@ + ws.id@] + (if ws.title@.len() > 0 {
        seq!["  title:        "@ + ws.title@]
    } else {
        Seq::empty()
    }) + seq![
        "  ticket:       "@ + ticket_text(ws.ticket),
        "  folder:       "@ + folder@,
        "  path:         "@ + path@,
    ] + (if ws.description@.len() > 0 {
        seq!["  description:  "@ + ws.description@]
    } else {
        Seq::empty()
    }) + seq![
        "  created:      "@ + or_text(ws.created_at, "n/a"@),
        "  last changed: "@ + row_age_text(age),
        "  base_branch:  "@ + ws.base_branch@,
        "  services:"@,
    ]);
    out
}

pub fn detail_lines(
    ws: &Workspace,
    folder: &str,
    path: &str,
    age: Option<Option<u64>>,
    repos: &Vec<(String, RepoStatus)>,
    tasks: &Vec<TaskStatusOutput>,
    selected: &Option<String>,
) -> (out: Vec<String>)
    ensures
        views(out@) == detail_text(*ws, folder@, path@, age, repos@, tasks@, *selected),
{
    let mut out = detail_head_lines(ws, folder, path, age);
    let ghost head = views(out@);
    let mut i: usize = 0;
    while i < ws.services.len()
        invariant
            i <= ws.services.len(),
            views(out@) == head + ws.services@.take(i as int).map_values(
                |svc: String| service_detail_text(path@, svc@, status_of(repos@, svc@)),
            ),
        decreases ws.services.len() - i,
    {
        let svc = ws.services[i].as_str();
        let st = find_status(repos, svc);
        push_line(&mut out, service_detail_line(path, svc, st));
        assert(ws.services@.take(i + 1).map_values(
            |svc: String| service_detail_text(path@, svc@, status_of(repos@, svc@)),
        ) =~= ws.services@.take(i as int).map_values(
            |svc: String| service_detail_text(path@, svc@, status_of(repos@, svc@)),
        ).push(service_detail_text(path@, svc@, status_of(repos@, svc@))));
        i += 1;
    }
    assert(ws.services@.take(i as int) =~= ws.services@);
    if tasks.len() > 0 {
        push_line(&mut out, owned("  tasks:"));
        let ghost mid = views(out@);
        let mut k: usize = 0;
        while k < tasks.len()
            invariant
                k <= tasks.len(),
                views(out@) == mid + task_details_text(tasks@.take(k as int)),
            decreases tasks.len() - k,
        {
            let more = task_detail_lines(&tasks[k]);
            extend_lines(&mut out, more);
            assert(tasks@.take(k + 1).drop_last() =~= tasks@.take(k as int));
            k += 1;
        }
        assert(tasks@.take(k as int) =~= tasks@);
    }
    match selected {
        Some(sl) => push_line(&mut out, text2("  selected task: ", sl.as_str())),
        None => {},
    }
    assert(views(out@) =~= detail_text(*ws, folder@, path@, age, repos@, tasks@, *selected));
    out
}

} // verus!
