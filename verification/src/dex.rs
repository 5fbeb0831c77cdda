//! The `dex` issue provider: a local, file-backed task tracker driven
//! through its CLI. Epics are top-level tasks and issues their children;
//! the project is only a label on the issues returned.
//!
//! Running `dex` and reading its JSON are the caller's; the arguments, the
//! reading of its output and the mapping to issues are here.
use vstd::prelude::*;
use crate::error::WorkspaceError;
use crate::lifecycle::opt_view;
use crate::models::{AuthStatus, CreateEpicInput, Issue, LinkIssuesInput};
use crate::providers::{split_lines, text_lines};
use crate::text::{
    chars_string, joined, owned, push_str, starts_with, str_chars, str_eq, str_to_lowercase,
    str_trim, trim, unicode_str_lower, views, slice_chars,
};

verus! {

pub struct DexProvider {
    /// Only used as the `project_key` of the issues returned.
    pub default_project: String,
}

impl DexProvider {
    pub fn new(default_project: Option<String>) -> (p: DexProvider)
        ensures
            p.default_project@ == match default_project {
                Some(d) => d@,
                None => "dex"@,
            },
    {
        DexProvider {
            default_project: match default_project {
                Some(d) => d,
                None => owned("dex"),
            },
        }
    }
}

/// The fields of `dex show --json` that the provider reads.
pub struct DexTask {
    pub id: String,
    pub parent_id: Option<String>,
    pub name: String,
    pub description: Option<String>,
    pub completed: bool,
    pub result: Option<String>,
    pub started_at: Option<String>,
}

impl DexTask {
    /// The issue a task is: an `Epic` without a parent, else a `Task`;
    /// `Done` when completed, `In Progress` once started, else `To Do`.
    pub fn to_issue(&self, project: &str) -> (i: Issue)
        ensures
            i.key@ == self.id@,
            i.summary@ == self.name@,
            opt_view(i.description) == opt_view(self.description),
            i.status@ == if self.completed {
                "Done"@
            } else if self.started_at is Some {
                "In Progress"@
            } else {
                "To Do"@
            },
            i.issue_type@ == if self.parent_id is None {
                "Epic"@
            } else {
                "Task"@
            },
            i.assignee is None,
            i.project_key@ == project@,
    {
        let issue_type = if self.parent_id.is_none() { "Epic" } else { "Task" };
        let status = if self.completed {
            "Done"
        } else if self.started_at.is_some() {
            "In Progress"
        } else {
            "To Do"
        };
        Issue {
            key: self.id.clone(),
            summary: self.name.clone(),
            description: match &self.description {
                Some(d) => Some(d.clone()),
                None => None,
            },
            status: owned(status),
            issue_type: owned(issue_type),
            assignee: None,
            project_key: owned(project),
        }
    }
}

/// The arguments of `dex create`.
pub fn create_args(name: &str, description: Option<&str>, parent: Option<&str>) -> (args: Vec<String>)
    ensures
        views(args@) == seq!["create"@, name@] + match description {
            Some(d) => seq!["--description"@, d@],
            None => Seq::empty(),
        } + match parent {
            Some(p) => seq!["--parent"@, p@],
            None => Seq::empty(),
        },
{
    let mut args: Vec<String> = vec![owned("create"), owned(name)];
    let ghost a0 = views(args@);
    match description {
        Some(d) => {
            args.push(owned("--description"));
            args.push(owned(d));
        },
        None => {},
    }
    let ghost a1 = views(args@);
    match parent {
        Some(p) => {
            args.push(owned("--parent"));
            args.push(owned(p));
        },
        None => {},
    }
    assert(views(args@) =~= seq!["create"@, name@] + match description {
        Some(d) => seq!["--description"@, d@],
        None => Seq::<Seq<char>>::empty(),
    } + match parent {
        Some(p) => seq!["--parent"@, p@],
        None => Seq::<Seq<char>>::empty(),
    });
    args
}

/// The task id in `dex create` output: the rest of the first line that,
/// trimmed, starts with `Created task `, itself trimmed.
pub open spec fn created_id_from(lines: Seq<Seq<char>>) -> Option<Seq<char>>
    decreases lines.len(),
{
    if lines.len() == 0 {
        None
    } else {
        let t = trim(lines[0]);
        if starts_with(t, "Created task "@) {
            Some(trim(t.skip(13)))
        } else {
            created_id_from(lines.drop_first())
        }
    }
}

pub open spec fn created_id(stdout: Seq<char>) -> Option<Seq<char>> {
    created_id_from(text_lines(stdout))
}

/// Reads the new task's id from `dex create` output.
pub fn parse_created_id(stdout: &str) -> (id: Option<String>)
    ensures
        opt_view(id) == created_id(stdout@),
{
    let lines = split_lines(stdout);
    let ghost all = views(lines@);
    let prefix = str_chars("Created task ");
    proof {
        reveal_strlit("Created task ");
    }
    assert(prefix@.len() == 13);
    let mut i: usize = 0;
    assert(all.skip(0) =~= all);
    while i < lines.len()
        invariant
            all == views(lines@),
            all == text_lines(stdout@),
            prefix@ == "Created task "@,
            prefix@.len() == 13,
            i <= lines.len(),
            created_id(stdout@) == created_id_from(all.skip(i as int)),
        decreases lines.len() - i,
    {
        let t = str_trim(lines[i].as_str());
        assert(all.skip(i as int)[0] == lines@[i as int]@);
        if crate::text::chars_starts_with(&t, &prefix) {
            assert(prefix@.len() == 13);
            let rest = slice_chars(&t, 13, t.len());
            assert(rest@ =~= t@.skip(13));
            let r = crate::text::trim_chars(&rest);
            return Some(chars_string(&r));
        }
        assert(all.skip(i as int).drop_first() =~= all.skip(i + 1));
        i += 1;
    }
    assert(all.skip(i as int) =~= Seq::<Seq<char>>::empty());
    None
}

/// `dex create` printed no task id.
pub fn created_id_missing(stdout: &str) -> (e: WorkspaceError)
    ensures
        e matches WorkspaceError::Provider { provider: p, message: m } && p@ == "dex"@ && m@
            == "Could not parse task id from `dex create` output: "@ + stdout@,
{
    let mut m = owned("Could not parse task id from `dex create` output: ");
    push_str(&mut m, stdout);
    WorkspaceError::provider("dex", m.as_str())
}

/// `dex` could not be started.
pub fn dex_spawn_failed(err: &str) -> (e: WorkspaceError)
    ensures
        e matches WorkspaceError::Provider { provider: p, message: m } && p@ == "dex"@ && m@
            == "Failed to spawn `dex` CLI: "@ + err@ + ". Is dex installed (https://dex.rip)?"@,
{
    let mut m = owned("Failed to spawn `dex` CLI: ");
    push_str(&mut m, err);
    push_str(&mut m, ". Is dex installed (https://dex.rip)?");
    WorkspaceError::provider("dex", m.as_str())
}

/// `dex` exited unsuccessfully: its arguments and trimmed stderr.
pub fn dex_failed(args: &Vec<String>, stderr: &str) -> (e: WorkspaceError)
    ensures
        e matches WorkspaceError::Provider { provider: p, message: m } && p@ == "dex"@ && m@
            == "`dex "@ + joined(views(args@), " "@) + "` failed: "@ + trim(stderr@),
{
    let mut m = owned("`dex ");
    push_str(&mut m, crate::text::join_strings(args, " ").as_str());
    push_str(&mut m, "` failed: ");
    push_str(&mut m, chars_string(&str_trim(stderr)).as_str());
    WorkspaceError::provider("dex", m.as_str())
}

/// `dex show --json` output that does not parse as a task.
pub fn show_unparsable(key: &str, err: &str) -> (e: WorkspaceError)
    ensures
        e matches WorkspaceError::Provider { provider: p, message: m } && p@ == "dex"@ && m@
            == "Failed to parse `dex show "@ + key@ + " --json` output: "@ + err@,
{
    let mut m = owned("Failed to parse `dex show ");
    push_str(&mut m, key);
    push_str(&mut m, " --json` output: ");
    push_str(&mut m, err);
    WorkspaceError::provider("dex", m.as_str())
}

/// Dex needs no credentials: authentication is whether the CLI is installed.
pub fn dex_auth(installed: bool) -> (a: AuthStatus)
    ensures
        a.authenticated == installed,
        installed ==> opt_view(a.username) == Some("dex-local"@) && opt_view(a.details) == Some(
            "Dex local issue tracking ready (no account or domain required)."@,
        ),
        !installed ==> a.username is None && opt_view(a.details) == Some(
            "`dex` CLI not found on PATH. Install it from https://dex.rip."@,
        ),
{
    if installed {
        AuthStatus {
            authenticated: true,
            username: Some(owned("dex-local")),
            details: Some(owned("Dex local issue tracking ready (no account or domain required).")),
        }
    } else {
        AuthStatus {
            authenticated: false,
            username: None,
            details: Some(owned("`dex` CLI not found on PATH. Install it from https://dex.rip.")),
        }
    }
}

/// The description of a new epic: its description, else its summary.
pub fn epic_description(input: &CreateEpicInput) -> (d: String)
    ensures
        d@ == match input.description {
            Some(x) => x@,
            None => input.summary@,
        },
{
    match &input.description {
        Some(x) => x.clone(),
        None => input.summary.clone(),
    }
}

/// What a status update does to a dex task.
pub enum StatusChange {
    /// `dex complete --result <text> --no-commit`.
    Complete(String),
    /// `dex start`.
    Start,
    /// Nothing.
    Keep,
}

pub open spec fn done_word(l: Seq<char>) -> bool {
    l == "done"@ || l == "completed"@ || l == "closed"@ || l == "resolved"@
}

pub open spec fn started_word(l: Seq<char>) -> bool {
    l == "in progress"@ || l == "in-progress"@ || l == "started"@
}

/// The change a requested status makes, by its lowercase form.
pub fn status_change(status: &str) -> (c: StatusChange)
    ensures
        done_word(unicode_str_lower(status@)) ==> (c matches StatusChange::Complete(r) && r@
            == "Status set to "@ + status@ + " via ws issue provider."@),
        !done_word(unicode_str_lower(status@)) && started_word(unicode_str_lower(status@)) ==> (
        c is Start),
        !done_word(unicode_str_lower(status@)) && !started_word(unicode_str_lower(status@)) ==> (
        c is Keep),
{
    let lower = str_to_lowercase(status);
    let l = lower.as_str();
    if str_eq(l, "done") || str_eq(l, "completed") || str_eq(l, "closed") || str_eq(l, "resolved") {
        let mut r = owned("Status set to ");
        push_str(&mut r, status);
        push_str(&mut r, " via ws issue provider.");
        StatusChange::Complete(r)
    } else if str_eq(l, "in progress") || str_eq(l, "in-progress") || str_eq(l, "started") {
        StatusChange::Start
    } else {
        StatusChange::Keep
    }
}

/// Dex has no comments: a comment is appended to the task description
/// after a blank line and a `--- Comment ---` marker.
pub fn comment_description(existing: Option<String>, body: &str) -> (d: String)
    ensures
        d@ == match existing {
            Some(e) => if e@.len() > 0 {
                e@ + "\n\n"@
            } else {
                Seq::empty()
            },
            None => Seq::empty(),
        } + "--- Comment ---\n"@ + body@,
{
    let mut d = match existing {
        Some(e) => e,
        None => String::new(),
    };
    if d.as_str().unicode_len() > 0 {
        push_str(&mut d, "\n\n");
    }
    push_str(&mut d, "--- Comment ---\n");
    push_str(&mut d, body);
    d
}

/// Dex has no generic link: the outward task blocks the inward one.
pub fn link_args(input: &LinkIssuesInput) -> (args: Vec<String>)
    ensures
        views(args@) == seq!["edit"@, input.inward_key@, "--add-blocker"@, input.outward_key@],
{
    let args = vec![
        owned("edit"),
        input.inward_key.clone(),
        owned("--add-blocker"),
        input.outward_key.clone(),
    ];
    assert(views(args@) =~= seq!["edit"@, input.inward_key@, "--add-blocker"@, input.outward_key@]);
    args
}

} // verus!
