//! Editors a workspace can be opened in: Cursor, VS Code, Zed and Vim.
//! Each adapter names its program and what it opens; launching it is the
//! caller's.
use vstd::prelude::*;
use crate::command::CommandInfo;
use crate::error::WorkspaceError;
use crate::text::{join_path, owned, path_join, push_str};

verus! {

/// `workspaces/<epic>`.
pub open spec fn ws_dir(epic_key: Seq<char>) -> Seq<char> {
    path_join("workspaces"@, epic_key)
}

/// `workspaces/<epic>/<epic>.code-workspace`: what Cursor and VS Code open.
pub open spec fn code_workspace_file(epic_key: Seq<char>) -> Seq<char> {
    path_join(ws_dir(epic_key), epic_key + ".code-workspace"@)
}

/// `workspaces/<epic>/repos/<service>`: what every editor opens for a service.
pub open spec fn service_dir(epic_key: Seq<char>, service_id: Seq<char>) -> Seq<char> {
    path_join(path_join(ws_dir(epic_key), "repos"@), service_id)
}

fn code_workspace_path(epic_key: &str) -> (p: String)
    ensures
        p@ == code_workspace_file(epic_key@),
{
    let d = join_path("workspaces", epic_key);
    let mut f = owned(epic_key);
    push_str(&mut f, ".code-workspace");
    join_path(d.as_str(), f.as_str())
}

fn workspace_dir(epic_key: &str) -> (p: String)
    ensures
        p@ == ws_dir(epic_key@),
{
    join_path("workspaces", epic_key)
}

fn service_path(epic_key: &str, service_id: &str) -> (p: String)
    ensures
        p@ == service_dir(epic_key@, service_id@),
{
    let d = join_path("workspaces", epic_key);
    let r = join_path(d.as_str(), "repos");
    join_path(r.as_str(), service_id)
}

/// The error of an editor that failed to open something: `Failed to open
/// workspace: <e>` or `Failed to open service: <e>`.
pub fn open_failed(editor: &str, service: bool, err: &str) -> (e: WorkspaceError)
    ensures
        e matches WorkspaceError::Editor { editor: x, message: m } && x@ == editor@ && m@ == (if service {
            "Failed to open service: "@
        } else {
            "Failed to open workspace: "@
        }) + err@,
{
    let mut m = owned(if service { "Failed to open service: " } else { "Failed to open workspace: " });
    push_str(&mut m, err);
    WorkspaceError::editor(editor, m.as_str())
}

/// How a Vim session failed.
pub enum VimFailure {
    /// Vim could not be started; the error's text.
    Spawn(String),
    /// Waiting for Vim failed; the error's text.
    Wait(String),
    /// Vim exited with a non-zero status.
    Status,
}

pub fn vim_failed(f: &VimFailure) -> (e: WorkspaceError)
    ensures
        e matches WorkspaceError::Editor { editor: x, message: m } && x@ == "vim"@ && m@ == match *f {
            VimFailure::Spawn(t) => "Failed to spawn vim: "@ + t@,
            VimFailure::Wait(t) => "Vim failed to exit: "@ + t@,
            VimFailure::Status => "Vim exited with non-zero status"@,
        },
{
    let m = match f {
        VimFailure::Spawn(t) => {
            let mut m = owned("Failed to spawn vim: ");
            push_str(&mut m, t.as_str());
            m
        },
        VimFailure::Wait(t) => {
            let mut m = owned("Vim failed to exit: ");
            push_str(&mut m, t.as_str());
            m
        },
        VimFailure::Status => owned("Vim exited with non-zero status"),
    };
    WorkspaceError::editor("vim", m.as_str())
}

pub struct CursorEditorAdapter;

pub struct VSCodeEditorAdapter;

pub struct ZedEditorAdapter;

pub struct VimEditorAdapter;

impl CursorEditorAdapter {
    pub fn id(&self) -> (s: &'static str)
        ensures
            s@ == "cursor"@,
    {
        "cursor"
    }

    pub fn label(&self) -> (s: &'static str)
        ensures
            s@ == "Cursor"@,
    {
        "Cursor"
    }

    /// The program launched (and probed with `--version`).
    pub fn program(&self) -> (s: &'static str)
        ensures
            s@ == "cursor"@,
    {
        "cursor"
    }

    pub fn workspace_target(&self, epic_key: &str) -> (p: String)
        ensures
            p@ == code_workspace_file(epic_key@),
    {
        code_workspace_path(epic_key)
    }

    pub fn service_target(&self, epic_key: &str, service_id: &str) -> (p: String)
        ensures
            p@ == service_dir(epic_key@, service_id@),
    {
        service_path(epic_key, service_id)
    }
}

impl VSCodeEditorAdapter {
    pub fn id(&self) -> (s: &'static str)
        ensures
            s@ == "vscode"@,
    {
        "vscode"
    }

    pub fn label(&self) -> (s: &'static str)
        ensures
            s@ == "VS Code"@,
    {
        "VS Code"
    }

    pub fn program(&self) -> (s: &'static str)
        ensures
            s@ == "code"@,
    {
        "code"
    }

    pub fn workspace_target(&self, epic_key: &str) -> (p: String)
        ensures
            p@ == code_workspace_file(epic_key@),
    {
        code_workspace_path(epic_key)
    }

    pub fn service_target(&self, epic_key: &str, service_id: &str) -> (p: String)
        ensures
            p@ == service_dir(epic_key@, service_id@),
    {
        service_path(epic_key, service_id)
    }
}

impl ZedEditorAdapter {
    pub fn id(&self) -> (s: &'static str)
        ensures
            s@ == "zed"@,
    {
        "zed"
    }

    pub fn label(&self) -> (s: &'static str)
        ensures
            s@ == "Zed"@,
    {
        "Zed"
    }

    pub fn program(&self) -> (s: &'static str)
        ensures
            s@ == "zed"@,
    {
        "zed"
    }

    /// Zed opens the workspace folder itself.
    pub fn workspace_target(&self, epic_key: &str) -> (p: String)
        ensures
            p@ == ws_dir(epic_key@),
    {
        workspace_dir(epic_key)
    }

    pub fn service_target(&self, epic_key: &str, service_id: &str) -> (p: String)
        ensures
            p@ == service_dir(epic_key@, service_id@),
    {
        service_path(epic_key, service_id)
    }
}

impl VimEditorAdapter {
    pub fn id(&self) -> (s: &'static str)
        ensures
            s@ == "vim"@,
    {
        "vim"
    }

    pub fn label(&self) -> (s: &'static str)
        ensures
            s@ == "Vim"@,
    {
        "Vim"
    }

    pub fn program(&self) -> (s: &'static str)
        ensures
            s@ == "vim"@,
    {
        "vim"
    }

    /// Vim opens the workspace folder itself.
    pub fn workspace_target(&self, epic_key: &str) -> (p: String)
        ensures
            p@ == ws_dir(epic_key@),
    {
        workspace_dir(epic_key)
    }

    pub fn service_target(&self, epic_key: &str, service_id: &str) -> (p: String)
        ensures
            p@ == service_dir(epic_key@, service_id@),
    {
        service_path(epic_key, service_id)
    }
}

// ==========================================
// editor.open
// ==========================================

pub struct EditorOpenInput {
    pub epic_key: String,
    pub service_id: Option<String>,
    pub editor: Option<String>,
}

/// The editor `editor.open` uses: the requested one, else the workspace's
/// (`ws_editor`, when its `workspace.yaml` could be read), else the
/// configured default.
pub fn editor_choice(requested: Option<String>, ws_editor: Option<String>, default: &str) -> (e: String)
    ensures
        e@ == match requested {
            Some(r) => r@,
            None => match ws_editor {
                Some(w) => w@,
                None => default@,
            },
        },
{
    match requested {
        Some(r) => r,
        None => match ws_editor {
            Some(w) => w,
            None => owned(default),
        },
    }
}

/// The error of an editor id no adapter is registered for.
pub fn adapter_missing(editor_id: &str) -> (e: WorkspaceError)
    ensures
        e matches WorkspaceError::NotFound(m) && m@ == "Editor adapter '"@ + editor_id@
            + "' not found/registered"@,
{
    let mut m = owned("Editor adapter '");
    push_str(&mut m, editor_id);
    push_str(&mut m, "' not found/registered");
    WorkspaceError::NotFound(m)
}

/// The reply of `editor.open`.
pub fn opened_status(editor_id: &str) -> (out: crate::lifecycle::StatusOutput)
    ensures
        out.success,
        out.message@ == "Opened in editor '"@ + editor_id@ + "'."@,
{
    let mut m = owned("Opened in editor '");
    push_str(&mut m, editor_id);
    push_str(&mut m, "'.");
    crate::lifecycle::StatusOutput { success: true, message: m }
}

pub struct EditorOpenCommand;

impl CommandInfo for EditorOpenCommand {
    fn id(&self) -> (s: &'static str)
        ensures
            s@ == "editor.open"@,
    {
        "editor.open"
    }

    fn description(&self) -> (s: &'static str)
        ensures
            s@ == "Open the workspace or a specific service in an editor."@,
    {
        "Open the workspace or a specific service in an editor."
    }
}

} // verus!
