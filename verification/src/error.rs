//! The error type every fallible operation of the library returns.
use vstd::prelude::*;
use crate::text::{concat, owned, push_str};

verus! {

/// What went wrong. Errors raised by the filesystem or by a parser are
/// carried as their rendered message.
#[derive(Debug)]
pub enum WorkspaceError {
    Io(String),
    Json(String),
    Yaml(String),
    Config(String),
    Catalog(String),
    Git(String),
    Provider { provider: String, message: String },
    Workspace(String),
    Editor { editor: String, message: String },
    Command(String),
    NotFound(String),
    Validation(String),
    Other(String),
    UnknownAsset { requested: String, valid: Vec<String> },
}

/// The lines `"\n  - name"` for each valid asset name.
pub open spec fn asset_list_text(valid: Seq<String>) -> Seq<char>
    decreases valid.len(),
{
    if valid.len() == 0 {
        Seq::empty()
    } else {
        asset_list_text(valid.drop_last()) + "\n  - "@ + valid.last()@
    }
}

/// The message of an unknown `--reset` asset: the request, then one line
/// `"  - name"` per valid name.
pub open spec fn unknown_asset_text(requested: Seq<char>, valid: Seq<String>) -> Seq<char> {
    "unknown asset '"@ + requested + "'. Valid names:"@ + if valid.len() == 0 {
        "\n"@
    } else {
        asset_list_text(valid)
    }
}

/// The rendered message of an error.
pub open spec fn error_text(e: WorkspaceError) -> Seq<char> {
    match e {
        WorkspaceError::Io(m) => "I/O error: "@ + m@,
        WorkspaceError::Json(m) => "JSON serialization/deserialization error: "@ + m@,
        WorkspaceError::Yaml(m) => "YAML serialization/deserialization error: "@ + m@,
        WorkspaceError::Config(m) => "Configuration error: "@ + m@,
        WorkspaceError::Catalog(m) => "Catalog error: "@ + m@,
        WorkspaceError::Git(m) => "Git error: "@ + m@,
        WorkspaceError::Provider { provider, message } =>
            "Provider error ("@ + provider@ + "): "@ + message@,
        WorkspaceError::Workspace(m) => "Workspace creation failed: "@ + m@,
        WorkspaceError::Editor { editor, message } =>
            "Editor error ("@ + editor@ + "): "@ + message@,
        WorkspaceError::Command(m) => "Command execution error: "@ + m@,
        WorkspaceError::NotFound(m) => "Not found: "@ + m@,
        WorkspaceError::Validation(m) => "Validation failed: "@ + m@,
        WorkspaceError::Other(m) => "Other error: "@ + m@,
        WorkspaceError::UnknownAsset { requested, valid } =>
            unknown_asset_text(requested@, valid@),
    }
}

impl WorkspaceError {
    /// A provider error.
    pub fn provider(provider: &str, message: &str) -> (e: WorkspaceError)
        ensures
            e matches WorkspaceError::Provider { provider: p, message: m } && p@ == provider@
                && m@ == message@,
    {
        WorkspaceError::Provider { provider: owned(provider), message: owned(message) }
    }

    /// An editor error.
    pub fn editor(editor: &str, message: &str) -> (e: WorkspaceError)
        ensures
            e matches WorkspaceError::Editor { editor: p, message: m } && p@ == editor@
                && m@ == message@,
    {
        WorkspaceError::Editor { editor: owned(editor), message: owned(message) }
    }

    /// The human-readable message of this error.
    pub fn message(&self) -> (s: String)
        ensures
            s@ == error_text(*self),
    {
        match self {
            WorkspaceError::Io(m) => concat("I/O error: ", m.as_str()),
            WorkspaceError::Json(m) => concat(
                "JSON serialization/deserialization error: ",
                m.as_str(),
            ),
            WorkspaceError::Yaml(m) => concat(
                "YAML serialization/deserialization error: ",
                m.as_str(),
            ),
            WorkspaceError::Config(m) => concat("Configuration error: ", m.as_str()),
            WorkspaceError::Catalog(m) => concat("Catalog error: ", m.as_str()),
            WorkspaceError::Git(m) => concat("Git error: ", m.as_str()),
            WorkspaceError::Provider { provider, message } => {
                let mut s = concat("Provider error (", provider.as_str());
                push_str(&mut s, "): ");
                push_str(&mut s, message.as_str());
                s
            },
            WorkspaceError::Workspace(m) => concat("Workspace creation failed: ", m.as_str()),
            WorkspaceError::Editor { editor, message } => {
                let mut s = concat("Editor error (", editor.as_str());
                push_str(&mut s, "): ");
                push_str(&mut s, message.as_str());
                s
            },
            WorkspaceError::Command(m) => concat("Command execution error: ", m.as_str()),
            WorkspaceError::NotFound(m) => concat("Not found: ", m.as_str()),
            WorkspaceError::Validation(m) => concat("Validation failed: ", m.as_str()),
            WorkspaceError::Other(m) => concat("Other error: ", m.as_str()),
            WorkspaceError::UnknownAsset { requested, valid } => {
                let mut s = concat("unknown asset '", requested.as_str());
                push_str(&mut s, "'. Valid names:");
                let mut i: usize = 0;
                while i < valid.len()
                    invariant
                        i <= valid.len(),
                        s@ == "unknown asset '"@ + requested@ + "'. Valid names:"@
                            + asset_list_text(valid@.take(i as int)),
                    decreases valid.len() - i,
                {
                    push_str(&mut s, "\n  - ");
                    push_str(&mut s, valid[i].as_str());
                    assert(valid@.take(i + 1).drop_last() =~= valid@.take(i as int));
                    i += 1;
                }
                assert(valid@.take(valid.len() as int) =~= valid@);
                if valid.len() == 0 {
                    push_str(&mut s, "\n");
                }
                s
            },
        }
    }
}

} // verus!
