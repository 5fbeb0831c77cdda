use workspace::models::Workspace;
use workspace::workspaces::{list_workspaces, resolve_workspace, slugify, workspace_dir_name, WorkspaceOnDisk};

fn ws(id: &str, ticket: Option<&str>) -> Workspace {
    Workspace {
        id: id.to_string(),
        ticket: ticket.map(|t| t.to_string()),
        title: id.to_string(),
        description: String::new(),
        created_at: None,
        services: vec!["api".to_string()],
        base_branch: "main".to_string(),
        create_branches: true,
        editor: "cursor".to_string(),
        tasks: Vec::new(),
    }
}

fn entry(folder: &str, w: Workspace) -> WorkspaceOnDisk {
    WorkspaceOnDisk { folder: folder.to_string(), ws: w }
}

#[test]
fn slugify_kebabs_titles() {
    assert_eq!(slugify("Realtime Chat Agent"), "realtime-chat-agent");
    assert_eq!(slugify("EPIC-123 Realtime!"), "epic-123-realtime");
    assert_eq!(slugify("  Mixed  CASE "), "mixed-case");
    assert_eq!(slugify("!!!"), "workspace");
}

#[test]
fn folder_name_follows_ticket_then_slug() {
    assert_eq!(workspace_dir_name(&ws("realtime-chat", None)), "realtime-chat");
    assert_eq!(
        workspace_dir_name(&ws("realtime-chat", Some("EPIC-123"))),
        "EPIC-123-realtime-chat"
    );
    // Blank ticket is treated as unticketed.
    assert_eq!(workspace_dir_name(&ws("a", Some("  "))), "a");
}

#[test]
fn resolve_prefers_exact_id_over_component_prefix() {
    let root = "/tmp/root";
    let entries = || vec![entry("calc", ws("calc", None)), entry("realtime-chat", ws("realtime-chat", None))];
    // Exact id wins.
    let got = resolve_workspace(entries(), root, "realtime-chat").unwrap();
    assert_eq!(got.folder, "realtime-chat");
    // Component prefix fallback: `q-` matches a full slug component.
    let got = resolve_workspace(entries(), root, "realtime").unwrap();
    assert_eq!(got.folder, "realtime-chat");
    // And ticket-prefix fallback for an attached workspace.
    let mut more = entries();
    more.push(entry("EPIC-123-billing", ws("billing", Some("EPIC-123"))));
    let got = resolve_workspace(more, root, "EPIC-123").unwrap();
    assert_eq!(got.folder, "EPIC-123-billing");
}

#[test]
fn resolve_matches_by_ticket_and_rejects_ambiguity() {
    let root = "/tmp/root";
    let base = || vec![entry("EPIC-1-a", ws("a", Some("EPIC-1"))), entry("EPIC-2-b", ws("b", Some("EPIC-2")))];
    let got = resolve_workspace(base(), root, "EPIC-1").unwrap();
    assert_eq!(got.folder, "EPIC-1-a");

    // One shared id prefix → ambiguous.
    let mut more = base();
    more.push(entry("extra", ws("a", None)));
    let err = resolve_workspace(more, root, "a").err().unwrap();
    let msg = err.message();
    assert!(
        msg.contains("matches multiple") || msg.contains("ambiguous"),
        "ambiguous duplicate id should error: {}",
        msg
    );
}

#[test]
fn resolve_not_found_with_clear_message() {
    let err = resolve_workspace(Vec::new(), "/tmp/root", "ghost").err().unwrap();
    assert!(err.message().contains("No workspace matches"), "{}", err.message());
}

#[test]
fn resolve_rejects_blank_query() {
    let err = resolve_workspace(vec![entry("a", ws("a", None))], "/tmp/root", "   ").err().unwrap();
    assert_eq!(err.message(), "Validation failed: Workspace query must not be empty.");
}

#[test]
fn list_workspaces_orders_by_folder() {
    let got = list_workspaces(vec![
        entry("beta", ws("beta", None)),
        entry("EPIC-9-z", ws("z", Some("EPIC-9"))),
        entry("alpha", ws("alpha", None)),
    ]);
    let folders: Vec<&str> = got.iter().map(|e| e.folder.as_str()).collect();
    assert_eq!(folders, vec!["EPIC-9-z", "alpha", "beta"]);
    assert_eq!(got[0].ws.id, "z");
    assert!(list_workspaces(Vec::new()).is_empty());
}

#[test]
fn slug_of_a_slug_is_itself() {
    for title in ["Realtime Chat Agent", "  --Fix: Payments (v2)!! ", "???", "ABC_def-123"] {
        let s = slugify(title);
        assert_eq!(slugify(&s), s);
        assert!(s.chars().all(|c| c == '-' || c.is_ascii_digit() || c.is_ascii_lowercase()), "{s}");
    }
}
