use workspace::lifecycle::{RepoStatus, TaskStatusOutput, WorkspaceStatusOutput};
use workspace::models::{CodeProviderConfig, DocProviderConfig, EditorConfig, IssueProviderConfig, LocalConfig, PathConfig, Workspace};
use workspace::screens::{
    ambiguous_token, candidate_lines, catalog_status_lines, chosen_row, config_status_lines,
    detail_lines, rows_lines, workspace_list_lines, workspace_status_lines,
};
use workspace::tasks::{build_task_rows, fmt_age, match_rows, open_workspace_path, row_line, truncate, WorkspaceRows};
use workspace::workspaces::{list_workspaces, resolve_workspace, WorkspaceOnDisk};

fn ws(id: &str, ticket: Option<&str>, title: &str, description: &str, services: &[&str]) -> Workspace {
    Workspace {
        id: id.to_string(),
        ticket: ticket.map(|t| t.to_string()),
        title: title.to_string(),
        description: description.to_string(),
        created_at: None,
        services: services.iter().map(|s| s.to_string()).collect(),
        base_branch: "main".to_string(),
        create_branches: true,
        editor: "cursor".to_string(),
        tasks: Vec::new(),
    }
}

fn on_disk(folder: &str, w: Workspace) -> WorkspaceOnDisk {
    WorkspaceOnDisk { folder: folder.to_string(), ws: w }
}

fn rows_of(entries: Vec<WorkspaceOnDisk>) -> Vec<workspace::tasks::TaskRow> {
    let sorted = list_workspaces(entries);
    let wr: Vec<WorkspaceRows> = sorted
        .into_iter()
        .map(|e| WorkspaceRows { entry: e, repo_statuses: Vec::new(), task_statuses: Vec::new(), age: None })
        .collect();
    build_task_rows(&wr)
}

fn two_fixtures() -> Vec<WorkspaceOnDisk> {
    vec![
        on_disk(
            "realtime-chat",
            ws("realtime-chat", None, "Realtime Chat", "A realtime chat agent for the web", &["api", "web"]),
        ),
        on_disk(
            "EPIC-123-notifications",
            ws("notifications", Some("EPIC-123"), "Notifications", "Push notification pipeline", &["api"]),
        ),
    ]
}

fn listing(rows: &Vec<workspace::tasks::TaskRow>) -> String {
    rows_lines(rows, "/root/workspaces").join("\n")
}

fn open(rows: &Vec<workspace::tasks::TaskRow>, token: &str) -> Result<String, String> {
    let m = match_rows(rows, token).map_err(|e| e.message())?;
    if m.len() == 1 {
        Ok(open_workspace_path("/root", &rows[m[0]]))
    } else {
        let mut msg = candidate_lines(rows, token, &m).join("\n");
        msg.push_str(&ambiguous_token(token).message());
        Err(msg)
    }
}

#[test]
fn tasks_list_lists_unticketed_and_attached() {
    let rows = rows_of(two_fixtures());
    let s = listing(&rows);
    assert!(s.contains("realtime-chat"), "list should include workspace id: {}", s);
    assert!(s.contains("unticketed"), "unticketed marker expected: {}", s);
    assert!(s.contains("EPIC-123"), "ticket must appear: {}", s);
    assert!(s.contains("A realtime chat agent for the web"), "description should travel with the row: {}", s);
}

#[test]
fn tasks_empty_root_prints_guidance() {
    let s = listing(&Vec::new());
    assert!(s.contains("No open feature workspaces"), "{}", s);
}

#[test]
fn tasks_show_expands_a_row() {
    let rows = rows_of(vec![on_disk(
        "realtime-chat",
        ws("realtime-chat", None, "Realtime Chat", "A realtime chat agent for the web", &["api"]),
    )]);
    let m = match_rows(&rows, "realtime-chat").ok().unwrap();
    let row = &rows[m[0]];
    let e = resolve_workspace(
        vec![on_disk(
            "realtime-chat",
            ws("realtime-chat", None, "Realtime Chat", "A realtime chat agent for the web", &["api"]),
        )],
        "/root",
        &row.folder,
    )
    .ok()
    .unwrap();
    let s = detail_lines(&e.ws, &e.folder, "/root/workspaces/realtime-chat", row.age, &Vec::new(), &Vec::new(), &row.task_slug)
        .join("\n");
    assert!(s.contains("Workspace: realtime-chat"), "{}", s);
    assert!(s.contains("unticketed"), "{}", s);
    assert!(s.contains("realtime-chat"), "folder: {}", s);
    assert!(s.contains("/workspaces/realtime-chat"), "absolute path: {}", s);
    assert!(s.contains("base_branch:  main"), "{}", s);
}

#[test]
fn tasks_open_prints_path_for_cd() {
    let rows = rows_of(two_fixtures());
    let path = open(&rows, "realtime-chat").unwrap();
    assert!(path.ends_with("/workspaces/realtime-chat/repos/api"), "open by id: {}", path);
    let path = open(&rows, "EPIC-123").unwrap();
    assert!(path.ends_with("/workspaces/EPIC-123-notifications/repos/api"), "open by ticket: {}", path);
}

#[test]
fn tasks_open_matches_description_semantically() {
    let rows = rows_of(vec![on_disk(
        "odd-name",
        ws("odd-name", None, "RTC", "A realtime chat agent for the web", &["api"]),
    )]);
    let path = open(&rows, "realtime").unwrap();
    assert!(path.ends_with("/workspaces/odd-name/repos/api"), "description match must resolve the workspace: {}", path);
}

#[test]
fn tasks_open_resolves_by_list_index() {
    let rows = rows_of(vec![
        on_disk("beta", ws("beta", None, "Beta", "second fixture workspace", &["api"])),
        on_disk("alpha", ws("alpha", None, "Alpha", "first fixture workspace", &["api"])),
    ]);
    let path = open(&rows, "1").unwrap();
    assert!(path.ends_with("/workspaces/alpha/repos/api"), "{}", path);
}

#[test]
fn tasks_ambiguous_token_lists_candidates_and_fails() {
    let rows = rows_of(vec![
        on_disk("one", ws("one", None, "One", "payment checkout flows", &["api"])),
        on_disk("two", ws("two", None, "Two", "payment payout flows", &["api"])),
    ]);
    let combined = open(&rows, "payment").err().unwrap();
    assert!(
        combined.to_lowercase().contains("ambiguous") && combined.contains("2 candidates"),
        "candidate list expected: {}",
        combined
    );
    let m = match_rows(&rows, "payment").ok().unwrap();
    let picked = row_line(&rows[1], Some(2));
    assert_eq!(chosen_row(&rows, &m, &picked), Some(1));
    assert_eq!(chosen_row(&rows, &m, "not a line"), None);
}

#[test]
fn status_reports_unticketed_workspace() {
    let out = WorkspaceStatusOutput {
        folder: "realtime-chat".into(),
        id: "realtime-chat".into(),
        ticket: None,
        title: "Realtime Chat".into(),
        description: "A realtime chat agent for the web".into(),
        services: vec!["api".into()],
        base_branch: "main".into(),
        create_branches: true,
        editor: "cursor".into(),
        tasks: Vec::new(),
        repo_statuses: Vec::new(),
    };
    let s = workspace_status_lines(&out).join("\n");
    assert!(s.contains("unticketed"), "{}", s);
    assert!(s.contains("Workspace realtime-chat"), "{}", s);
}

fn status(svc: &str, branch: &str, dirty: bool, ahead: Option<u64>) -> RepoStatus {
    RepoStatus {
        service_id: svc.into(),
        branch: branch.into(),
        current_commit: "0123456789abcdef".into(),
        baseline_commit: "fedcba9876543210".into(),
        has_changes: dirty,
        unpushed_count: ahead,
    }
}

#[test]
fn workspace_report_lists_worktrees_and_tasks() {
    let out = WorkspaceStatusOutput {
        folder: "EPIC-1-x".into(),
        id: "x".into(),
        ticket: Some("EPIC-1".into()),
        title: String::new(),
        description: String::new(),
        services: vec!["api".into()],
        base_branch: "main".into(),
        create_branches: false,
        editor: "zed".into(),
        tasks: vec![TaskStatusOutput {
            key: "T-1".into(),
            slug: "t1".into(),
            branch: "x-t1".into(),
            repo_statuses: vec![("api".into(), status("api", "x-t1", true, None))],
        }],
        repo_statuses: vec![("api".into(), status("api", "x", false, Some(3)))],
    };
    let lines = workspace_status_lines(&out);
    assert_eq!(
        lines,
        vec![
            "Workspace x (EPIC-1-x)",
            "  ticket:      EPIC-1",
            "  Base branch:     main",
            "  Created branches: false",
            "  Preferred editor: zed",
            "\nRepository worktree details:",
            "  - service: api",
            "    branch:  x",
            "    current: 0123456789abcdef",
            "    unpushed: 3",
            "    changes: No",
            "\nTask worktrees:",
            "  - task: T-1 (t1) on x-t1",
            "      - service: api | branch: x-t1 | changes: yes",
        ]
    );
}

#[test]
fn detail_shows_statuses_and_defaults() {
    let mut w = ws("x", None, "", "", &["api", "web"]);
    w.created_at = Some("2024-01-01".into());
    let repos = vec![("api".to_string(), status("api", "feature/x", true, Some(2)))];
    let tasks = vec![TaskStatusOutput {
        key: "T-1".into(),
        slug: "t1".into(),
        branch: "x-t1".into(),
        repo_statuses: vec![("api".into(), status("api", "x-t1", false, None))],
    }];
    let lines = detail_lines(&w, "x", "/r/workspaces/x", Some(Some(7200)), &repos, &tasks, &Some("t1".into()));
    assert_eq!(
        lines,
        vec![
            "Workspace: x",
            "  ticket:       unticketed",
            "  folder:       x",
            "  path:         /r/workspaces/x",
            "  created:      2024-01-01",
            "  last changed: 2h",
            "  base_branch:  main",
            "  services:",
            "    api: path /r/workspaces/x/repos/api | branch feature/x | baseline fedcba98 | dirty yes | unpushed 2",
            "    web: path /r/workspaces/x/repos/web | branch ? | baseline unknown | dirty no | unpushed n/a",
            "  tasks:",
            "    T-1 (t1): branch x-t1",
            "      api: branch x-t1 ",
            "  selected task: t1",
        ]
    );
}

fn config() -> LocalConfig {
    LocalConfig {
        issue_provider: IssueProviderConfig { provider_type: "dex".into(), base_url: None, default_project: None },
        code_provider: CodeProviderConfig { provider_type: "github-gh".into(), default_owner: None, protocol: None },
        doc_provider: Some(DocProviderConfig { provider_type: "confluence".into(), base_url: None, default_space: None }),
        editor: EditorConfig { default: "cursor".into() },
        paths: PathConfig { cache_dir: ".cache/repos".into(), workspaces_dir: "workspaces".into() },
    }
}

#[test]
fn status_overview_sections() {
    assert_eq!(
        config_status_lines(&config()),
        vec![
            "Configuration status:",
            "  Code provider: github-gh",
            "  Issue provider: dex",
            "  Doc provider:   confluence",
            "  Default editor: cursor\n",
        ]
    );
    assert_eq!(
        catalog_status_lines(3, 1, 0),
        vec!["Catalog database status:", "  Services: 3 registered", "  Products: 1 registered", "  Teams: 0 registered\n"]
    );
    assert_eq!(workspace_list_lines(&Vec::new()), vec!["Local active workspaces:", "  *(None found)*"]);
    let long = "x".repeat(60);
    let got = workspace_list_lines(&vec![on_disk("f", ws("f", Some("T-9"), "t", &long, &[]))]);
    assert_eq!(got[1], format!("  - f  [T-9]  {}...", "x".repeat(45)));
}

#[test]
fn text_helpers() {
    assert_eq!(truncate("abcdef", 5), "ab...");
    assert_eq!(truncate("abc", 5), "abc");
    assert_eq!(fmt_age(Some(59)), "59s");
    assert_eq!(fmt_age(Some(61)), "1m");
    assert_eq!(fmt_age(Some(90000)), "1d");
    assert_eq!(fmt_age(None), "now");
}
