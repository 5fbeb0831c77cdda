use workspace::artifact::{gitattributes_suppression_ok, knowledge_graph_path, resolved_dir, LEGACY_DIR, PREFERRED_DIR};
use workspace::providers::{extract_integration_blocks, synced_agents_md};
use workspace::dex::{parse_created_id, status_change, DexProvider, DexTask, StatusChange};
use workspace::github::{list_repo_args, listing_page, repo_cache_path, GhRepo};

// ---- understand-anything artifact ----

#[test]
fn resolves_preferred_ua_dir_when_present() {
    let got = knowledge_graph_path("/repo", true, false).expect("should resolve");
    assert_eq!(got, "/repo/.ua/knowledge-graph.json");
    assert_eq!(resolved_dir(true, false), Some(PREFERRED_DIR));
}

#[test]
fn falls_back_to_legacy_dir() {
    let got = knowledge_graph_path("/repo", false, true).expect("should resolve via legacy");
    assert_eq!(got, "/repo/.understand-anything/knowledge-graph.json");
    assert_eq!(resolved_dir(false, true), Some(LEGACY_DIR));
}

#[test]
fn prefers_ua_over_legacy_when_both_present() {
    let got = knowledge_graph_path("/repo", true, true).expect("should resolve");
    assert_eq!(got, "/repo/.ua/knowledge-graph.json");
    assert_eq!(resolved_dir(true, true), Some(PREFERRED_DIR));
}

#[test]
fn returns_none_when_no_artifact() {
    assert!(knowledge_graph_path("/repo", false, false).is_none());
    assert_eq!(resolved_dir(false, false), None);
}

#[test]
fn gitattributes_accepts_preferred_ua_lines() {
    let body = ".ua/knowledge-graph.json binary -diff linguist-generated\n.ua/** linguist-generated\n";
    assert!(gitattributes_suppression_ok(body));
}

#[test]
fn gitattributes_accepts_legacy_dir_lines() {
    let body = ".understand-anything/knowledge-graph.json binary -diff linguist-generated\n.understand-anything/** linguist-generated\n";
    assert!(gitattributes_suppression_ok(body));
}

#[test]
fn gitattributes_rejects_unrelated_body() {
    assert!(!gitattributes_suppression_ok("# nothing relevant here\n"));
}

#[test]
fn gitattributes_rejects_unrelated_dir() {
    assert!(!gitattributes_suppression_ok(
        "some-other/knowledge-graph.json binary -diff linguist-generated\n"
    ));
}

#[test]
fn gitattributes_accepts_just_the_artifact_path_token() {
    let body = ".ua/knowledge-graph.json binary -diff linguist-generated\n";
    assert!(gitattributes_suppression_ok(body));
    let legacy = ".understand-anything/knowledge-graph.json binary -diff\n";
    assert!(gitattributes_suppression_ok(legacy));
}

// ---- dex ----

#[test]
fn parses_create_output_id() {
    let provider = DexProvider::new(None);
    let id = "Created task 8ahmcrng\n[ ] 8ahmcrng: Probe task\n";
    let parsed = parse_created_id(id).unwrap();
    assert_eq!(parsed, "8ahmcrng");
    assert_eq!(provider.default_project, "dex");
}

#[test]
fn created_id_absent_is_none() {
    assert_eq!(parse_created_id("[ ] nothing here\n"), None);
    assert_eq!(parse_created_id("  Created task   x1  \n").as_deref(), Some("x1"));
}

#[test]
fn task_to_issue_maps_hierarchy_and_status() {
    let task = DexTask {
        id: "abc123".to_string(),
        parent_id: None,
        name: "Epic thing".to_string(),
        description: Some("d".to_string()),
        completed: false,
        result: None,
        started_at: None,
    };
    let issue = task.to_issue("dex");
    assert_eq!(issue.issue_type, "Epic");
    assert_eq!(issue.status, "To Do");

    let task2 = DexTask {
        id: "child".to_string(),
        parent_id: Some("abc123".to_string()),
        name: "Sub".to_string(),
        description: None,
        completed: true,
        result: Some("done".to_string()),
        started_at: Some("2026-01-01T00:00:00.000Z".to_string()),
    };
    let issue2 = task2.to_issue("dex");
    assert_eq!(issue2.issue_type, "Task");
    assert_eq!(issue2.status, "Done");
}

#[test]
fn started_task_is_in_progress_and_status_changes() {
    let task = DexTask {
        id: "t".to_string(),
        parent_id: Some("p".to_string()),
        name: "n".to_string(),
        description: None,
        completed: false,
        result: None,
        started_at: Some("2026-01-01T00:00:00.000Z".to_string()),
    };
    assert_eq!(task.to_issue("dex").status, "In Progress");
    assert!(matches!(status_change("In Progress"), StatusChange::Start));
}

// ---- github listing ----

fn mock_repos(count: usize) -> Vec<GhRepo> {
    (1..=count)
        .map(|i| GhRepo {
            name: format!("repo{}", i),
            owner_login: "testowner".to_string(),
            url: format!("https://github.com/testowner/repo{}", i),
            ssh_url: format!("git@github.com:testowner/repo{}.git", i),
            default_branch: Some("main".to_string()),
            description: Some(format!("Repo {} description", i)),
            updated_at: Some("2026-06-22T08:00:00Z".to_string()),
        })
        .collect()
}

#[test]
fn test_list_recent_repos_defaults_to_50() {
    let args = list_repo_args(None, None, &Some("testowner".to_string()));
    assert_eq!(args[0], "repo");
    assert_eq!(args[1], "list");
    assert_eq!(args[2], "--limit");
    assert_eq!(args[3], "50");
    let res = listing_page(mock_repos(50), None, None);
    assert_eq!(res.len(), 50);
    assert_eq!(res[0].name, "repo1");
    assert_eq!(res[49].name, "repo50");
}

#[test]
fn test_list_recent_repos_pagination_page_2() {
    let args = list_repo_args(Some(10), Some(2), &Some("testowner".to_string()));
    assert_eq!(args[0], "repo");
    assert_eq!(args[1], "list");
    assert_eq!(args[2], "--limit");
    assert_eq!(args[3], "20"); // limit 10 * page 2
    let res = listing_page(mock_repos(20), Some(10), Some(2));
    assert_eq!(res.len(), 10);
    assert_eq!(res[0].name, "repo11");
    assert_eq!(res[9].name, "repo20");
}

#[test]
fn listing_summaries_carry_full_names_and_defaults() {
    let mut repos = mock_repos(3);
    repos[1].default_branch = None;
    let res = listing_page(repos, Some(2), Some(2));
    assert_eq!(res.len(), 1);
    assert_eq!(res[0].full_name, "testowner/repo3");
    assert_eq!(res[0].provider, "github");
    let res = listing_page(mock_repos(3), Some(2), Some(1));
    assert_eq!(res.len(), 2);
    let mut repos = mock_repos(2);
    repos[1].default_branch = None;
    let res = listing_page(repos, None, None);
    assert_eq!(res[1].default_branch, "main");
    assert_eq!(repo_cache_path("o", "n"), ".cache/repos/o/n.git");
    let args = list_repo_args(None, None, &None);
    assert_eq!(args.len(), 6);
}

#[test]
fn regenerated_agents_md_keeps_its_blocks() {
    let old = "# Old rules\nintro\n<!-- BEGIN jira -->\nuse PLAT\n<!-- END jira -->\nnoise\n  <!-- BEGIN slack -->\nchannel #dev\n<!-- END slack -->\n";
    let kept = extract_integration_blocks(old);
    assert_eq!(kept, "<!-- BEGIN jira -->\nuse PLAT\n<!-- END jira -->\n\n  <!-- BEGIN slack -->\nchannel #dev\n<!-- END slack -->\n");
    let body = "# AI Workspace Rules\n\nnew text".to_string();
    let written = synced_agents_md(body, &kept);
    assert_eq!(extract_integration_blocks(&written), kept);
    assert_eq!(extract_integration_blocks(&synced_agents_md("plain".to_string(), "")), "");
}
