use workspace::atlassian::{basic_authorization, ConfluenceProvider};
use workspace::docs::{generate_command_docs, CommandDoc};
use workspace::models::RepoSummary;
use workspace::setup::{
    find_workspace_root, get_config_path, installable_skills, new_product, new_team, skill_link_target,
    split_repo_name,
};

#[test]
fn missing_skill_is_skipped_not_fatal() {
    let embedded = vec!["ws-repo-init".to_string(), "ws-self-heal".to_string()];
    let installed = installable_skills(&vec!["ws-repo-init".to_string(), "does-not-exist".to_string()], &embedded);
    assert_eq!(installed, vec!["ws-repo-init".to_string()], "only the present skill should be reported");
}

#[test]
fn installs_curated_skills_at_repo_level() {
    let embedded = vec!["ws-repo-init".to_string(), "ws-self-heal".to_string()];
    let installed = installable_skills(&embedded.clone(), &embedded);
    assert_eq!(
        installed,
        vec!["ws-repo-init".to_string(), "ws-self-heal".to_string()],
        "both curated skills should be installed and reported in order"
    );
    for name in &installed {
        assert_eq!(skill_link_target(name), format!("../../.agents/skills/{name}"));
    }
}

#[test]
fn workspace_root_is_the_nearest_marked_ancestor() {
    let levels = vec![("/a/b/c".to_string(), false), ("/a/b".to_string(), true), ("/a".to_string(), true)];
    assert_eq!(find_workspace_root(&levels).as_deref(), Some("/a/b"));
    let unmarked = vec![("/a/b".to_string(), false), ("/".to_string(), false)];
    assert_eq!(find_workspace_root(&unmarked).as_deref(), Some("/a/b"));
    assert_eq!(find_workspace_root(&Vec::new()), None);
    assert_eq!(get_config_path("/r"), "/r/.ws/config.yaml");
}

#[test]
fn repo_names_split_or_use_the_default_owner() {
    let (o, r) = split_repo_name("acme/api", &None).ok().unwrap();
    assert_eq!((o.as_str(), r.as_str()), ("acme", "api"));
    let (o, r) = split_repo_name("api", &Some("me".into())).ok().unwrap();
    assert_eq!((o.as_str(), r.as_str()), ("me", "api"));
    let err = split_repo_name("a/b/c", &None).err().unwrap();
    assert_eq!(
        err.message(),
        "Validation failed: Specify full name <owner>/<repo> or set default code-owner config."
    );
}

#[test]
fn products_and_teams_get_lowercase_ids() {
    let p = new_product("Checkout ÉLAN");
    assert_eq!(p.id, "checkout élan");
    assert_eq!(p.agent.name, "Checkout ÉLAN Agent");
    let t = new_team("Platform");
    assert_eq!(t.id, "platform");
    assert_eq!(t.description, "Team Platform");
}

#[test]
fn encodings_match_their_crates() {
    assert_eq!(basic_authorization("user@x.io", "tok"), "Basic dXNlckB4LmlvOnRvaw==");
    assert_eq!(
        ConfluenceProvider::page_search_url("https://c.example", "ENG", "Q3 plan/ä"),
        "https://c.example/wiki/rest/api/content?spaceKey=ENG&title=Q3%20plan%2F%C3%A4&expand=body.storage"
    );
    assert_eq!(
        ConfluenceProvider::page_search_url("https://c.example/", "ENG", "Q3 plan"),
        "https://c.example/wiki/rest/api/content?spaceKey=ENG&title=Q3%20plan&expand=body.storage"
    );
    assert_eq!(
        ConfluenceProvider::page_url("https://c.example//", "42", true),
        "https://c.example/wiki/rest/api/content/42?expand=version,space"
    );
    assert_eq!(ConfluenceProvider::next_version(7), 8);
    assert_eq!(
        ConfluenceProvider::version_unavailable("42", "404").message(),
        "Provider error (confluence): Failed to get version for page 42: status 404"
    );
}

#[test]
fn command_docs_are_sorted_by_id() {
    let docs = generate_command_docs(vec![
        CommandDoc { id: "z.cmd".into(), description: "Z".into(), input_schema: Some("{}".into()), output_schema: None },
        CommandDoc { id: "a.cmd".into(), description: "A".into(), input_schema: None, output_schema: Some("{\"x\":1}".into()) },
    ]);
    let expected = "# AI Command API Documentation\n\nThis document defines the list of typed JSON commands supported by the AI workspace interface.\n\n\
## `a.cmd`\n\n**Description:** A\n\n### Input Schema\n\n*(No input schema available)*\n\n### Output Schema\n\n```json\n{\"x\":1}\n```\n\n---\n\n\
## `z.cmd`\n\n**Description:** Z\n\n### Input Schema\n\n```json\n{}\n```\n\n### Output Schema\n\n*(No output schema available)*\n\n---\n\n";
    assert_eq!(docs, expected);
}

#[test]
fn repo_summary_type_is_plain() {
    let r = RepoSummary {
        provider: "github".into(),
        owner: "o".into(),
        name: "n".into(),
        full_name: "o/n".into(),
        url: "u".into(),
        ssh_url: "s".into(),
        default_branch: "main".into(),
        description: None,
        updated_at: None,
    };
    assert_eq!(r.full_name, "o/n");
}
