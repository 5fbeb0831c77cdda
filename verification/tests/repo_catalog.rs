use workspace::catalog::{resolve_context, tokenize_query, validate_catalog, CatalogFileCheck, CatalogKind};
use workspace::healthcheck::{check_understand_anything, healthcheck_report, CheckStatus, ReadmeProbe, RepoProbe};
use workspace::models::{
    CatalogIssueTracking, CatalogRepo, CommandMap, DeployConfig, ProductAgent, ProductCatalog,
    ProductServices, ServiceCatalog, UnderstandAnythingConfig,
};
use workspace::repo_ops::{
    serve_next, serve_record, serve_stderr, serve_timed_out, serve_watch_new, ProbeOutcome, ServeAction,
    artifact_check, plan_run, verify_next, verify_record, verify_start, ArtifactRead, RepoRunInput,
    RunMode, VerifyAction,
};

fn service(commands: &[(&str, &str)]) -> ServiceCatalog {
    let mut m = CommandMap::new();
    for (k, v) in commands {
        m.insert(k.to_string(), v.to_string());
    }
    ServiceCatalog {
        id: "api".into(),
        name: "API".into(),
        kind: "service".into(),
        description: "payments api".into(),
        team: "platform".into(),
        products: vec!["checkout".into()],
        repo: CatalogRepo {
            provider: "github".into(),
            owner: "acme".into(),
            name: "api".into(),
            url: "git@github.com:acme/api.git".into(),
            default_branch: "main".into(),
        },
        owns: vec!["payments".into()],
        likely_relevant_when: vec!["refund".into()],
        commands: m,
        issue_tracking: CatalogIssueTracking { provider: "dex".into(), project: "PLAT".into(), component: None },
        docs: Vec::new(),
        understand_anything: None,
        deploy: Some(DeployConfig::Skip { skip: true, reason: Some("library".into()) }),
    }
}

#[test]
fn artifact_json_is_parsed_and_judged() {
    let (ok, ev) = artifact_check(&ArtifactRead::Text("[1, 2]".into()));
    assert!(ok);
    assert_eq!(ev, "artifact: ok (parses, non-empty); ");
    let (ok, ev) = artifact_check(&ArtifactRead::Text(" {} ".into()));
    assert!(!ok);
    assert_eq!(ev, "artifact: valid JSON but empty collection; ");
    let (ok, ev) = artifact_check(&ArtifactRead::Text("{bad".into()));
    assert!(!ok);
    assert!(ev.starts_with("artifact: invalid JSON: "), "{ev}");
    assert!(ev.contains("line 1"), "{ev}");
    let (ok, ev) = artifact_check(&ArtifactRead::Text("   ".into()));
    assert!(!ok);
    assert_eq!(ev, "artifact: present but empty; ");
    let (ok, _) = artifact_check(&ArtifactRead::Absent);
    assert!(!ok);
}

#[test]
fn run_plan_modes_and_refusals() {
    let svc = service(&[("test", "cargo test"), ("dev", "cargo run"), ("verify_run", "curl localhost"), ("deploy", "ship")]);
    let input = |c: &str| RepoRunInput { service_id: "api".into(), repo_path: "/r".into(), command: c.into(), timeout: None };
    let p = plan_run(&svc, &input("test")).ok().unwrap();
    assert_eq!(p.command_value, "cargo test");
    assert_eq!(p.mode, RunMode::Exit);
    assert_eq!(p.timeout_secs, 180);
    let p = plan_run(&svc, &input("dev")).ok().unwrap();
    assert_eq!(p.mode, RunMode::Serve);
    assert_eq!(p.probe.as_deref(), Some("curl localhost"));
    assert!(plan_run(&svc, &input("deploy")).is_err());
    assert!(plan_run(&svc, &input("install")).is_err());
}

#[test]
fn verify_runs_declared_steps_in_order_and_stops_on_failure() {
    let svc = service(&[("install", "i"), ("dev", "d"), ("test", "t"), ("agent_verify", "a"), ("verify_run", "v")]);
    let mut st = verify_start();
    let mut ran = Vec::new();
    loop {
        match verify_next(&svc, &mut st) {
            VerifyAction::Run(k) => {
                let pass = k != "agent_verify";
                ran.push(k.clone());
                verify_record(&mut st, &k, pass, false);
            }
            VerifyAction::Finish => break,
        }
    }
    // `test_integration` is optional and skipped when undeclared.
    assert_eq!(ran, vec!["install", "dev", "test", "agent_verify"]);
    assert_eq!(st.stopped_at.as_deref(), Some("agent_verify"));

    // An undeclared required step stops the run before anything else runs.
    let svc = service(&[("install", "i"), ("test", "t")]);
    let mut st = verify_start();
    assert!(matches!(verify_next(&svc, &mut st), VerifyAction::Run(ref k) if k == "install"));
    verify_record(&mut st, "install", true, false);
    assert!(matches!(verify_next(&svc, &mut st), VerifyAction::Finish));
    assert_eq!(st.stopped_at.as_deref(), Some("dev (not declared)"));
}

#[test]
fn healthcheck_report_counts_rows() {
    let svc = service(&[("install", "i"), ("test", "t")]);
    let probe = RepoProbe {
        gitattributes: None,
        named_workflow: false,
        artifact_preferred: false,
        artifact_legacy: false,
        readme: ReadmeProbe::Absent,
        agent_docs_on_disk: vec![false, false, false],
    };
    let report = healthcheck_report(&svc, "/r".into(), &probe, &None).ok().unwrap();
    assert_eq!(report.service_id, "api");
    assert_eq!(report.summary.total, report.rows.len());
    assert!(report.summary.blocking_failures > 0);
    let err = healthcheck_report(&svc, "/r".into(), &probe, &Some("99".into())).err().unwrap();
    assert!(err.message().contains("99"), "{}", err.message());
}

#[test]
fn catalog_validation_reports_the_first_invalid_file() {
    let checks = vec![
        CatalogFileCheck { kind: CatalogKind::Service, path: "catalog/services/a.yaml".into(), error: None },
        CatalogFileCheck { kind: CatalogKind::Product, path: "catalog/products/p.yaml".into(), error: Some("bad".into()) },
        CatalogFileCheck { kind: CatalogKind::Team, path: "catalog/teams/t.yaml".into(), error: Some("worse".into()) },
    ];
    let err = validate_catalog(&checks).err().unwrap();
    assert!(err.message().contains("catalog/products/p.yaml"), "{}", err.message());
    let fine = vec![CatalogFileCheck { kind: CatalogKind::Service, path: "catalog/services/a.yaml".into(), error: None }];
    assert!(validate_catalog(&fine).is_ok());
}

#[test]
fn context_resolution_finds_services_by_terms() {
    assert_eq!(tokenize_query("Refund, the API!"), vec!["refund", "the", "api"]);
    let product = ProductCatalog {
        id: "checkout".into(),
        name: "Checkout".into(),
        kind: "product".into(),
        description: "Checkout flows".into(),
        agent: ProductAgent { name: "A".into(), instructions: "I".into() },
        knowledge_sources: Vec::new(),
        services: ProductServices { primary: vec!["api".into()], related: Vec::new() },
        routing_rules: Vec::new(),
    };
    let products = vec![product];
    let out = resolve_context("refund in checkout".into(), &products, &vec![service(&[])]);
    assert_eq!(out.products, vec!["checkout"]);
    // One scenario term is not enough when the query has several tokens.
    assert!(out.recommended_services.is_empty());
    let out = resolve_context("fix the api refund".into(), &products, &vec![service(&[])]);
    assert_eq!(out.recommended_services.len(), 1);
    assert_eq!(out.recommended_services[0].id, "api");
    assert_eq!(out.recommended_services[0].reason, "Service name or ID matches query.");
    let out = resolve_context("refund".into(), &products, &vec![service(&[])]);
    assert_eq!(out.recommended_services[0].reason, "Matches typical scenario: 'refund'");
}

#[test]
fn serve_watch_probes_pauses_and_stops() {
    let probe = Some("curl -sf localhost:3000".to_string());
    let mut w = serve_watch_new();
    assert!(matches!(serve_next(&mut w, &probe, true), ServeAction::Probe(ref p) if p == "curl -sf localhost:3000"));
    serve_record(&mut w, ProbeOutcome::Failed { exit_code: Some(7), stdout: "refused".into() });
    assert!(matches!(serve_next(&mut w, &probe, true), ServeAction::Pause));
    serve_record(&mut w, ProbeOutcome::SpawnError("no sh".into()));
    assert_eq!(w.probe_log, "[probe exit 7] refused[probe spawn error: no sh]\n");
    assert!(matches!(serve_next(&mut w, &probe, true), ServeAction::Pause));
    assert!(matches!(serve_next(&mut w, &probe, true), ServeAction::Probe(_)));
    serve_record(&mut w, ProbeOutcome::Passed);
    assert!(matches!(serve_next(&mut w, &probe, true), ServeAction::Stop));
    assert!(!serve_timed_out(&w, true));
    assert_eq!(
        serve_stderr("tail".into(), &w.probe_log),
        "tail\n--- verify_run probe log ---\n[probe exit 7] refused[probe spawn error: no sh]\n"
    );

    // Without a probe nothing can confirm the service; the deadline ends it.
    let mut w = serve_watch_new();
    assert!(matches!(serve_next(&mut w, &None, true), ServeAction::Pause));
    assert!(matches!(serve_next(&mut w, &None, false), ServeAction::Stop));
    assert!(serve_timed_out(&w, true));
    assert_eq!(serve_stderr("t".into(), ""), "t");
}

fn ua_probe(gitattributes: Option<&str>, named_workflow: bool, preferred: bool, legacy: bool) -> RepoProbe {
    RepoProbe {
        gitattributes: gitattributes.map(|s| s.to_string()),
        named_workflow,
        artifact_preferred: preferred,
        artifact_legacy: legacy,
        readme: ReadmeProbe::Absent,
        agent_docs_on_disk: vec![false, false, false],
    }
}

#[test]
fn understand_anything_accepts_the_preferred_ua_dir() {
    let mut svc = service(&[]);
    svc.understand_anything = Some(UnderstandAnythingConfig { enabled: true });
    let attrs = ".ua/knowledge-graph.json binary -diff linguist-generated\n.ua/** linguist-generated\n";
    let row = check_understand_anything(&svc, &ua_probe(Some(attrs), true, true, false));
    assert_eq!(row.status, CheckStatus::Present);
    assert_eq!(row.evidence, "enabled=true; gitattributes=yes workflow=yes artifact=yes");
    let legacy = ".understand-anything/knowledge-graph.json binary -diff linguist-generated\n";
    let row = check_understand_anything(&svc, &ua_probe(Some(legacy), true, false, true));
    assert_eq!(row.status, CheckStatus::Present);
}

#[test]
fn understand_anything_needs_the_named_workflow() {
    let mut svc = service(&[]);
    svc.understand_anything = Some(UnderstandAnythingConfig { enabled: true });
    let attrs = ".ua/knowledge-graph.json binary -diff linguist-generated\n";
    let row = check_understand_anything(&svc, &ua_probe(Some(attrs), false, true, false));
    assert_eq!(row.status, CheckStatus::Partial);
    assert_eq!(row.evidence, "enabled=true; gitattributes=yes workflow=no artifact=yes");
    let row = check_understand_anything(&svc, &ua_probe(None, false, false, false));
    assert_eq!(row.status, CheckStatus::Missing);
    svc.understand_anything = None;
    let row = check_understand_anything(&svc, &ua_probe(Some(attrs), true, true, true));
    assert_eq!(row.status, CheckStatus::NotDeclared);
}
