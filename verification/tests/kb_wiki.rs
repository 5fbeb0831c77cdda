use workspace::kb::{render_summary, run_init, scaffold, AssetId, AssetReport, AssetStatus};
use workspace::lint::{extract_wikilink_targets, lint, wiki_page_slug, FindingType, LintFinding};

fn all_paths() -> Vec<String> {
    AssetId::all().iter().map(|a| a.relative_path().to_string()).collect()
}

#[test]
fn from_arg_rejects_unknown_name_lists_valid_names() {
    let err = AssetId::from_arg("does-not-exist.md").err().unwrap();
    assert_eq!(err.requested, "does-not-exist.md");
    assert_eq!(err.valid, AssetId::valid_names());
    assert_eq!(err.valid.len(), 13);
    assert!(err.message().contains("does-not-exist.md"));
    assert!(err.message().contains("SCHEMA.md"));
}

#[test]
fn from_arg_accepts_each_valid_name() {
    for id in AssetId::all() {
        assert_eq!(AssetId::from_arg(id.relative_path()).ok(), Some(id));
    }
}

#[test]
fn scaffold_writes_full_tree_from_embedded_assets() {
    let report = scaffold(None, &Vec::new());
    assert!(report.assets.len() >= 10);
    assert_eq!(report.assets.len(), all_paths().len(), "report should record one entry per embedded file");
    assert!(
        report.assets.iter().all(|a| a.status == AssetStatus::Written),
        "fresh scaffold should mark every asset as Written"
    );
    let paths: Vec<String> = report.assets.iter().map(|a| a.path.clone()).collect();
    assert_eq!(paths, all_paths());
}

#[test]
fn scaffold_skips_existing_files_on_rerun() {
    let first = scaffold(None, &Vec::new());
    let second = scaffold(None, &all_paths());
    assert_eq!(second.assets.len(), first.assets.len(), "re-run should report the same asset set as the first run");
    assert!(
        second.assets.iter().all(|a| a.status == AssetStatus::Skipped),
        "re-run on a fully-populated tree should mark every asset as Skipped"
    );
}

#[test]
fn scaffold_fills_only_missing_files_on_partial_tree() {
    let pre_existing_rel = "wiki/index.md";
    let report = scaffold(None, &vec![pre_existing_rel.to_string()]);
    assert_eq!(report.assets.len(), all_paths().len());
    let pre = report.assets.iter().find(|a| a.path == pre_existing_rel).unwrap();
    assert_eq!(pre.status, AssetStatus::Skipped);
    assert!(
        report
            .assets
            .iter()
            .filter(|a| a.path != pre_existing_rel)
            .all(|a| a.status == AssetStatus::Written),
        "all other assets should be Written (gaps filled)"
    );
}

#[test]
fn reset_rewrites_exactly_the_named_asset() {
    let target = AssetId::Schema;
    let report = scaffold(Some(target), &all_paths());
    assert_eq!(
        report.assets,
        vec![AssetReport { path: target.relative_path().to_string(), status: AssetStatus::Refreshed }]
    );
}

#[test]
fn reset_touches_nothing_beside_the_named_asset() {
    let target = AssetId::WikiIndex;
    let report = scaffold(Some(target), &all_paths());
    assert_eq!(
        report.assets,
        vec![AssetReport { path: target.relative_path().to_string(), status: AssetStatus::Refreshed }]
    );
}

#[test]
fn reset_is_idempotent_on_same_embedded_bytes() {
    let target = AssetId::Readme;
    let first = scaffold(Some(target), &all_paths());
    let second = scaffold(Some(target), &all_paths());
    assert_eq!(first.assets, second.assets);
    assert_eq!(
        first.assets,
        vec![AssetReport { path: target.relative_path().to_string(), status: AssetStatus::Refreshed }]
    );
}

#[test]
fn run_init_default_renders_header_and_tally() {
    let (_report, summary) = run_init(None, &Vec::new()).ok().unwrap();
    assert!(summary.starts_with("Knowledge base scaffold:\n"), "{summary:?}");
    let n = all_paths().len();
    assert_eq!(summary.lines().filter(|l| !l.is_empty()).count().saturating_sub(2), n);
    assert!(summary.ends_with(&format!("\n{} written, {} skipped.", n, 0)), "{summary:?}");
}

#[test]
fn run_init_reset_renders_refresh_header_and_tally() {
    let (_report, summary) = run_init(Some("SCHEMA.md"), &all_paths()).ok().unwrap();
    assert!(summary.starts_with("Knowledge base reset:\n"), "{summary:?}");
    assert!(summary.contains("refreshed"));
    assert!(summary.contains("SCHEMA.md"));
    assert!(summary.ends_with("\n1 refreshed."));
}

#[test]
fn run_init_reset_unknown_name_errors_propagating_valid_list() {
    let err = run_init(Some("bogus.md"), &Vec::new()).err().unwrap();
    let msg = err.message();
    assert!(msg.contains("bogus.md"), "error must name the request: {msg}");
    assert!(msg.contains("SCHEMA.md"), "error must list a valid name: {msg}");
}

#[test]
fn run_init_without_reset_skips_what_exists() {
    let existing = vec!["SCHEMA.md".to_string(), "wiki/index.md".to_string()];
    let (report, summary) = run_init(None, &existing).ok().unwrap();
    assert_eq!(report.assets.len(), 13);
    for a in &report.assets {
        let want = if existing.contains(&a.path) { AssetStatus::Skipped } else { AssetStatus::Written };
        assert_eq!(a.status, want, "{}", a.path);
    }
    assert!(summary.ends_with("\n11 written, 2 skipped."), "{summary:?}");
}

#[test]
fn summary_lines_are_exact() {
    let report = scaffold(None, &vec!["SCHEMA.md".to_string()]);
    let s = render_summary(&report, false);
    assert!(s.contains("\n  skipped    SCHEMA.md\n"), "{s:?}");
    assert!(s.contains("\n  written    README.md\n"), "{s:?}");
    assert!(s.ends_with("\n12 written, 1 skipped."), "{s:?}");
}

// ---- wiki lint ----

fn lint_files(files: &[(&str, &str)]) -> Vec<LintFinding> {
    let mut pages = Vec::new();
    let mut docs = Vec::new();
    for (rel, contents) in files {
        docs.push((rel.to_string(), contents.to_string()));
        let name = rel.rsplit('/').next().unwrap();
        if let Some(slug) = wiki_page_slug(name) {
            pages.push((slug, rel.to_string()));
        }
    }
    lint(&pages, &docs)
}

#[test]
fn clean_wiki_yields_no_findings() {
    let findings = lint_files(&[
        ("topics/revenue.md", "# Revenue\nSee [[pricing]].\n"),
        ("topics/pricing.md", "# Pricing\nDrives [[revenue]].\n"),
    ]);
    assert!(findings.is_empty(), "clean wiki should yield no findings, got: {findings:?}");
}

#[test]
fn orphan_page_is_reported() {
    let findings = lint_files(&[
        ("topics/revenue.md", "# Revenue\nSee [[pricing]].\n"),
        ("topics/pricing.md", "# Pricing\nNothing here.\n"),
    ]);
    let orphans: Vec<_> = findings.iter().filter(|f| f.finding_type == FindingType::Orphan).collect();
    assert_eq!(orphans.len(), 1, "expected exactly one orphan: {findings:?}");
    assert_eq!(orphans[0].page, "topics/revenue.md");
}

#[test]
fn broken_wikilink_is_reported() {
    let findings = lint_files(&[
        ("topics/revenue.md", "# Revenue\nSee [[pricing]] and [[nonexistent]].\n"),
        ("topics/pricing.md", "# Pricing\nDrives [[revenue]].\n"),
    ]);
    let broken: Vec<_> = findings.iter().filter(|f| f.finding_type == FindingType::BrokenLink).collect();
    assert_eq!(broken.len(), 1, "expected exactly one broken link: {findings:?}");
    assert_eq!(broken[0].page, "topics/revenue.md");
    assert!(broken[0].message.contains("nonexistent"));
}

#[test]
fn slug_resolution_is_folder_agnostic() {
    let findings = lint_files(&[
        ("entities/customer-a.md", "# Customer A\nLoves [[revenue]].\n"),
        ("topics/revenue.md", "# Revenue\nSee [[customer-a]].\n"),
    ]);
    let broken: Vec<_> = findings.iter().filter(|f| f.finding_type == FindingType::BrokenLink).collect();
    assert!(broken.is_empty(), "cross-folder wikilinks should resolve: {findings:?}");
}

#[test]
fn alias_and_block_refs_do_not_break_resolution() {
    let findings = lint_files(&[
        ("topics/revenue.md", "# Revenue\nSee [[pricing#section]] and [[customer-a|the money]].\n"),
        ("topics/pricing.md", "# Pricing\nDrives [[revenue|the money]].\n"),
        ("entities/customer-a.md", "# Customer A\nLoves [[revenue]].\n"),
    ]);
    assert!(findings.is_empty(), "aliases and block refs should still resolve: {findings:?}");
}

#[test]
fn missing_wiki_dir_yields_no_findings() {
    let findings = lint_files(&[]);
    assert!(findings.is_empty(), "missing wiki dir should lint clean");
}

#[test]
fn templates_are_no_pages_but_their_links_count() {
    let findings = lint_files(&[
        ("_template.md", "# T\n[[revenue]] [[ghost]]\n"),
        ("topics/revenue.md", "# Revenue\n"),
    ]);
    assert_eq!(findings.len(), 1, "{findings:?}");
    assert_eq!(findings[0].finding_type, FindingType::BrokenLink);
    assert_eq!(findings[0].page, "_template.md");
    assert!(findings[0].message.contains("ghost"));
}

#[test]
fn extract_wikilink_targets_handles_forms() {
    let got = extract_wikilink_targets("a [[b]] c [[d|alias]] e [[f#block]] g [[h/i]]");
    assert_eq!(got, vec!["b", "d", "f", "i"]);
}

#[test]
fn extract_wikilink_targets_skips_empty_and_unclosed() {
    assert_eq!(extract_wikilink_targets("[[ ]] [[x]] [[open"), vec!["x"]);
    assert!(extract_wikilink_targets("no links").is_empty());
}
