use workspace::dev::{
    build_missing, capture_failed, clone_dir, clone_url, dev_bin_dir, dev_install_target,
    git_sha_of, inherit_failed, overwrite_check, parse_pr_url, pr_local_ref, pr_refspec,
    purge_records, record_install, registry_path, uninstall_records, DevInstall, DevInstallInput,
    DevRegistry, PrRef,
};

#[test]
fn parses_standard_pr_url() {
    let pr = parse_pr_url("https://github.com/Nestyko/workspace/pull/14").unwrap();
    assert_eq!(
        pr,
        PrRef {
            owner: "Nestyko".into(),
            repo: "workspace".into(),
            pr_number: 14
        }
    );
}

#[test]
fn parses_trailing_slash_and_segments() {
    let pr = parse_pr_url("https://github.com/Nestyko/workspace/pull/14/files").unwrap();
    assert_eq!(pr.pr_number, 14);
    assert_eq!(pr.owner, "Nestyko");
    assert_eq!(pr.repo, "workspace");

    let pr2 = parse_pr_url("https://github.com/Nestyko/workspace/pull/14/").unwrap();
    assert_eq!(pr2.pr_number, 14);
}

#[test]
fn parses_pulls_synonym() {
    let pr = parse_pr_url("https://github.com/Nestyko/workspace/pulls/7").unwrap();
    assert_eq!(pr.pr_number, 7);
}

#[test]
fn rejects_non_github_url() {
    let err = parse_pr_url("https://gitlab.com/Nestyko/workspace/pull/14").err().unwrap();
    assert!(err.message().contains("GitHub"));
}

#[test]
fn rejects_missing_pr_number() {
    let err = parse_pr_url("https://github.com/Nestyko/workspace/pull/").err().unwrap();
    assert!(err.message().contains("PR number"));
}

#[test]
fn rejects_missing_owner_repo_and_pull_segment() {
    let err = parse_pr_url("https://github.com/workspace/pull/3").err().unwrap();
    assert_eq!(
        err.message(),
        "Validation failed: PR URL is missing owner/repo before '/pull': https://github.com/workspace/pull/3"
    );
    let err = parse_pr_url("https://github.com/Nestyko/workspace/issues/3").err().unwrap();
    assert_eq!(
        err.message(),
        "Validation failed: PR URL is missing '/pull/<number>': https://github.com/Nestyko/workspace/issues/3"
    );
}

#[test]
fn dev_install_refuses_to_clobber_stable_ws() {
    let err = dev_install_target(&DevInstallInput {
        pr_url: "https://github.com/Nestyko/workspace/pull/14".to_string(),
        name: Some("ws".to_string()),
        force: true,
    })
    .err()
    .unwrap();
    assert!(err.message().contains("stable"), "got: {}", err.message());
}

#[test]
fn dev_install_defaults_the_name() {
    let (pr, name) = dev_install_target(&DevInstallInput {
        pr_url: "https://github.com/Nestyko/workspace/pull/14".to_string(),
        name: None,
        force: false,
    })
    .unwrap();
    assert_eq!(pr.pr_number, 14);
    assert_eq!(name, "ws-dev");
}

fn install(owner: &str, repo: &str, n: u64, name: &str, sha: &str) -> DevInstall {
    DevInstall {
        pr_url: format!("https://github.com/{owner}/{repo}/pull/{n}"),
        owner: owner.into(),
        repo: repo.into(),
        pr_number: n,
        name: name.into(),
        binary_path: format!("/tmp/{name}"),
        git_sha: Some(sha.into()),
        installed_at: "2024-01-01T00:00:00+00:00".into(),
    }
}

#[test]
fn registry_round_trips_with_temp_file() {
    // The registry bookkeeping, without the file: record, then uninstall by PR.
    let mut reg = DevRegistry { installs: Vec::new() };
    assert!(reg.installs.is_empty(), "registry should start empty");
    record_install(&mut reg, install("Owner", "Repo", 1, "ws-dev", "deadbeef"));
    assert_eq!(reg.installs.len(), 1);
    assert_eq!(reg.installs[0].name, "ws-dev");
    assert_eq!(reg.installs[0].pr_number, 1);

    let pr = parse_pr_url("https://github.com/Owner/Repo/pull/1").unwrap();
    let out = uninstall_records(&mut reg, &pr);
    assert_eq!(out.removed.len(), 1);
    assert!(reg.installs.is_empty());
}

#[test]
fn reinstall_replaces_the_record_for_the_same_pr_and_name() {
    let mut reg = DevRegistry { installs: Vec::new() };
    record_install(&mut reg, install("O", "R", 1, "ws-dev", "aaa"));
    record_install(&mut reg, install("O", "R", 2, "ws-dev", "bbb"));
    record_install(&mut reg, install("O", "R", 1, "ws-dev", "ccc"));
    assert_eq!(reg.installs.len(), 2);
    assert_eq!(reg.installs[0].pr_number, 2);
    assert_eq!(reg.installs[1].git_sha.as_deref(), Some("ccc"));
    let out = purge_records(&mut reg);
    assert_eq!(out.removed.len(), 2);
    assert!(reg.installs.is_empty());
}

#[test]
fn paths_and_refs_of_a_dev_install() {
    assert_eq!(registry_path("/home/u"), "/home/u/.ws/dev-installs.json");
    let pr = parse_pr_url("https://github.com/Nestyko/workspace/pull/14").unwrap();
    assert_eq!(clone_dir("/home/u/.ws/dev-builds", &pr), "/home/u/.ws/dev-builds/Nestyko-workspace");
    assert_eq!(clone_url(&pr), "https://github.com/Nestyko/workspace.git");
    assert_eq!(pr_refspec(&pr), "pull/14/head:refs/ws-dev-pr/14");
    assert_eq!(pr_local_ref(&pr), "refs/ws-dev-pr/14");
    assert_eq!(git_sha_of(&Some(" abc123\n".into())).as_deref(), Some("abc123"));
    assert_eq!(git_sha_of(&Some("  \n".into())), None);
    assert_eq!(git_sha_of(&None), None);
}

#[test]
fn dev_bin_dir_resolution_order() {
    let s = |x: &str| Some(x.to_string());
    assert_eq!(dev_bin_dir(&s("/opt/bin"), &s("/c"), &s("/h")).unwrap(), "/opt/bin");
    assert_eq!(dev_bin_dir(&s(""), &s("/c"), &s("/h")).unwrap(), "/c/bin");
    assert_eq!(dev_bin_dir(&None, &s(""), &s("/h")).unwrap(), "/h/.cargo/bin");
    let err = dev_bin_dir(&None, &None, &None).err().unwrap();
    assert_eq!(err.message(), "Configuration error: Could not determine home directory");
}

#[test]
fn overwrite_needs_force() {
    let err = overwrite_check(true, false, "ws-dev", "/b/ws-dev").err().unwrap();
    assert_eq!(
        err.message(),
        "Validation failed: A binary named `ws-dev` already exists at /b/ws-dev. Pass --force to replace it."
    );
    assert_eq!(overwrite_check(true, true, "ws-dev", "/b/ws-dev").unwrap(), true);
    assert_eq!(overwrite_check(false, false, "ws-dev", "/b/ws-dev").unwrap(), false);
}

#[test]
fn command_failure_messages() {
    let args = vec!["build".to_string(), "--release".to_string()];
    assert_eq!(
        inherit_failed("cargo", &args, "/src", Some(101)).message(),
        "Command execution error: `cargo build --release` failed in /src (exit 101)"
    );
    assert_eq!(
        inherit_failed("cargo", &args, "/src", None).message(),
        "Command execution error: `cargo build --release` failed in /src"
    );
    assert_eq!(
        capture_failed("git", &args, "/d", " out ", "\nerr\n").message(),
        "Command execution error: `git build --release` failed in /d\nstdout:\nout\nstderr:\nerr"
    );
    assert_eq!(
        build_missing("/d/target/release/ws").message(),
        "Other error: Build completed but `/d/target/release/ws` was not produced. The PR may rename the binary or the build failed."
    );
}

#[test]
fn formatted_pr_urls_read_back() {
    for (owner, repo, n) in [("Nestyko", "workspace", 14u64), ("a.b", "c-d_e", 0), ("o", "r", u64::MAX)] {
        for tail in ["", "/", "/files"] {
            let url = format!("https://github.com/{}/{}/pull/{}{}", owner, repo, n, tail);
            let p = parse_pr_url(&url).ok().unwrap();
            assert_eq!(p, PrRef { owner: owner.to_string(), repo: repo.to_string(), pr_number: n });
        }
    }
}
