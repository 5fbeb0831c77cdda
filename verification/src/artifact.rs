//! Where the Understand-Anything knowledge-graph artifact lives.
//!
//! The artifact directory moved from the legacy `.understand-anything/` to the
//! preferred `.ua/`. Lookups prefer `.ua/` and fall back to the legacy
//! directory; existing repos are never migrated. Whether a candidate path
//! exists on disk is asked by the caller and handed in.
use vstd::prelude::*;
use crate::text::{concat, contains_seq, join_path, path_join, str_contains};

verus! {

/// Preferred artifact directory.
pub const PREFERRED_DIR: &'static str = ".ua";

/// Legacy artifact directory.
pub const LEGACY_DIR: &'static str = ".understand-anything";

/// Artifact file name inside the directory.
pub const ARTIFACT_FILE: &'static str = "knowledge-graph.json";

/// `<repo_root>/<dir>/knowledge-graph.json`.
pub open spec fn artifact_path(repo_root: Seq<char>, dir: Seq<char>) -> Seq<char> {
    path_join(path_join(repo_root, dir), "knowledge-graph.json"@)
}

/// The path of the artifact under `dir`, which the caller probes.
pub fn artifact_candidate(repo_root: &str, dir: &str) -> (p: String)
    ensures
        p@ == artifact_path(repo_root@, dir@),
{
    let d = join_path(repo_root, dir);
    join_path(d.as_str(), ARTIFACT_FILE)
}

/// The committed knowledge-graph artifact path: `.ua/knowledge-graph.json`
/// when it exists, else the legacy `.understand-anything/knowledge-graph.json`
/// when that exists, else `None`. `preferred_exists` and `legacy_exists` say
/// whether the two candidate paths exist.
pub fn knowledge_graph_path(repo_root: &str, preferred_exists: bool, legacy_exists: bool) -> (res:
    Option<String>)
    ensures
        preferred_exists ==> (res matches Some(p) && p@ == artifact_path(repo_root@, ".ua"@)),
        !preferred_exists && legacy_exists ==> (res matches Some(p) && p@ == artifact_path(
            repo_root@,
            ".understand-anything"@,
        )),
        !preferred_exists && !legacy_exists ==> res is None,
{
    if preferred_exists {
        Some(artifact_candidate(repo_root, PREFERRED_DIR))
    } else if legacy_exists {
        Some(artifact_candidate(repo_root, LEGACY_DIR))
    } else {
        None
    }
}

/// The directory the artifact resolves to: `.ua` when its artifact exists,
/// else `.understand-anything` when that one exists, else none.
pub open spec fn resolved_dir_name(preferred_exists: bool, legacy_exists: bool) -> Option<Seq<char>> {
    if preferred_exists {
        Some(".ua"@)
    } else if legacy_exists {
        Some(".understand-anything"@)
    } else {
        None
    }
}

/// The directory name the resolved artifact lives under, when present.
pub fn resolved_dir(preferred_exists: bool, legacy_exists: bool) -> (res: Option<&'static str>)
    ensures
        match res {
            Some(d) => resolved_dir_name(preferred_exists, legacy_exists) == Some(d@),
            None => resolved_dir_name(preferred_exists, legacy_exists) is None,
        },
{
    if preferred_exists {
        Some(PREFERRED_DIR)
    } else if legacy_exists {
        Some(LEGACY_DIR)
    } else {
        None
    }
}

/// A `.gitattributes` body mentions the artifact path under either
/// directory: the `<dir>/knowledge-graph.json` token is what carries the
/// diff-suppression intent.
pub open spec fn suppression_ok(content: Seq<char>) -> bool {
    contains_seq(content, ".ua/knowledge-graph.json"@) || contains_seq(
        content,
        ".understand-anything/knowledge-graph.json"@,
    )
}

/// Whether a `.gitattributes` body carries the diff-suppression lines.
pub fn gitattributes_suppression_ok(content: &str) -> (res: bool)
    ensures
        res == suppression_ok(content@),
{
    let preferred = concat(PREFERRED_DIR, "/knowledge-graph.json");
    let legacy = concat(LEGACY_DIR, "/knowledge-graph.json");
    proof {
        reveal_strlit(".ua");
        reveal_strlit(".understand-anything");
        reveal_strlit("/knowledge-graph.json");
        reveal_strlit(".ua/knowledge-graph.json");
        reveal_strlit(".understand-anything/knowledge-graph.json");
        assert(preferred@ =~= ".ua/knowledge-graph.json"@);
        assert(legacy@ =~= ".understand-anything/knowledge-graph.json"@);
    }
    str_contains(content, preferred.as_str()) || str_contains(content, legacy.as_str())
}

} // verus!
