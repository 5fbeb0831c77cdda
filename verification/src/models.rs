//! The records the workspace tooling reads and writes: catalog entries,
//! provider requests and replies, local configuration, workspaces and locks.
//!
//! Maps keyed by name are kept as lists of `(key, value)` pairs in insertion
//! order; a lookup finds the first pair with the key, and insertion replaces
//! that pair's value or appends a new pair, so a key occurs at most once.
use vstd::prelude::*;
use crate::text::{owned, str_eq};

verus! {

// ==========================================
// Keyed lists
// ==========================================

/// Index of the first pair whose key is `k`.
pub open spec fn key_index<V>(pairs: Seq<(String, V)>, k: Seq<char>) -> Option<int>
    decreases pairs.len(),
{
    if pairs.len() == 0 {
        None
    } else {
        match key_index(pairs.drop_last(), k) {
            Some(i) => Some(i),
            None => if pairs.last().0@ == k { Some(pairs.len() - 1) } else { None },
        }
    }
}

pub proof fn lemma_key_index_bounds<V>(pairs: Seq<(String, V)>, k: Seq<char>)
    ensures
        key_index(pairs, k) matches Some(i) ==> 0 <= i < pairs.len() && pairs[i].0@ == k
            && forall|j: int| 0 <= j < i ==> pairs[j].0@ != k,
        key_index(pairs, k) is None ==> forall|j: int| 0 <= j < pairs.len() ==> pairs[j].0@ != k,
    decreases pairs.len(),
{
    if pairs.len() > 0 {
        let init = pairs.drop_last();
        lemma_key_index_bounds(init, k);
        assert forall|j: int| 0 <= j < init.len() implies init[j] == pairs[j] by {}
    }
}

/// Position of the first pair whose key is `k`.
pub fn find_key<V>(pairs: &Vec<(String, V)>, k: &str) -> (res: Option<usize>)
    ensures
        res matches Some(i) ==> key_index(pairs@, k@) == Some(i as int) && i < pairs@.len(),
        res is None ==> key_index(pairs@, k@) is None,
{
    let mut i: usize = 0;
    while i < pairs.len()
        invariant
            i <= pairs.len(),
            forall|j: int| 0 <= j < i ==> pairs@[j].0@ != k@,
        decreases pairs.len() - i,
    {
        if str_eq(pairs[i].0.as_str(), k) {
            proof {
                lemma_key_index_bounds(pairs@, k@);
            }
            return Some(i);
        }
        i += 1;
    }
    proof {
        lemma_key_index_bounds(pairs@, k@);
    }
    None
}

/// The value stored under key `k` in a keyed list.
pub open spec fn lookup<V>(pairs: Seq<(String, V)>, k: Seq<char>) -> Option<V> {
    match key_index(pairs, k) {
        Some(i) => Some(pairs[i].1),
        None => None,
    }
}

/// A string-to-string map, such as a service's `commands`.
pub struct CommandMap {
    pub entries: Vec<(String, String)>,
}

impl CommandMap {
    /// The value stored under `k`, as characters.
    pub open spec fn spec_get(&self, k: Seq<char>) -> Option<Seq<char>> {
        match lookup(self.entries@, k) {
            Some(v) => Some(v@),
            None => None,
        }
    }

    /// An empty map.
    pub fn new() -> (m: CommandMap)
        ensures
            m.entries@.len() == 0,
    {
        CommandMap { entries: Vec::new() }
    }

    /// Whether `k` has a value.
    pub fn contains_key(&self, k: &str) -> (res: bool)
        ensures
            res == self.spec_get(k@).is_some(),
    {
        find_key(&self.entries, k).is_some()
    }

    /// The value stored under `k`.
    pub fn get(&self, k: &str) -> (res: Option<&String>)
        ensures
            match res {
                Some(v) => self.spec_get(k@) == Some(v@),
                None => self.spec_get(k@) is None,
            },
    {
        match find_key(&self.entries, k) {
            Some(i) => Some(&self.entries[i].1),
            None => None,
        }
    }

    /// Stores `v` under `k`, replacing an earlier value.
    pub fn insert(&mut self, k: String, v: String)
        ensures
            final(self).spec_get(k@) == Some(v@),
            forall|q: Seq<char>| q != k@ ==> final(self).spec_get(q) == old(self).spec_get(q),
    {
        insert_keyed(&mut self.entries, k, v);
    }
}

/// Stores `v` under `k` in a keyed list: the pair with key `k` gets the new
/// value, or a new pair is appended; every other key keeps its value.
pub fn insert_keyed<V>(pairs: &mut Vec<(String, V)>, k: String, v: V)
    ensures
        lookup(final(pairs)@, k@) == Some(v),
        forall|q: Seq<char>| q != k@ ==> lookup(final(pairs)@, q) == lookup(old(pairs)@, q),
        forall|q: Seq<char>| #[trigger] key_index(old(pairs)@, q) is Some ==> key_index(final(pairs)@, q) == key_index(old(pairs)@, q),
        key_index(old(pairs)@, k@) is None ==> final(pairs)@ == old(pairs)@.push((k, v)),
{
    let ghost k0 = k@;
    let ghost v0 = v;
    proof {
        lemma_key_index_bounds(pairs@, k0);
    }
    match find_key(pairs, k.as_str()) {
        Some(i) => {
            let ghost old_entries = pairs@;
            pairs.set(i, (k, v));
            proof {
                assert forall|q: Seq<char>| q != k0 implies
                    #[trigger] lookup(pairs@, q) == lookup(old_entries, q) by {
                    lemma_key_index_same_keys(old_entries, pairs@, q);
                    lemma_key_index_bounds(old_entries, q);
                    if let Some(j) = key_index(old_entries, q) {
                        assert(j != i);
                        assert(pairs@[j] == old_entries[j]);
                    }
                }
                assert forall|q: Seq<char>| #[trigger] key_index(old_entries, q) is Some implies
                    key_index(pairs@, q) == key_index(old_entries, q) by {
                    lemma_key_index_same_keys(old_entries, pairs@, q);
                }
                lemma_key_index_same_keys(old_entries, pairs@, k0);
            }
        },
        None => {
            let ghost old_entries = pairs@;
            pairs.push((k, v));
            proof {
                assert(pairs@.drop_last() =~= old_entries);
                assert forall|q: Seq<char>| q != k0 implies
                    #[trigger] lookup(pairs@, q) == lookup(old_entries, q) by {
                    lemma_key_index_bounds(old_entries, q);
                    assert(key_index(pairs@, q) == key_index(old_entries, q));
                    if let Some(j) = key_index(old_entries, q) {
                        assert(pairs@[j] == old_entries[j]);
                    }
                }
                assert forall|q: Seq<char>| #[trigger] key_index(old_entries, q) is Some implies
                    key_index(pairs@, q) == key_index(old_entries, q) by {
                    assert(pairs@.drop_last() =~= old_entries);
                }
            }
        },
    }
}

/// Replacing a pair by one with the same key keeps every key's index.
pub proof fn lemma_key_index_same_keys<V>(a: Seq<(String, V)>, b: Seq<(String, V)>, q: Seq<char>)
    requires
        a.len() == b.len(),
        forall|j: int| 0 <= j < a.len() ==> #[trigger] a[j].0@ == b[j].0@,
    ensures
        key_index(a, q) == key_index(b, q),
    decreases a.len(),
{
    if a.len() > 0 {
        lemma_key_index_same_keys(a.drop_last(), b.drop_last(), q);
    }
}

// ==========================================
// Code & Git Models
// ==========================================

pub struct RepoSummary {
    pub provider: String,
    pub owner: String,
    pub name: String,
    pub full_name: String,
    pub url: String,
    pub ssh_url: String,
    pub default_branch: String,
    pub description: Option<String>,
    pub updated_at: Option<String>,
}

pub struct RepoDetails {
    pub summary: RepoSummary,
}

pub struct RepoCache {
    pub path: String,
}

pub struct Worktree {
    pub path: String,
    pub service_id: String,
    pub branch: String,
}

pub struct ListRecentReposInput {
    pub limit: Option<usize>,
    pub page: Option<usize>,
}

pub struct RepoRef {
    pub owner: String,
    pub name: String,
}

pub struct EnsureRepoCacheInput {
    pub owner: String,
    pub name: String,
    pub url: String,
}

/// A worktree to add: under `workspaces/<folder>/repos/<service_id>`, or
/// under `workspaces/<folder>/<subdir>` when `subdir` is given.
pub struct CreateWorktreeInput {
    pub owner: String,
    pub name: String,
    pub url: String,
    pub folder: String,
    pub service_id: String,
    pub base_branch: String,
    pub branch: String,
    pub subdir: Option<String>,
}

pub struct MoveWorktreeInput {
    pub owner: String,
    pub name: String,
    pub from: String,
    pub to: String,
}

pub struct PushBranchInput {
    pub epic_key: String,
    pub service_id: String,
    pub branch: String,
}

pub struct CreatePullRequestInput {
    pub epic_key: String,
    pub service_id: String,
    pub branch: String,
    pub title: String,
    pub body: String,
    pub draft: bool,
}

pub struct PullRequest {
    pub number: usize,
    pub url: String,
    pub state: String,
}

// ==========================================
// Catalog Models
// ==========================================

/// Point #1 of the repo-init checklist.
pub struct UnderstandAnythingConfig {
    pub enabled: bool,
}

/// Point #8: a deploy command, or an explicit skip.
pub enum DeployConfig {
    Command(String),
    Skip { skip: bool, reason: Option<String> },
}

pub struct ServiceCatalog {
    pub id: String,
    pub name: String,
    pub kind: String,
    pub description: String,
    pub team: String,
    pub products: Vec<String>,
    pub repo: CatalogRepo,
    pub owns: Vec<String>,
    pub likely_relevant_when: Vec<String>,
    pub commands: CommandMap,
    pub issue_tracking: CatalogIssueTracking,
    pub docs: Vec<CatalogDoc>,
    pub understand_anything: Option<UnderstandAnythingConfig>,
    pub deploy: Option<DeployConfig>,
}

pub struct CatalogRepo {
    pub provider: String,
    pub owner: String,
    pub name: String,
    pub url: String,
    pub default_branch: String,
}

pub struct CatalogIssueTracking {
    pub provider: String,
    pub project: String,
    pub component: Option<String>,
}

pub struct CatalogDoc {
    pub doc_type: String,
    pub path: String,
}

pub struct ProductCatalog {
    pub id: String,
    pub name: String,
    pub kind: String,
    pub description: String,
    pub agent: ProductAgent,
    pub knowledge_sources: Vec<ProductKnowledgeSource>,
    pub services: ProductServices,
    pub routing_rules: Vec<ProductRoutingRule>,
}

pub struct ProductAgent {
    pub name: String,
    pub instructions: String,
}

pub struct ProductKnowledgeSource {
    pub provider: String,
    pub space: Option<String>,
    pub project: Option<String>,
    pub label: Option<String>,
}

pub struct ProductServices {
    pub primary: Vec<String>,
    pub related: Vec<String>,
}

pub struct ProductRoutingRule {
    pub when: String,
    pub inspect_services: Vec<String>,
}

pub struct TeamCatalog {
    pub id: String,
    pub name: String,
    pub kind: String,
    pub description: String,
    pub lead: Option<String>,
    pub members: Vec<String>,
}

pub struct KnowledgeCatalog {
    pub id: String,
    pub name: String,
    pub kind: String,
    pub description: String,
    pub provider: String,
    pub space: Option<String>,
    pub url: Option<String>,
}

// ==========================================
// Issue / Project Tracking Models
// ==========================================

pub struct AuthStatus {
    pub authenticated: bool,
    pub username: Option<String>,
    pub details: Option<String>,
}

pub struct Issue {
    pub key: String,
    pub summary: String,
    pub description: Option<String>,
    pub status: String,
    pub issue_type: String,
    pub assignee: Option<String>,
    pub project_key: String,
}

pub struct Epic {
    pub key: String,
    pub name: String,
    pub summary: String,
}

pub struct Comment {
    pub id: Option<String>,
    pub author: Option<String>,
    pub body: String,
    pub created_at: Option<String>,
}

pub struct CreateEpicInput {
    pub project: String,
    pub name: String,
    pub summary: String,
    pub description: Option<String>,
}

pub struct CreateIssueInput {
    pub project: String,
    pub summary: String,
    pub description: Option<String>,
    pub issue_type: String,
    pub epic_key: Option<String>,
}

pub struct UpdateIssueInput {
    pub summary: Option<String>,
    pub description: Option<String>,
    pub status: Option<String>,
}

pub struct LinkIssuesInput {
    pub inward_key: String,
    pub outward_key: String,
    pub link_type: String,
}

// ==========================================
// Local Config / State Models
// ==========================================

pub struct LocalConfig {
    pub issue_provider: IssueProviderConfig,
    pub code_provider: CodeProviderConfig,
    pub doc_provider: Option<DocProviderConfig>,
    pub editor: EditorConfig,
    pub paths: PathConfig,
}

pub struct IssueProviderConfig {
    pub provider_type: String,
    pub base_url: Option<String>,
    pub default_project: Option<String>,
}

pub struct CodeProviderConfig {
    pub provider_type: String,
    pub default_owner: Option<String>,
    pub protocol: Option<String>,
}

pub struct DocProviderConfig {
    pub provider_type: String,
    pub base_url: Option<String>,
    pub default_space: Option<String>,
}

pub struct EditorConfig {
    pub default: String,
}

pub struct PathConfig {
    pub cache_dir: String,
    pub workspaces_dir: String,
}

impl LocalConfig {
    /// The configuration used when no `.ws/config.yaml` exists: Jira issues,
    /// GitHub via `gh` over ssh, Confluence docs, the Cursor editor.
    pub fn default() -> (c: LocalConfig)
        ensures
            c.issue_provider.provider_type@ == "jira"@,
            c.issue_provider.base_url is None,
            c.issue_provider.default_project is None,
            c.code_provider.provider_type@ == "github-gh"@,
            c.code_provider.default_owner is None,
            c.code_provider.protocol matches Some(p) && p@ == "ssh"@,
            c.doc_provider matches Some(d) && d.provider_type@ == "confluence"@
                && d.base_url is None && d.default_space is None,
            c.editor.default@ == "cursor"@,
            c.paths.cache_dir@ == ".cache/repos"@,
            c.paths.workspaces_dir@ == "workspaces"@,
    {
        LocalConfig {
            issue_provider: IssueProviderConfig {
                provider_type: owned("jira"),
                base_url: None,
                default_project: None,
            },
            code_provider: CodeProviderConfig {
                provider_type: owned("github-gh"),
                default_owner: None,
                protocol: Some(owned("ssh")),
            },
            doc_provider: Some(
                DocProviderConfig {
                    provider_type: owned("confluence"),
                    base_url: None,
                    default_space: None,
                },
            ),
            editor: EditorConfig { default: owned("cursor") },
            paths: PathConfig {
                cache_dir: owned(".cache/repos"),
                workspaces_dir: owned("workspaces"),
            },
        }
    }
}

// ==========================================
// Workspace Models
// ==========================================

/// A task slice of a feature workspace: worktrees under `tasks/<slug>/<repo>`.
pub struct WorkspaceTask {
    pub key: String,
    pub slug: String,
    pub repos: Vec<String>,
}

/// A feature workspace. Its identity is `id` (the slug); the folder name is
/// derived from it and the optional ticket.
pub struct Workspace {
    pub id: String,
    pub ticket: Option<String>,
    pub title: String,
    pub description: String,
    pub created_at: Option<String>,
    pub services: Vec<String>,
    pub base_branch: String,
    pub create_branches: bool,
    pub editor: String,
    pub tasks: Vec<WorkspaceTask>,
}

/// Baseline commits recorded when the worktrees were created.
pub struct WorkspaceLock {
    pub id: String,
    pub repos: Vec<(String, LockedRepo)>,
    pub tasks: Vec<(String, Vec<(String, LockedRepo)>)>,
}

pub struct LockedRepo {
    pub provider: String,
    pub owner: String,
    pub name: String,
    pub default_branch: String,
    pub baseline_commit: String,
}

pub struct OpenWorkspaceInput {
    pub epic_key: String,
}

pub struct OpenServiceInput {
    pub epic_key: String,
    pub service_id: String,
}

} // verus!
