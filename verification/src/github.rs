//! The GitHub code provider, driven through the `gh` and `git` CLIs. Repos
//! are cached as bare clones under `.cache/repos/<owner>/<name>.git` and
//! checked out as worktrees under `workspaces/`.
//!
//! Running the CLIs and reading their JSON are the caller's; the arguments,
//! paths, paging and the interpretation of replies are here.
use vstd::prelude::*;
use crate::error::WorkspaceError;
use crate::lifecycle::opt_view;
use crate::models::{
    AuthStatus, CreatePullRequestInput, CreateWorktreeInput, PullRequest, PushBranchInput,
    RepoSummary,
};
use crate::text::{
    chars_string, decimal_value, join_path, owned, parse_usize, path_join, push_str, str_chars,
    str_eq, str_trim, trim, u64_text, views,
};

verus! {

pub struct GitHubGhProvider {
    pub default_owner: Option<String>,
    /// `ssh` or `https`.
    pub protocol: String,
}

impl GitHubGhProvider {
    pub fn new(default_owner: Option<String>, protocol: Option<String>) -> (p: GitHubGhProvider)
        ensures
            p.default_owner == default_owner,
            p.protocol@ == match protocol {
                Some(x) => x@,
                None => "ssh"@,
            },
    {
        GitHubGhProvider {
            default_owner,
            protocol: match protocol {
                Some(x) => x,
                None => owned("ssh"),
            },
        }
    }
}

/// The fields of a repository as `gh repo list/view --json` reports them.
pub struct GhRepo {
    pub name: String,
    pub owner_login: String,
    pub url: String,
    pub ssh_url: String,
    pub default_branch: Option<String>,
    pub description: Option<String>,
    pub updated_at: Option<String>,
}

/// The repository fields `gh` is asked for.
pub open spec fn repo_json_fields() -> Seq<char> {
    "name,owner,url,sshUrl,defaultBranchRef,description,updatedAt"@
}

/// Page size and page of a listing (defaults 50 and 1).
pub open spec fn listing(limit: Option<usize>, page: Option<usize>) -> (nat, nat) {
    (
        match limit {
            Some(l) => l as nat,
            None => 50,
        },
        match page {
            Some(p) => p as nat,
            None => 1,
        },
    )
}

/// `gh repo list` asks for every repository up to the requested page:
/// `--limit <limit * page>`, then the default owner when there is one.
pub fn list_repo_args(limit: Option<usize>, page: Option<usize>, owner: &Option<String>) -> (args:
    Vec<String>)
    requires
        listing(limit, page).0 * listing(limit, page).1 <= u64::MAX,
    ensures
        views(args@) == seq![
            "repo"@,
            "list"@,
            "--limit"@,
            decimal_text_of(listing(limit, page).0 * listing(limit, page).1),
            "--json"@,
            repo_json_fields(),
        ] + match *owner {
            Some(o) => seq![o@],
            None => Seq::empty(),
        },
{
    let l: u64 = match limit {
        Some(x) => x as u64,
        None => 50,
    };
    let p: u64 = match page {
        Some(x) => x as u64,
        None => 1,
    };
    assert(l * p <= u64::MAX) by (nonlinear_arith)
        requires
            l == listing(limit, page).0,
            p == listing(limit, page).1,
            listing(limit, page).0 * listing(limit, page).1 <= u64::MAX,
    ;
    let mut args = vec![
        owned("repo"),
        owned("list"),
        owned("--limit"),
        u64_text(l * p),
        owned("--json"),
        owned("name,owner,url,sshUrl,defaultBranchRef,description,updatedAt"),
    ];
    match owner {
        Some(o) => args.push(o.clone()),
        None => {},
    }
    assert(views(args@) =~= seq![
        "repo"@,
        "list"@,
        "--limit"@,
        decimal_text_of(listing(limit, page).0 * listing(limit, page).1),
        "--json"@,
        repo_json_fields(),
    ] + match *owner {
        Some(o) => seq![o@],
        None => Seq::<Seq<char>>::empty(),
    });
    args
}

pub open spec fn decimal_text_of(n: nat) -> Seq<char> {
    crate::text::decimal_text(n)
}

/// The summary of a listed repository.
pub open spec fn summary_matches(s: RepoSummary, r: GhRepo, full_name: Seq<char>) -> bool {
    &&& s.provider@ == "github"@
    &&& s.owner@ == r.owner_login@
    &&& s.name@ == r.name@
    &&& s.full_name@ == full_name
    &&& s.url@ == r.url@
    &&& s.ssh_url@ == r.ssh_url@
    &&& s.default_branch@ == match r.default_branch {
        Some(b) => b@,
        None => "main"@,
    }
    &&& s.description == r.description
    &&& s.updated_at == r.updated_at
}

/// The summary of a repository `gh` reported, named `full_name`.
pub fn repo_summary(r: GhRepo, full_name: String) -> (s: RepoSummary)
    ensures
        summary_matches(s, r, full_name@),
{
    RepoSummary {
        provider: owned("github"),
        owner: r.owner_login.clone(),
        name: r.name.clone(),
        full_name,
        url: r.url,
        ssh_url: r.ssh_url,
        default_branch: match r.default_branch {
            Some(b) => b,
            None => owned("main"),
        },
        description: r.description,
        updated_at: r.updated_at,
    }
}

/// The requested page of the listing: past the first `limit * (page - 1)`
/// repositories, at most `limit` of them, each named `owner/name`.
pub fn listing_page(repos: Vec<GhRepo>, limit: Option<usize>, page: Option<usize>) -> (out: Vec<
    RepoSummary,
>)
    requires
        page != Some(0usize),
        listing(limit, page).0 * listing(limit, page).1 <= usize::MAX,
    ensures
        ({
            let (l, p) = listing(limit, page);
            let skip = l * (p - 1);
            let n = if repos@.len() <= skip {
                0
            } else if repos@.len() - skip < l {
                repos@.len() - skip
            } else {
                l as int
            };
            &&& out@.len() == n
            &&& forall|k: int|
                0 <= k < n ==> #[trigger] summary_matches(
                    out@[k],
                    repos@[skip + k],
                    repos@[skip + k].owner_login@ + "/"@ + repos@[skip + k].name@,
                )
        }),
{
    let l: usize = match limit {
        Some(x) => x,
        None => 50,
    };
    let p: usize = match page {
        Some(x) => x,
        None => 1,
    };
    assert(l * (p - 1) <= l * p) by (nonlinear_arith)
        requires
            p >= 1,
    ;
    let skip = l * (p - 1);
    let ghost all = repos@;
    let mut out: Vec<RepoSummary> = Vec::new();
    let mut rest = repos;
    let mut k: usize = 0;
    while k < rest.len()
        invariant
            rest@.len() == all.len(),
            k <= rest@.len(),
            forall|q: int| k <= q < rest@.len() ==> rest@[q] == all[q],
            skip == l * (p - 1),
            k <= skip ==> out@.len() == 0,
            k > skip ==> out@.len() == k - skip,
            out@.len() <= l,
            forall|q: int|
                0 <= q < out@.len() ==> #[trigger] summary_matches(
                    out@[q],
                    all[skip + q],
                    all[skip + q].owner_login@ + "/"@ + all[skip + q].name@,
                ),
        ensures
            k >= rest@.len() || out@.len() >= l,
        decreases rest@.len() - k,
    {
        if out.len() >= l {
            break;
        }
        if k >= skip {
            let r = replace_repo(&mut rest, k);
            assert(r == all[k as int]);
            let mut full = r.owner_login.clone();
            push_str(&mut full, "/");
            push_str(&mut full, r.name.as_str());
            let s = repo_summary(r, full);
            let ghost before = out@;
            out.push(s);
            assert(forall|q: int| 0 <= q < before.len() ==> out@[q] == before[q]);
        }
        k += 1;
    }
    out
}

fn replace_repo(v: &mut Vec<GhRepo>, k: usize) -> (r: GhRepo)
    requires
        k < old(v)@.len(),
    ensures
        r == old(v)@[k as int],
        final(v)@.len() == old(v)@.len(),
        forall|q: int| 0 <= q < old(v)@.len() && q != k ==> final(v)@[q] == old(v)@[q],
{
    let blank = GhRepo {
        name: String::new(),
        owner_login: String::new(),
        url: String::new(),
        ssh_url: String::new(),
        default_branch: None,
        description: None,
        updated_at: None,
    };
    let mut x = blank;
    std::mem::swap(&mut x, &mut v[k]);
    x
}

/// `.cache/repos/<owner>/<name>.git`: the bare clone of a repository.
pub open spec fn cache_path(owner: Seq<char>, name: Seq<char>) -> Seq<char> {
    path_join(path_join(path_join(".cache"@, "repos"@), owner), name + ".git"@)
}

pub fn repo_cache_path(owner: &str, name: &str) -> (p: String)
    ensures
        p@ == cache_path(owner@, name@),
{
    let a = join_path(".cache", "repos");
    let b = join_path(a.as_str(), owner);
    let mut f = owned(name);
    push_str(&mut f, ".git");
    join_path(b.as_str(), f.as_str())
}

/// The `git` arguments that bring the cache up to date: a fetch in an
/// existing cache, else a bare clone of `url` into it.
pub fn cache_args(cache_exists: bool, url: &str, cache: &str) -> (args: Vec<String>)
    ensures
        cache_exists ==> views(args@) == seq!["fetch"@, "origin"@],
        !cache_exists ==> views(args@) == seq!["clone"@, "--bare"@, url@, cache@],
{
    let args = if cache_exists {
        vec![owned("fetch"), owned("origin")]
    } else {
        vec![owned("clone"), owned("--bare"), owned(url), owned(cache)]
    };
    assert(cache_exists ==> views(args@) =~= seq!["fetch"@, "origin"@]);
    assert(!cache_exists ==> views(args@) =~= seq!["clone"@, "--bare"@, url@, cache@]);
    args
}

/// Where a worktree goes: `workspaces/<folder>/<subdir>`, or
/// `workspaces/<folder>/repos/<service>` without a subdir.
pub open spec fn worktree_path(input: CreateWorktreeInput) -> Seq<char> {
    let dir = path_join("workspaces"@, input.folder@);
    match input.subdir {
        Some(s) => path_join(dir, s@),
        None => path_join(path_join(dir, "repos"@), input.service_id@),
    }
}

pub fn worktree_dir(input: &CreateWorktreeInput) -> (p: String)
    ensures
        p@ == worktree_path(*input),
{
    let dir = join_path("workspaces", input.folder.as_str());
    match &input.subdir {
        Some(s) => join_path(dir.as_str(), s.as_str()),
        None => {
            let r = join_path(dir.as_str(), "repos");
            join_path(r.as_str(), input.service_id.as_str())
        },
    }
}

/// The error of a worktree whose repository has no cache.
pub fn cache_missing(cache: &str) -> (e: WorkspaceError)
    ensures
        e matches WorkspaceError::Git(m) && m@ == "Repo cache does not exist at "@ + cache@,
{
    let mut m = owned("Repo cache does not exist at ");
    push_str(&mut m, cache);
    WorkspaceError::Git(m)
}

/// `git fetch origin <base>:<base>` in the cache (its failure is ignored).
pub fn base_fetch_args(base_branch: &str) -> (args: Vec<String>)
    ensures
        views(args@) == seq!["fetch"@, "origin"@, base_branch@ + ":"@ + base_branch@],
{
    let mut spec = owned(base_branch);
    push_str(&mut spec, ":");
    push_str(&mut spec, base_branch);
    let args = vec![owned("fetch"), owned("origin"), spec];
    assert(views(args@) =~= seq!["fetch"@, "origin"@, base_branch@ + ":"@ + base_branch@]);
    args
}

/// `git show-ref --verify refs/heads/<branch>`: whether the branch exists.
pub fn branch_probe_args(branch: &str) -> (args: Vec<String>)
    ensures
        views(args@) == seq!["show-ref"@, "--verify"@, "refs/heads/"@ + branch@],
{
    let mut r = owned("refs/heads/");
    push_str(&mut r, branch);
    let args = vec![owned("show-ref"), owned("--verify"), r];
    assert(views(args@) =~= seq!["show-ref"@, "--verify"@, "refs/heads/"@ + branch@]);
    args
}

/// `git worktree add`: checking out an existing branch, or creating it from
/// the base branch.
pub fn worktree_add_args(cache: &str, dir: &str, branch: &str, base_branch: &str, branch_exists: bool) -> (args:
    Vec<String>)
    ensures
        branch_exists ==> views(args@) == seq![
            "--git-dir"@,
            cache@,
            "worktree"@,
            "add"@,
            dir@,
            branch@,
        ],
        !branch_exists ==> views(args@) == seq![
            "--git-dir"@,
            cache@,
            "worktree"@,
            "add"@,
            "-b"@,
            branch@,
            dir@,
            base_branch@,
        ],
{
    let args = if branch_exists {
        vec![
            owned("--git-dir"),
            owned(cache),
            owned("worktree"),
            owned("add"),
            owned(dir),
            owned(branch),
        ]
    } else {
        vec![
            owned("--git-dir"),
            owned(cache),
            owned("worktree"),
            owned("add"),
            owned("-b"),
            owned(branch),
            owned(dir),
            owned(base_branch),
        ]
    };
    assert(branch_exists ==> views(args@) =~= seq![
        "--git-dir"@,
        cache@,
        "worktree"@,
        "add"@,
        dir@,
        branch@,
    ]);
    assert(!branch_exists ==> views(args@) =~= seq![
        "--git-dir"@,
        cache@,
        "worktree"@,
        "add"@,
        "-b"@,
        branch@,
        dir@,
        base_branch@,
    ]);
    args
}

/// `workspaces/<epic>/repos/<service>`: the worktree a push or a pull
/// request is made from.
pub fn service_worktree(epic_key: &str, service_id: &str) -> (p: String)
    ensures
        p@ == path_join(path_join(path_join("workspaces"@, epic_key@), "repos"@), service_id@),
{
    let a = join_path("workspaces", epic_key);
    let b = join_path(a.as_str(), "repos");
    join_path(b.as_str(), service_id)
}

/// The error of a missing service worktree.
pub fn worktree_missing(service_id: &str, dir: &str) -> (e: WorkspaceError)
    ensures
        e matches WorkspaceError::NotFound(m) && m@ == "Worktree for service "@ + service_id@
            + " not found at "@ + dir@,
{
    let mut m = owned("Worktree for service ");
    push_str(&mut m, service_id);
    push_str(&mut m, " not found at ");
    push_str(&mut m, dir);
    WorkspaceError::NotFound(m)
}

/// `git push -u origin <branch>`.
pub fn push_args(input: &PushBranchInput) -> (args: Vec<String>)
    ensures
        views(args@) == seq!["push"@, "-u"@, "origin"@, input.branch@],
{
    let args = vec![owned("push"), owned("-u"), owned("origin"), input.branch.clone()];
    assert(views(args@) =~= seq!["push"@, "-u"@, "origin"@, input.branch@]);
    args
}

/// `gh pr create --title .. --body .. --head <branch>`, `--draft` for a draft.
pub fn pr_create_args(input: &CreatePullRequestInput) -> (args: Vec<String>)
    ensures
        views(args@) == seq![
            "pr"@,
            "create"@,
            "--title"@,
            input.title@,
            "--body"@,
            input.body@,
            "--head"@,
            input.branch@,
        ] + if input.draft {
            seq!["--draft"@]
        } else {
            Seq::empty()
        },
{
    let mut args = vec![
        owned("pr"),
        owned("create"),
        owned("--title"),
        input.title.clone(),
        owned("--body"),
        input.body.clone(),
        owned("--head"),
        input.branch.clone(),
    ];
    if input.draft {
        args.push(owned("--draft"));
    }
    assert(views(args@) =~= seq![
        "pr"@,
        "create"@,
        "--title"@,
        input.title@,
        "--body"@,
        input.body@,
        "--head"@,
        input.branch@,
    ] + if input.draft {
        seq!["--draft"@]
    } else {
        Seq::<Seq<char>>::empty()
    });
    args
}

/// The pull request `gh pr create` printed: its trimmed URL, numbered by
/// the URL's last `/` segment (0 when that is no number), open.
pub fn pull_request_from(output: &str) -> (pr: PullRequest)
    ensures
        pr.url@ == trim(output@),
        pr.number == match decimal_value(crate::lint::after_last(trim(output@), '/')) {
            Some(n) => if n <= usize::MAX { n as usize } else { 0usize },
            None => 0usize,
        },
        pr.state@ == "open"@,
{
    let t = str_trim(output);
    let last = crate::lint::after_last_char(&t, '/');
    let s = chars_string(&last);
    let number = match parse_usize(s.as_str()) {
        Some(n) => n,
        None => 0,
    };
    PullRequest { number, url: chars_string(&t), state: owned("open") }
}

/// Authentication through `gh auth status`, with the login `gh api user`
/// printed when it could be asked.
pub fn gh_auth(authenticated: bool, login: Option<String>) -> (a: AuthStatus)
    ensures
        a.authenticated == authenticated,
        authenticated ==> opt_view(a.username) == match login {
            Some(l) => Some(trim(l@)),
            None => None,
        } && opt_view(a.details) == Some("GitHub CLI authenticated"@),
        !authenticated ==> a.username is None && opt_view(a.details) == Some(
            "GitHub CLI not authenticated. Please run 'gh auth login'."@,
        ),
{
    if authenticated {
        AuthStatus {
            authenticated: true,
            username: match login {
                Some(l) => Some(chars_string(&str_trim(l.as_str()))),
                None => None,
            },
            details: Some(owned("GitHub CLI authenticated")),
        }
    } else {
        AuthStatus {
            authenticated: false,
            username: None,
            details: Some(owned("GitHub CLI not authenticated. Please run 'gh auth login'.")),
        }
    }
}

} // verus!
