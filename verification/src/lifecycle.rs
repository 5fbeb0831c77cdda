//! Feature workspaces over their lifetime: creation, growing by a service or
//! a task slice, attaching a ticket, status, and the derived files (the
//! resume `AGENTS.md` and the editor `.code-workspace` folder list).
//!
//! Git, the code provider and the filesystem are driven by the caller; the
//! functions here decide what to create, record and write, and turn what
//! git printed into statuses.
use vstd::prelude::*;
use crate::command::CommandInfo;
use crate::error::WorkspaceError;
use crate::models::{
    insert_keyed, key_index, lookup, CatalogRepo, LockedRepo, ServiceCatalog, Workspace,
    WorkspaceLock, WorkspaceTask,
};
use crate::text::{
    chars_string, decimal_value, joined, owned, parse_u64, path_join, push_str, str_eq, str_trim,
    trim, views, join_path,
};
use crate::workspaces::{dir_name_of, get_workspace_dir, workspace_dir_name, WorkspaceOnDisk};

verus! {

// ==========================================
// Status of worktrees
// ==========================================

/// The state of one worktree.
pub struct RepoStatus {
    pub service_id: String,
    pub branch: String,
    pub current_commit: String,
    pub baseline_commit: String,
    pub has_changes: bool,
    /// Commits ahead of the upstream branch (`None`: no upstream configured).
    pub unpushed_count: Option<u64>,
}

/// The state of one task slice: its branch and one status per repo.
pub struct TaskStatusOutput {
    pub key: String,
    pub slug: String,
    pub branch: String,
    pub repo_statuses: Vec<(String, RepoStatus)>,
}

/// What git printed in a worktree; `None` where the command failed.
pub struct GitProbe {
    /// `git rev-parse --abbrev-ref HEAD`
    pub branch: Option<String>,
    /// `git rev-parse HEAD`
    pub commit: Option<String>,
    /// `git status --porcelain`
    pub porcelain: Option<String>,
    /// `git rev-list --count @{u}..HEAD`
    pub ahead: Option<String>,
}

/// A command's trimmed output, or `unknown` when it failed.
pub open spec fn trimmed_or_unknown(out: Option<String>) -> Seq<char> {
    match out {
        Some(o) => trim(o@),
        None => "unknown"@,
    }
}

/// The number a command printed, when it printed one.
pub open spec fn count_of(out: Option<String>) -> Option<u64> {
    match out {
        Some(o) => match decimal_value(trim(o@)) {
            Some(n) => if n <= u64::MAX { Some(n as u64) } else { None },
            None => None,
        },
        None => None,
    }
}

/// Status of a worktree. `probe` is `None` when the worktree directory does
/// not exist: everything is then unknown and unchanged.
pub open spec fn status_of(
    service_id: Seq<char>,
    baseline: Seq<char>,
    probe: Option<GitProbe>,
) -> (Seq<char>, Seq<char>, Seq<char>, Seq<char>, bool, Option<u64>) {
    match probe {
        None => (service_id, "unknown"@, "unknown"@, baseline, false, None),
        Some(p) => (
            service_id,
            trimmed_or_unknown(p.branch),
            trimmed_or_unknown(p.commit),
            baseline,
            p.porcelain matches Some(o) && trim(o@).len() > 0,
            count_of(p.ahead),
        ),
    }
}

impl RepoStatus {
    pub open spec fn spec(&self) -> (Seq<char>, Seq<char>, Seq<char>, Seq<char>, bool, Option<u64>) {
        (
            self.service_id@,
            self.branch@,
            self.current_commit@,
            self.baseline_commit@,
            self.has_changes,
            self.unpushed_count,
        )
    }
}

/// A command's trimmed output, or `unknown` when it failed (how a
/// baseline commit is read from `git rev-parse HEAD`).
pub fn trimmed_output(out: &Option<String>) -> (s: String)
    ensures
        s@ == trimmed_or_unknown(*out),
{
    match out {
        Some(o) => {
            let t = str_trim(o.as_str());
            chars_string(&t)
        },
        None => owned("unknown"),
    }
}

/// The status of a worktree from what git printed in it.
pub fn repo_status(service_id: &str, baseline: &str, probe: &Option<GitProbe>) -> (s: RepoStatus)
    ensures
        s.spec() == status_of(service_id@, baseline@, *probe),
{
    match probe {
        None => RepoStatus {
            service_id: owned(service_id),
            branch: owned("unknown"),
            current_commit: owned("unknown"),
            baseline_commit: owned(baseline),
            has_changes: false,
            unpushed_count: None,
        },
        Some(p) => {
            let has_changes = match &p.porcelain {
                Some(o) => str_trim(o.as_str()).len() > 0,
                None => false,
            };
            let unpushed_count = match &p.ahead {
                Some(o) => {
                    let t = chars_string(&str_trim(o.as_str()));
                    parse_u64(t.as_str())
                },
                None => None,
            };
            RepoStatus {
                service_id: owned(service_id),
                branch: trimmed_output(&p.branch),
                current_commit: trimmed_output(&p.commit),
                baseline_commit: owned(baseline),
                has_changes,
                unpushed_count,
            }
        },
    }
}

/// The baseline commit a lock records for a service: the locked one, or
/// `unknown`.
pub open spec fn baseline_of(baselines: Seq<(String, LockedRepo)>, svc: Seq<char>) -> Seq<char> {
    match lookup(baselines, svc) {
        Some(r) => r.baseline_commit@,
        None => "unknown"@,
    }
}

fn baseline_for(baselines: &Vec<(String, LockedRepo)>, svc: &str) -> (b: String)
    ensures
        b@ == baseline_of(baselines@, svc@),
{
    match crate::models::find_key(baselines, svc) {
        Some(i) => baselines[i].1.baseline_commit.clone(),
        None => owned("unknown"),
    }
}

/// `<root>/workspaces/<folder>/repos/<service>`: where a main worktree lives.
pub fn repo_worktree_dir(root: &str, folder: &str, service_id: &str) -> (d: String)
    ensures
        d@ == path_join(
            path_join(path_join(path_join(root@, "workspaces"@), folder@), "repos"@),
            service_id@,
        ),
{
    let w = get_workspace_dir(root, folder);
    let r = join_path(w.as_str(), "repos");
    join_path(r.as_str(), service_id)
}

/// `<root>/workspaces/<folder>/tasks/<slug>/<service>`: a task worktree.
pub fn task_worktree_dir(root: &str, folder: &str, slug: &str, service_id: &str) -> (d: String)
    ensures
        d@ == path_join(
            path_join(
                path_join(path_join(path_join(root@, "workspaces"@), folder@), "tasks"@),
                slug@,
            ),
            service_id@,
        ),
{
    let w = get_workspace_dir(root, folder);
    let t = join_path(w.as_str(), "tasks");
    let s = join_path(t.as_str(), slug);
    join_path(s.as_str(), service_id)
}

/// Per-service status of the main worktrees, in workspace service order.
/// `probes[k]` is what git printed in the worktree of `ws.services[k]`
/// (see [`repo_worktree_dir`]); a missing probe counts as no directory.
pub fn collect_repo_statuses(
    ws: &Workspace,
    baselines: &Vec<(String, LockedRepo)>,
    probes: &Vec<Option<GitProbe>>,
) -> (out: Vec<(String, RepoStatus)>)
    ensures
        out@.len() == ws.services@.len(),
        forall|k: int|
            #![trigger out@[k]]
            0 <= k < out@.len() ==> out@[k].0@ == ws.services@[k]@ && out@[k].1.spec()
                == status_of(
                ws.services@[k]@,
                baseline_of(baselines@, ws.services@[k]@),
                if k < probes@.len() { probes@[k] } else { None },
            ),
{
    let mut out: Vec<(String, RepoStatus)> = Vec::new();
    let mut k: usize = 0;
    while k < ws.services.len()
        invariant
            k <= ws.services.len(),
            out@.len() == k,
            forall|j: int|
                #![trigger out@[j]]
                0 <= j < k ==> out@[j].0@ == ws.services@[j]@ && out@[j].1.spec()
                    == status_of(
                    ws.services@[j]@,
                    baseline_of(baselines@, ws.services@[j]@),
                    if j < probes@.len() { probes@[j] } else { None },
                ),
        decreases ws.services.len() - k,
    {
        let svc = &ws.services[k];
        let base = baseline_for(baselines, svc.as_str());
        let none: Option<GitProbe> = None;
        let probe = if k < probes.len() { &probes[k] } else { &none };
        let st = repo_status(svc.as_str(), base.as_str(), probe);
        assert(*probe == (if k < probes@.len() { probes@[k as int] } else { None }));
        let ghost before = out@;
        out.push((svc.clone(), st));
        assert(out@[k as int].1.spec() == st.spec());
        assert(forall|j: int| 0 <= j < k ==> out@[j] == before[j]);
        k += 1;
    }
    out
}

/// The baselines a lock records for a task slice.
pub open spec fn task_baselines_of(
    tasks: Seq<(String, Vec<(String, LockedRepo)>)>,
    slug: Seq<char>,
) -> Seq<(String, LockedRepo)> {
    match lookup(tasks, slug) {
        Some(m) => m@,
        None => Seq::empty(),
    }
}

/// Per-task status of the task worktrees, in task order; each task's branch
/// is `<ws.id>-<slug>` and its repos are listed in task repo order.
/// `probes[t][k]` is what git printed in the worktree of the `k`-th repo of
/// the `t`-th task (see [`task_worktree_dir`]).
pub fn collect_task_statuses(
    ws: &Workspace,
    task_baselines: &Vec<(String, Vec<(String, LockedRepo)>)>,
    probes: &Vec<Vec<Option<GitProbe>>>,
) -> (out: Vec<TaskStatusOutput>)
    ensures
        out@.len() == ws.tasks@.len(),
        forall|t: int|
            #![trigger out@[t]]
            0 <= t < out@.len() ==> {
                let task = ws.tasks@[t];
                let o = out@[t];
                &&& o.key@ == task.key@
                &&& o.slug@ == task.slug@
                &&& o.branch@ == ws.id@ + "-"@ + task.slug@
                &&& o.repo_statuses@.len() == task.repos@.len()
                &&& forall|k: int|
                    #![trigger o.repo_statuses@[k]]
                    0 <= k < task.repos@.len() ==> o.repo_statuses@[k].0@
                        == task.repos@[k]@ && o.repo_statuses@[k].1.spec() == status_of(
                        task.repos@[k]@,
                        baseline_of(task_baselines_of(task_baselines@, task.slug@), task.repos@[k]@),
                        if t < probes@.len() && k < probes@[t]@.len() {
                            probes@[t]@[k]
                        } else {
                            None
                        },
                    )
            },
{
    let mut out: Vec<TaskStatusOutput> = Vec::new();
    let mut t: usize = 0;
    let empty_map: Vec<(String, LockedRepo)> = Vec::new();
    let empty_probes: Vec<Option<GitProbe>> = Vec::new();
    while t < ws.tasks.len()
        invariant
            t <= ws.tasks.len(),
            out@.len() == t,
            empty_map@.len() == 0,
            empty_probes@.len() == 0,
            forall|j: int|
                #![trigger out@[j]]
                0 <= j < t ==> {
                    let task = ws.tasks@[j];
                    let o = out@[j];
                    &&& o.key@ == task.key@
                    &&& o.slug@ == task.slug@
                    &&& o.branch@ == ws.id@ + "-"@ + task.slug@
                    &&& o.repo_statuses@.len() == task.repos@.len()
                    &&& forall|k: int|
                        #![trigger o.repo_statuses@[k]]
                        0 <= k < task.repos@.len() ==> o.repo_statuses@[k].0@
                            == task.repos@[k]@ && o.repo_statuses@[k].1.spec() == status_of(
                            task.repos@[k]@,
                            baseline_of(
                                task_baselines_of(task_baselines@, task.slug@),
                                task.repos@[k]@,
                            ),
                            if j < probes@.len() && k < probes@[j]@.len() {
                                probes@[j]@[k]
                            } else {
                                None
                            },
                        )
                },
        decreases ws.tasks.len() - t,
    {
        let task = &ws.tasks[t];
        let bases = match crate::models::find_key(task_baselines, task.slug.as_str()) {
            Some(i) => &task_baselines[i].1,
            None => &empty_map,
        };
        assert(bases@ == task_baselines_of(task_baselines@, task.slug@));
        let tprobes = if t < probes.len() { &probes[t] } else { &empty_probes };
        let mut statuses: Vec<(String, RepoStatus)> = Vec::new();
        let mut k: usize = 0;
        while k < task.repos.len()
            invariant
                k <= task.repos.len(),
                statuses@.len() == k,
                t < probes@.len() ==> tprobes@ == probes@[t as int]@,
                t >= probes@.len() ==> tprobes@.len() == 0,
                forall|q: int|
                    #![trigger statuses@[q]]
                    0 <= q < k ==> statuses@[q].0@ == task.repos@[q]@
                        && statuses@[q].1.spec() == status_of(
                        task.repos@[q]@,
                        baseline_of(bases@, task.repos@[q]@),
                        if q < tprobes@.len() { tprobes@[q] } else { None },
                    ),
            decreases task.repos.len() - k,
        {
            let svc = &task.repos[k];
            let base = baseline_for(bases, svc.as_str());
            let none: Option<GitProbe> = None;
            let probe = if k < tprobes.len() { &tprobes[k] } else { &none };
            let st = repo_status(svc.as_str(), base.as_str(), probe);
            assert(*probe == (if k < tprobes@.len() { tprobes@[k as int] } else { None }));
            let ghost before = statuses@;
            statuses.push((svc.clone(), st));
            assert(forall|q: int| 0 <= q < k ==> statuses@[q] == before[q]);
            k += 1;
        }
        let mut branch = ws.id.clone();
        push_str(&mut branch, "-");
        push_str(&mut branch, task.slug.as_str());
        let ghost before = out@;
        out.push(
            TaskStatusOutput {
                key: task.key.clone(),
                slug: task.slug.clone(),
                branch,
                repo_statuses: statuses,
            },
        );
        assert(forall|j: int| 0 <= j < t ==> out@[j] == before[j]);
        t += 1;
    }
    out
}

/// The workspace's lock, or an empty lock for the workspace when none could
/// be loaded (hand-authored workspaces have no `locks.yaml`).
pub fn load_workspace_lock_or_default(ws: &Workspace, loaded: Option<WorkspaceLock>) -> (lock:
    WorkspaceLock)
    ensures
        match loaded {
            Some(l) => lock == l,
            None => lock.id@ == ws.id@ && lock.repos@.len() == 0 && lock.tasks@.len() == 0,
        },
{
    match loaded {
        Some(l) => l,
        None => WorkspaceLock { id: ws.id.clone(), repos: Vec::new(), tasks: Vec::new() },
    }
}

// ==========================================
// Create
// ==========================================

/// What a new workspace is made from.
pub struct CreateWorkspaceRequest {
    pub id: String,
    pub ticket: Option<String>,
    pub title: String,
    pub description: String,
    pub services: Vec<ServiceCatalog>,
    pub base_branch: String,
    pub create_branches: bool,
    pub editor: String,
}

pub open spec fn opt_view(o: Option<String>) -> Option<Seq<char>> {
    match o {
        Some(x) => Some(x@),
        None => None,
    }
}

/// A ticket as recorded: trimmed, and dropped when blank.
pub open spec fn clean_ticket(t: Option<String>) -> Option<Seq<char>> {
    match t {
        Some(x) => if trim(x@).len() > 0 { Some(trim(x@)) } else { None },
        None => None,
    }
}

pub open spec fn service_ids(services: Seq<ServiceCatalog>) -> Seq<Seq<char>> {
    services.map_values(|s: ServiceCatalog| s.id@)
}

/// The workspace record a request creates; `created_at` is the creation
/// time (RFC 3339).
pub fn new_workspace(req: &CreateWorkspaceRequest, created_at: String) -> (ws: Workspace)
    ensures
        ws.id@ == req.id@,
        opt_view(ws.ticket) == clean_ticket(req.ticket),
        ws.title@ == req.title@,
        ws.description@ == req.description@,
        opt_view(ws.created_at) == Some(created_at@),
        views(ws.services@) == service_ids(req.services@),
        ws.base_branch@ == req.base_branch@,
        ws.create_branches == req.create_branches,
        ws.editor@ == req.editor@,
        ws.tasks@.len() == 0,
{
    let ticket = match &req.ticket {
        Some(t) => {
            let tt = str_trim(t.as_str());
            if tt.len() > 0 {
                Some(chars_string(&tt))
            } else {
                None
            }
        },
        None => None,
    };
    let mut services: Vec<String> = Vec::new();
    let mut k: usize = 0;
    while k < req.services.len()
        invariant
            k <= req.services.len(),
            views(services@) == service_ids(req.services@).take(k as int),
        decreases req.services.len() - k,
    {
        let ghost before = views(services@);
        services.push(req.services[k].id.clone());
        assert(views(services@) =~= before.push(req.services@[k as int].id@));
        assert(service_ids(req.services@).take(k + 1) =~= service_ids(req.services@).take(
            k as int,
        ).push(req.services@[k as int].id@));
        k += 1;
    }
    assert(service_ids(req.services@).take(req.services.len() as int) =~= service_ids(
        req.services@,
    ));
    Workspace {
        id: req.id.clone(),
        ticket,
        title: req.title.clone(),
        description: req.description.clone(),
        created_at: Some(created_at),
        services,
        base_branch: req.base_branch.clone(),
        create_branches: req.create_branches,
        editor: req.editor.clone(),
        tasks: Vec::new(),
    }
}

/// The branch a service worktree is created on: the ticket (else the
/// workspace id) when the workspace creates branches, else the repo's
/// default branch.
pub open spec fn branch_for(ws: Workspace, default_branch: Seq<char>) -> Seq<char> {
    if ws.create_branches {
        match ws.ticket {
            Some(t) => t@,
            None => ws.id@,
        }
    } else {
        default_branch
    }
}

pub fn worktree_branch(ws: &Workspace, default_branch: &str) -> (b: String)
    ensures
        b@ == branch_for(*ws, default_branch@),
{
    if ws.create_branches {
        match &ws.ticket {
            Some(t) => t.clone(),
            None => ws.id.clone(),
        }
    } else {
        owned(default_branch)
    }
}

/// The request for a service's main worktree `repos/<service>`.
pub fn service_worktree_input(ws: &Workspace, folder: &str, service: &ServiceCatalog) -> (w:
    crate::models::CreateWorktreeInput)
    ensures
        w.owner@ == service.repo.owner@,
        w.name@ == service.repo.name@,
        w.url@ == service.repo.url@,
        w.folder@ == folder@,
        w.service_id@ == service.id@,
        w.base_branch@ == ws.base_branch@,
        w.branch@ == branch_for(*ws, service.repo.default_branch@),
        w.subdir is None,
{
    crate::models::CreateWorktreeInput {
        owner: service.repo.owner.clone(),
        name: service.repo.name.clone(),
        url: service.repo.url.clone(),
        folder: owned(folder),
        service_id: service.id.clone(),
        base_branch: ws.base_branch.clone(),
        branch: worktree_branch(ws, service.repo.default_branch.as_str()),
        subdir: None,
    }
}

/// The lock record of a repo checked out at `baseline`.
pub fn locked_repo(repo: &CatalogRepo, baseline: String) -> (l: LockedRepo)
    ensures
        l.provider@ == repo.provider@,
        l.owner@ == repo.owner@,
        l.name@ == repo.name@,
        l.default_branch@ == repo.default_branch@,
        l.baseline_commit@ == baseline@,
{
    LockedRepo {
        provider: repo.provider.clone(),
        owner: repo.owner.clone(),
        name: repo.name.clone(),
        default_branch: repo.default_branch.clone(),
        baseline_commit: baseline,
    }
}

// ==========================================
// Add a service
// ==========================================

/// Whether the workspace already has the service.
pub fn workspace_has_service(ws: &Workspace, service_id: &str) -> (res: bool)
    ensures
        res == views(ws.services@).contains(service_id@),
{
    let mut k: usize = 0;
    while k < ws.services.len()
        invariant
            k <= ws.services.len(),
            forall|j: int| 0 <= j < k ==> ws.services@[j]@ != service_id@,
        decreases ws.services.len() - k,
    {
        if str_eq(ws.services[k].as_str(), service_id) {
            assert(views(ws.services@)[k as int] == service_id@);
            return true;
        }
        k += 1;
    }
    false
}

/// Records a service added to a workspace: its id joins the services and
/// its lock record, with the baseline its worktree was created at, joins
/// the lock.
pub fn record_service(
    ws: &mut Workspace,
    lock: &mut WorkspaceLock,
    service: &ServiceCatalog,
    baseline: String,
)
    ensures
        views(final(ws).services@) == views(old(ws).services@).push(service.id@),
        final(ws).id == old(ws).id,
        final(ws).ticket == old(ws).ticket,
        final(ws).tasks == old(ws).tasks,
        final(ws).base_branch == old(ws).base_branch,
        final(ws).create_branches == old(ws).create_branches,
        lookup(final(lock).repos@, service.id@) matches Some(l) && l.baseline_commit@ == baseline@
            && l.owner@ == service.repo.owner@ && l.name@ == service.repo.name@,
        forall|q: Seq<char>|
            q != service.id@ ==> lookup(final(lock).repos@, q) == lookup(old(lock).repos@, q),
        final(lock).tasks == old(lock).tasks,
        final(lock).id == old(lock).id,
        unique_names(views(old(ws).services@)) && !views(old(ws).services@).contains(service.id@)
            ==> unique_names(views(final(ws).services@)),
{
    ws.services.push(service.id.clone());
    assert(views(ws.services@) =~= views(old(ws).services@).push(service.id@));
    let l = locked_repo(&service.repo, baseline);
    insert_keyed(&mut lock.repos, service.id.clone(), l);
}

// ==========================================
// Task slices
// ==========================================

/// No two tasks share a slug.
pub open spec fn unique_slugs(tasks: Seq<WorkspaceTask>) -> bool {
    forall|i: int, j: int| 0 <= i < j < tasks.len() ==> tasks[i].slug@ != tasks[j].slug@
}

/// No service occurs twice.
pub open spec fn unique_names(v: Seq<Seq<char>>) -> bool {
    forall|i: int, j: int| 0 <= i < j < v.len() ==> v[i] != v[j]
}

proof fn lemma_task_index_none(tasks: Seq<WorkspaceTask>, slug: Seq<char>, i: int)
    requires
        0 <= i,
        task_index_from(tasks, slug, i) is None,
    ensures
        forall|j: int| i <= j < tasks.len() ==> tasks[j].slug@ != slug,
    decreases tasks.len() - i,
{
    if i < tasks.len() {
        lemma_task_index_none(tasks, slug, i + 1);
    }
}

proof fn lemma_task_index_some(tasks: Seq<WorkspaceTask>, slug: Seq<char>, i: int)
    requires
        0 <= i,
        task_index_from(tasks, slug, i) is Some,
    ensures
        i <= task_index_from(tasks, slug, i)->0 < tasks.len(),
        tasks[task_index_from(tasks, slug, i)->0].slug@ == slug,
    decreases tasks.len() - i,
{
    if i < tasks.len() && tasks[i].slug@ != slug {
        lemma_task_index_some(tasks, slug, i + 1);
    }
}

/// Position of the first task with the slug.
pub open spec fn task_index_from(tasks: Seq<WorkspaceTask>, slug: Seq<char>, i: int) -> Option<int>
    decreases tasks.len() - i,
{
    if i < 0 || i >= tasks.len() {
        None
    } else if tasks[i].slug@ == slug {
        Some(i)
    } else {
        task_index_from(tasks, slug, i + 1)
    }
}

pub fn task_position(ws: &Workspace, slug: &str) -> (res: Option<usize>)
    ensures
        match res {
            Some(i) => task_index_from(ws.tasks@, slug@, 0) == Some(i as int) && i < ws.tasks@.len(),
            None => task_index_from(ws.tasks@, slug@, 0) is None,
        },
{
    let mut i: usize = 0;
    while i < ws.tasks.len()
        invariant
            i <= ws.tasks.len(),
            task_index_from(ws.tasks@, slug@, 0) == task_index_from(ws.tasks@, slug@, i as int),
        decreases ws.tasks.len() - i,
    {
        if str_eq(ws.tasks[i].slug.as_str(), slug) {
            return Some(i);
        }
        i += 1;
    }
    None
}

/// The repos a task slice already has.
pub open spec fn task_repos_of(ws: Workspace, slug: Seq<char>) -> Seq<Seq<char>> {
    match task_index_from(ws.tasks@, slug, 0) {
        Some(i) => views(ws.tasks@[i].repos@),
        None => Seq::empty(),
    }
}

/// The services that get a new task worktree: those of `services` (in
/// order) that the task does not have yet, each once.
pub open spec fn new_task_repos(existing: Seq<Seq<char>>, services: Seq<Seq<char>>) -> Seq<
    Seq<char>,
>
    decreases services.len(),
{
    if services.len() == 0 {
        Seq::empty()
    } else {
        let r = new_task_repos(existing, services.drop_last());
        if existing.contains(services.last()) || r.contains(services.last()) {
            r
        } else {
            r.push(services.last())
        }
    }
}

fn contains_string(v: &Vec<String>, x: &str) -> (res: bool)
    ensures
        res == views(v@).contains(x@),
{
    let mut k: usize = 0;
    while k < v.len()
        invariant
            k <= v.len(),
            forall|j: int| 0 <= j < k ==> v@[j]@ != x@,
        decreases v.len() - k,
    {
        if str_eq(v[k].as_str(), x) {
            assert(views(v@)[k as int] == x@);
            return true;
        }
        k += 1;
    }
    false
}

/// The services of `services` that need a worktree in the task slice.
pub fn task_services_to_add(ws: &Workspace, slug: &str, services: &Vec<String>) -> (out: Vec<String>)
    ensures
        views(out@) == new_task_repos(task_repos_of(*ws, slug@), views(services@)),
{
    let empty: Vec<String> = Vec::new();
    let existing = match task_position(ws, slug) {
        Some(i) => &ws.tasks[i].repos,
        None => &empty,
    };
    assert(views(existing@) == task_repos_of(*ws, slug@)) by {
        assert(views(empty@) =~= Seq::<Seq<char>>::empty());
    }
    let mut out: Vec<String> = Vec::new();
    let mut k: usize = 0;
    while k < services.len()
        invariant
            k <= services.len(),
            views(existing@) == task_repos_of(*ws, slug@),
            views(out@) == new_task_repos(views(existing@), views(services@).take(k as int)),
        decreases services.len() - k,
    {
        let svc = &services[k];
        assert(views(services@).take(k + 1).drop_last() =~= views(services@).take(k as int));
        assert(views(services@).take(k + 1).last() == svc@);
        if !contains_string(existing, svc.as_str()) && !contains_string(&out, svc.as_str()) {
            let ghost before = views(out@);
            out.push(svc.clone());
            assert(views(out@) =~= before.push(svc@));
        }
        k += 1;
    }
    assert(views(services@).take(services.len() as int) =~= views(services@));
    out
}

/// `<ws.id>-<slug>`: the branch of a task slice (git cannot nest a ref
/// under a branch ref).
pub open spec fn task_branch(ws_id: Seq<char>, slug: Seq<char>) -> Seq<char> {
    ws_id + "-"@ + slug
}

/// The request for a task worktree `tasks/<slug>/<service>`.
pub fn task_worktree_input(ws: &Workspace, folder: &str, slug: &str, service_id: &str, repo: &CatalogRepo) -> (w:
    crate::models::CreateWorktreeInput)
    ensures
        w.owner@ == repo.owner@,
        w.name@ == repo.name@,
        w.url@ == repo.url@,
        w.folder@ == folder@,
        w.service_id@ == service_id@,
        w.base_branch@ == ws.base_branch@,
        w.branch@ == task_branch(ws.id@, slug@),
        w.subdir matches Some(d) && d@ == "tasks/"@ + slug@ + "/"@ + service_id@,
{
    let mut branch = ws.id.clone();
    push_str(&mut branch, "-");
    push_str(&mut branch, slug);
    let mut sub = owned("tasks/");
    push_str(&mut sub, slug);
    push_str(&mut sub, "/");
    push_str(&mut sub, service_id);
    crate::models::CreateWorktreeInput {
        owner: repo.owner.clone(),
        name: repo.name.clone(),
        url: repo.url.clone(),
        folder: owned(folder),
        service_id: owned(service_id),
        base_branch: ws.base_branch.clone(),
        branch,
        subdir: Some(sub),
    }
}

/// Records the worktrees created for a task slice: the task (found by slug)
/// gets the new repos appended, or a new task `key`/`slug` is added with
/// them; the lock records each repo's baseline under the slug.
pub fn record_task(
    ws: &mut Workspace,
    lock: &mut WorkspaceLock,
    key: &str,
    slug: &str,
    added: Vec<(String, LockedRepo)>,
)
    ensures
        final(ws).id == old(ws).id,
        final(ws).services == old(ws).services,
        final(ws).ticket == old(ws).ticket,
        match task_index_from(old(ws).tasks@, slug@, 0) {
            Some(i) => final(ws).tasks@.len() == old(ws).tasks@.len() && views(
                final(ws).tasks@[i].repos@,
            ) == views(old(ws).tasks@[i].repos@) + added@.map_values(
                |p: (String, LockedRepo)| p.0@,
            ) && final(ws).tasks@[i].slug == old(ws).tasks@[i].slug && final(ws).tasks@[i].key
                == old(ws).tasks@[i].key && forall|j: int|
                0 <= j < old(ws).tasks@.len() && j != i ==> final(ws).tasks@[j] == old(
                    ws,
                ).tasks@[j],
            None => final(ws).tasks@.len() == old(ws).tasks@.len() + 1 && final(ws).tasks@.last().key@
                == key@ && final(ws).tasks@.last().slug@ == slug@ && views(
                final(ws).tasks@.last().repos@,
            ) == added@.map_values(|p: (String, LockedRepo)| p.0@) && forall|j: int|
                0 <= j < old(ws).tasks@.len() ==> final(ws).tasks@[j] == old(ws).tasks@[j],
        },
        lookup(final(lock).tasks@, slug@) matches Some(m) && forall|j: int|
            0 <= j < added@.len() ==> #[trigger] lookup(m@, added@[j].0@) == Some(
                added@[j].1,
            ) || exists|h: int| j < h < added@.len() && added@[h].0@ == added@[j].0@,
        forall|q: Seq<char>|
            q != slug@ ==> lookup(final(lock).tasks@, q) == lookup(old(lock).tasks@, q),
        final(lock).repos == old(lock).repos,
        final(lock).id == old(lock).id,
        unique_slugs(old(ws).tasks@) ==> unique_slugs(final(ws).tasks@),
{
    proof {
        if task_index_from(ws.tasks@, slug@, 0) is None {
            lemma_task_index_none(ws.tasks@, slug@, 0);
        } else {
            lemma_task_index_some(ws.tasks@, slug@, 0);
        }
    }
    let mut bases: Vec<(String, LockedRepo)> = match crate::models::find_key(&lock.tasks, slug) {
        Some(i) => copy_locks(&lock.tasks[i].1),
        None => Vec::new(),
    };
    let mut names: Vec<String> = Vec::new();
    let mut rest = added;
    let ghost added0 = rest@;
    let ghost names0 = added0.map_values(|p: (String, LockedRepo)| p.0@);
    let mut k: usize = 0;
    let n = rest.len();
    while rest.len() > 0
        invariant
            n == added0.len(),
            names0 == added0.map_values(|p: (String, LockedRepo)| p.0@),
            k + rest@.len() == n,
            rest@ == added0.skip(k as int),
            views(names@) == names0.take(k as int),
            forall|j: int|
                0 <= j < k ==> #[trigger] lookup(bases@, added0[j].0@) == Some(added0[j].1) || exists|
                    h: int,
                | j < h < k && added0[h].0@ == added0[j].0@,
        decreases rest@.len(),
    {
        let (nm, l) = rest.remove(0);
        assert(added0[k as int] == (nm, l));
        assert(names0[k as int] == nm@);
        assert(added0.skip(k as int).drop_first() =~= added0.skip(k + 1));
        let ghost before = views(names@);
        names.push(nm.clone());
        assert(views(names@) =~= before.push(nm@));
        assert(names0.take(k + 1) =~= names0.take(k as int).push(nm@));
        let ghost b0 = bases@;
        insert_keyed(&mut bases, nm, l);
        assert forall|j: int| 0 <= j < k + 1 implies #[trigger] lookup(bases@, added0[j].0@) == Some(
            added0[j].1,
        ) || exists|h: int| j < h < k + 1 && added0[h].0@ == added0[j].0@ by {
            if j < k && added0[j].0@ == nm@ {
                assert(added0[k as int].0@ == added0[j].0@);
            }
        }
        k += 1;
    }
    assert(names0.take(k as int) =~= names0);
    match task_position(ws, slug) {
        Some(i) => {
            let old_task = &ws.tasks[i];
            let mut repos = copy_strings(&old_task.repos);
            let ghost r0 = views(repos@);
            let mut j: usize = 0;
            while j < names.len()
                invariant
                    j <= names.len(),
                    views(repos@) == r0 + views(names@).take(j as int),
                decreases names.len() - j,
            {
                let ghost before = views(repos@);
                repos.push(names[j].clone());
                assert(views(repos@) =~= before.push(names@[j as int]@));
                assert(views(names@).take(j + 1) =~= views(names@).take(j as int).push(
                    names@[j as int]@,
                ));
                j += 1;
            }
            assert(views(names@).take(names.len() as int) =~= views(names@));
            let task = WorkspaceTask {
                key: old_task.key.clone(),
                slug: old_task.slug.clone(),
                repos,
            };
            ws.tasks.set(i, task);
        },
        None => {
            ws.tasks.push(WorkspaceTask { key: owned(key), slug: owned(slug), repos: names });
        },
    }
    insert_keyed(&mut lock.tasks, owned(slug), bases);
}

fn copy_strings(v: &Vec<String>) -> (r: Vec<String>)
    ensures
        r@ == v@,
{
    let mut r: Vec<String> = Vec::new();
    let mut k: usize = 0;
    while k < v.len()
        invariant
            k <= v.len(),
            r@ == v@.take(k as int),
        decreases v.len() - k,
    {
        r.push(v[k].clone());
        assert(r@ =~= v@.take(k + 1));
        k += 1;
    }
    assert(v@.take(v.len() as int) =~= v@);
    r
}

fn copy_lock(l: &LockedRepo) -> (c: LockedRepo)
    ensures
        c == *l,
{
    LockedRepo {
        provider: l.provider.clone(),
        owner: l.owner.clone(),
        name: l.name.clone(),
        default_branch: l.default_branch.clone(),
        baseline_commit: l.baseline_commit.clone(),
    }
}

fn copy_locks(v: &Vec<(String, LockedRepo)>) -> (r: Vec<(String, LockedRepo)>)
    ensures
        r@ == v@,
{
    let mut r: Vec<(String, LockedRepo)> = Vec::new();
    let mut k: usize = 0;
    while k < v.len()
        invariant
            k <= v.len(),
            r@ == v@.take(k as int),
        decreases v.len() - k,
    {
        r.push((v[k].0.clone(), copy_lock(&v[k].1)));
        assert(r@ =~= v@.take(k + 1));
        k += 1;
    }
    assert(v@.take(v.len() as int) =~= v@);
    r
}

// ==========================================
// Attach a ticket
// ==========================================

/// The ticket to attach: trimmed, and refused when blank.
pub fn attach_ticket(ticket: &str) -> (res: Result<String, WorkspaceError>)
    ensures
        trim(ticket@).len() > 0 ==> (res matches Ok(t) && t@ == trim(ticket@)),
        trim(ticket@).len() == 0 ==> (res matches Err(WorkspaceError::Validation(m)) && m@
            == "Ticket must not be empty."@),
{
    let t = str_trim(ticket);
    if t.len() == 0 {
        Err(WorkspaceError::Validation(owned("Ticket must not be empty.")))
    } else {
        Ok(chars_string(&t))
    }
}

/// Attaching a ticket to an unticketed workspace puts it in the folder
/// `<trimmed ticket>-<slug>`.
pub proof fn lemma_attached_folder(ws: Workspace, attached: Workspace, raw: Seq<char>)
    requires
        ws.ticket is None,
        trim(raw).len() > 0,
        attached.ticket matches Some(t) && t@ == trim(raw),
        attached.id == ws.id,
    ensures
        dir_name_of(attached) == trim(raw) + "-"@ + ws.id@,
{
    crate::text::lemma_trim_idempotent(raw);
}

/// What attaching does to the workspace folder.
pub enum AttachPlan {
    /// The workspace already carries this ticket: nothing changes.
    AlreadyAttached,
    /// The ticket is recorded; the folder name stays.
    SameFolder,
    /// The ticket is recorded and the workspace moves to this folder.
    Move(String),
}

/// Records `ticket` (already trimmed and non-empty) on an unticketed
/// workspace and says where it now lives; a workspace attached to another
/// ticket is refused (detaching is not supported).
pub fn plan_attach(ws: &mut Workspace, folder: &str, ticket: &str) -> (res: Result<
    AttachPlan,
    WorkspaceError,
>)
    ensures
        match old(ws).ticket {
            Some(e) => *final(ws) == *old(ws) && if e@ == ticket@ {
                res matches Ok(AttachPlan::AlreadyAttached)
            } else {
                res matches Err(WorkspaceError::Validation(m)) && m@ == "Workspace "@
                    + old(ws).id@ + " is already attached to ticket '"@ + e@
                    + "'; detach is not supported yet."@
            },
            None => {
                &&& opt_view(final(ws).ticket) == Some(ticket@)
                &&& final(ws).id == old(ws).id
                &&& final(ws).title == old(ws).title
                &&& final(ws).description == old(ws).description
                &&& final(ws).created_at == old(ws).created_at
                &&& final(ws).services == old(ws).services
                &&& final(ws).base_branch == old(ws).base_branch
                &&& final(ws).create_branches == old(ws).create_branches
                &&& final(ws).editor == old(ws).editor
                &&& final(ws).tasks == old(ws).tasks
                &&& match res {
                    Ok(AttachPlan::SameFolder) => dir_name_of(*final(ws)) == folder@,
                    Ok(AttachPlan::Move(nf)) => nf@ == dir_name_of(*final(ws)) && nf@ != folder@,
                    _ => false,
                }
            },
        },
{
    match &ws.ticket {
        Some(e) => {
            if str_eq(e.as_str(), ticket) {
                return Ok(AttachPlan::AlreadyAttached);
            }
            let mut m = owned("Workspace ");
            push_str(&mut m, ws.id.as_str());
            push_str(&mut m, " is already attached to ticket '");
            push_str(&mut m, e.as_str());
            push_str(&mut m, "'; detach is not supported yet.");
            return Err(WorkspaceError::Validation(m));
        },
        None => {},
    }
    ws.ticket = Some(owned(ticket));
    let nf = workspace_dir_name(ws);
    if str_eq(nf.as_str(), folder) {
        Ok(AttachPlan::SameFolder)
    } else {
        Ok(AttachPlan::Move(nf))
    }
}

/// A worktree move: from, to, and the repo (owner, name) it belongs to.
pub type MoveSpec = (Seq<char>, Seq<char>, Seq<char>, Seq<char>);

pub open spec fn move_view(m: crate::models::MoveWorktreeInput) -> MoveSpec {
    (m.from@, m.to@, m.owner@, m.name@)
}

/// Moves of the main worktrees, in service order, for services with a lock
/// record.
pub open spec fn main_moves(
    services: Seq<Seq<char>>,
    repos: Seq<(String, LockedRepo)>,
    old_dir: Seq<char>,
    new_dir: Seq<char>,
) -> Seq<MoveSpec>
    decreases services.len(),
{
    if services.len() == 0 {
        Seq::empty()
    } else {
        let r = main_moves(services.drop_last(), repos, old_dir, new_dir);
        let svc = services.last();
        match lookup(repos, svc) {
            Some(lr) => r.push(
                (
                    path_join(path_join(old_dir, "repos"@), svc),
                    path_join(path_join(new_dir, "repos"@), svc),
                    lr.owner@,
                    lr.name@,
                ),
            ),
            None => r,
        }
    }
}

/// Moves of one task's worktrees, in task repo order.
pub open spec fn slice_moves(
    slug: Seq<char>,
    repos: Seq<Seq<char>>,
    locked: Seq<(String, LockedRepo)>,
    old_dir: Seq<char>,
    new_dir: Seq<char>,
) -> Seq<MoveSpec>
    decreases repos.len(),
{
    if repos.len() == 0 {
        Seq::empty()
    } else {
        let r = slice_moves(slug, repos.drop_last(), locked, old_dir, new_dir);
        let svc = repos.last();
        match lookup(locked, svc) {
            Some(lr) => r.push(
                (
                    path_join(path_join(path_join(old_dir, "tasks"@), slug), svc),
                    path_join(path_join(path_join(new_dir, "tasks"@), slug), svc),
                    lr.owner@,
                    lr.name@,
                ),
            ),
            None => r,
        }
    }
}

/// Moves of the task worktrees, task by task, for tasks with lock records.
pub open spec fn task_moves(
    tasks: Seq<WorkspaceTask>,
    locks: Seq<(String, Vec<(String, LockedRepo)>)>,
    old_dir: Seq<char>,
    new_dir: Seq<char>,
) -> Seq<MoveSpec>
    decreases tasks.len(),
{
    if tasks.len() == 0 {
        Seq::empty()
    } else {
        let r = task_moves(tasks.drop_last(), locks, old_dir, new_dir);
        let t = tasks.last();
        match lookup(locks, t.slug@) {
            Some(m) => r + slice_moves(t.slug@, views(t.repos@), m@, old_dir, new_dir),
            None => r,
        }
    }
}

proof fn lemma_slice_moves_contain(
    slug: Seq<char>,
    repos: Seq<Seq<char>>,
    locked: Seq<(String, LockedRepo)>,
    old_dir: Seq<char>,
    new_dir: Seq<char>,
    q: int,
    lr: LockedRepo,
)
    requires
        0 <= q < repos.len(),
        lookup(locked, repos[q]) == Some(lr),
    ensures
        slice_moves(slug, repos, locked, old_dir, new_dir).contains(
            (
                path_join(path_join(path_join(old_dir, "tasks"@), slug), repos[q]),
                path_join(path_join(path_join(new_dir, "tasks"@), slug), repos[q]),
                lr.owner@,
                lr.name@,
            ),
        ),
    decreases repos.len(),
{
    let r = slice_moves(slug, repos.drop_last(), locked, old_dir, new_dir);
    let all = slice_moves(slug, repos, locked, old_dir, new_dir);
    if q == repos.len() - 1 {
        assert(all.last() == (
            path_join(path_join(path_join(old_dir, "tasks"@), slug), repos[q]),
            path_join(path_join(path_join(new_dir, "tasks"@), slug), repos[q]),
            lr.owner@,
            lr.name@,
        ));
    } else {
        assert(repos.drop_last()[q] == repos[q]);
        lemma_slice_moves_contain(slug, repos.drop_last(), locked, old_dir, new_dir, q, lr);
        let m = choose|m: int| 0 <= m < r.len() && r[m] == (
            path_join(path_join(path_join(old_dir, "tasks"@), slug), repos[q]),
            path_join(path_join(path_join(new_dir, "tasks"@), slug), repos[q]),
            lr.owner@,
            lr.name@,
        );
        match lookup(locked, repos.last()) {
            Some(x) => assert(all[m] == r[m]),
            None => {},
        }
    }
}

proof fn lemma_task_moves_contain(
    tasks: Seq<WorkspaceTask>,
    locks: Seq<(String, Vec<(String, LockedRepo)>)>,
    old_dir: Seq<char>,
    new_dir: Seq<char>,
    ti: int,
    m: Vec<(String, LockedRepo)>,
    x: MoveSpec,
)
    requires
        0 <= ti < tasks.len(),
        lookup(locks, tasks[ti].slug@) == Some(m),
        slice_moves(tasks[ti].slug@, views(tasks[ti].repos@), m@, old_dir, new_dir).contains(x),
    ensures
        task_moves(tasks, locks, old_dir, new_dir).contains(x),
    decreases tasks.len(),
{
    let r = task_moves(tasks.drop_last(), locks, old_dir, new_dir);
    let all = task_moves(tasks, locks, old_dir, new_dir);
    if ti == tasks.len() - 1 {
        let s = slice_moves(tasks[ti].slug@, views(tasks[ti].repos@), m@, old_dir, new_dir);
        assert(all == r + s);
        let k = choose|k: int| 0 <= k < s.len() && s[k] == x;
        assert(all[r.len() + k] == x);
    } else {
        assert(tasks.drop_last()[ti] == tasks[ti]);
        lemma_task_moves_contain(tasks.drop_last(), locks, old_dir, new_dir, ti, m, x);
        let k = choose|k: int| 0 <= k < r.len() && r[k] == x;
        let t = tasks.last();
        match lookup(locks, t.slug@) {
            Some(mm) => {
                assert(all[k] == x);
            },
            None => {},
        }
    }
}

proof fn lemma_main_moves_contain(
    services: Seq<Seq<char>>,
    repos: Seq<(String, LockedRepo)>,
    old_dir: Seq<char>,
    new_dir: Seq<char>,
    q: int,
    lr: LockedRepo,
)
    requires
        0 <= q < services.len(),
        lookup(repos, services[q]) == Some(lr),
    ensures
        main_moves(services, repos, old_dir, new_dir).contains(
            (
                path_join(path_join(old_dir, "repos"@), services[q]),
                path_join(path_join(new_dir, "repos"@), services[q]),
                lr.owner@,
                lr.name@,
            ),
        ),
    decreases services.len(),
{
    let r = main_moves(services.drop_last(), repos, old_dir, new_dir);
    let all = main_moves(services, repos, old_dir, new_dir);
    let x = (
        path_join(path_join(old_dir, "repos"@), services[q]),
        path_join(path_join(new_dir, "repos"@), services[q]),
        lr.owner@,
        lr.name@,
    );
    if q == services.len() - 1 {
        assert(all.last() == x);
    } else {
        assert(services.drop_last()[q] == services[q]);
        lemma_main_moves_contain(services.drop_last(), repos, old_dir, new_dir, q, lr);
        let m = choose|m: int| 0 <= m < r.len() && r[m] == x;
        match lookup(repos, services.last()) {
            Some(y) => assert(all[m] == r[m]),
            None => {},
        }
    }
}

/// Attaching carries every locked worktree along: each service of the
/// workspace with a lock record has its main worktree moved from
/// `old_dir/repos/<svc>` to `new_dir/repos/<svc>`, and each repo of each task
/// whose lock records hold it has its slice moved from
/// `old_dir/tasks/<slug>/<svc>` to `new_dir/tasks/<slug>/<svc>`, with the
/// repo's owner and name.
pub proof fn lemma_moves_cover_locked_worktrees(
    ws: Workspace,
    lock: WorkspaceLock,
    old_dir: Seq<char>,
    new_dir: Seq<char>,
)
    ensures
        forall|q: int|
            #![trigger ws.services@[q]]
            0 <= q < ws.services@.len() ==> (lookup(lock.repos@, ws.services@[q]@)
                matches Some(lr) ==> (main_moves(views(ws.services@), lock.repos@, old_dir, new_dir)
                + task_moves(ws.tasks@, lock.tasks@, old_dir, new_dir)).contains(
                (
                    path_join(path_join(old_dir, "repos"@), ws.services@[q]@),
                    path_join(path_join(new_dir, "repos"@), ws.services@[q]@),
                    lr.owner@,
                    lr.name@,
                ),
            )),
        forall|ti: int, q: int|
            #![trigger ws.tasks@[ti].repos@[q]]
            0 <= ti < ws.tasks@.len() && 0 <= q < ws.tasks@[ti].repos@.len() ==> (lookup(
                lock.tasks@,
                ws.tasks@[ti].slug@,
            ) matches Some(m) ==> (lookup(m@, ws.tasks@[ti].repos@[q]@) matches Some(
                lr,
            ) ==> (main_moves(views(ws.services@), lock.repos@, old_dir, new_dir) + task_moves(
                ws.tasks@,
                lock.tasks@,
                old_dir,
                new_dir,
            )).contains(
                (
                    path_join(
                        path_join(path_join(old_dir, "tasks"@), ws.tasks@[ti].slug@),
                        ws.tasks@[ti].repos@[q]@,
                    ),
                    path_join(
                        path_join(path_join(new_dir, "tasks"@), ws.tasks@[ti].slug@),
                        ws.tasks@[ti].repos@[q]@,
                    ),
                    lr.owner@,
                    lr.name@,
                ),
            ))),
{
    let mm = main_moves(views(ws.services@), lock.repos@, old_dir, new_dir);
    let tm = task_moves(ws.tasks@, lock.tasks@, old_dir, new_dir);
    assert forall|q: int| #![trigger ws.services@[q]] 0 <= q < ws.services@.len() implies (lookup(
        lock.repos@,
        ws.services@[q]@,
    ) matches Some(lr) ==> (mm + tm).contains(
        (
            path_join(path_join(old_dir, "repos"@), ws.services@[q]@),
            path_join(path_join(new_dir, "repos"@), ws.services@[q]@),
            lr.owner@,
            lr.name@,
        ),
    )) by {
        match lookup(lock.repos@, ws.services@[q]@) {
            Some(lr) => {
                assert(views(ws.services@)[q] == ws.services@[q]@);
                lemma_main_moves_contain(views(ws.services@), lock.repos@, old_dir, new_dir, q, lr);
                let x = (
                    path_join(path_join(old_dir, "repos"@), ws.services@[q]@),
                    path_join(path_join(new_dir, "repos"@), ws.services@[q]@),
                    lr.owner@,
                    lr.name@,
                );
                let k = choose|k: int| 0 <= k < mm.len() && mm[k] == x;
                assert((mm + tm)[k] == x);
            },
            None => {},
        }
    }
    assert forall|ti: int, q: int|
        #![trigger ws.tasks@[ti].repos@[q]]
        0 <= ti < ws.tasks@.len() && 0 <= q < ws.tasks@[ti].repos@.len() implies (lookup(
        lock.tasks@,
        ws.tasks@[ti].slug@,
    ) matches Some(m) ==> (lookup(m@, ws.tasks@[ti].repos@[q]@) matches Some(lr)
        ==> (mm + tm).contains(
        (
            path_join(
                path_join(path_join(old_dir, "tasks"@), ws.tasks@[ti].slug@),
                ws.tasks@[ti].repos@[q]@,
            ),
            path_join(
                path_join(path_join(new_dir, "tasks"@), ws.tasks@[ti].slug@),
                ws.tasks@[ti].repos@[q]@,
            ),
            lr.owner@,
            lr.name@,
        ),
    ))) by {
        match lookup(lock.tasks@, ws.tasks@[ti].slug@) {
            Some(m) => {
                match lookup(m@, ws.tasks@[ti].repos@[q]@) {
                    Some(lr) => {
                        let t = ws.tasks@[ti];
                        assert(views(t.repos@)[q] == t.repos@[q]@);
                        lemma_slice_moves_contain(
                            t.slug@,
                            views(t.repos@),
                            m@,
                            old_dir,
                            new_dir,
                            q,
                            lr,
                        );
                        let x = (
                            path_join(path_join(path_join(old_dir, "tasks"@), t.slug@), t.repos@[q]@),
                            path_join(path_join(path_join(new_dir, "tasks"@), t.slug@), t.repos@[q]@),
                            lr.owner@,
                            lr.name@,
                        );
                        lemma_task_moves_contain(ws.tasks@, lock.tasks@, old_dir, new_dir, ti, m, x);
                        let k = choose|k: int| 0 <= k < tm.len() && tm[k] == x;
                        assert((mm + tm)[mm.len() + k] == x);
                    },
                    None => {},
                }
            },
            None => {},
        }
    }
}

fn move_input(from: String, to: String, lr: &LockedRepo) -> (m: crate::models::MoveWorktreeInput)
    ensures
        move_view(m) == (from@, to@, lr.owner@, lr.name@),
{
    crate::models::MoveWorktreeInput { owner: lr.owner.clone(), name: lr.name.clone(), from, to }
}

/// The worktree moves that carry a workspace from `old_dir` to `new_dir`:
/// main worktrees first (git's worktree metadata follows each move), then
/// task worktrees. Worktrees without a lock record are not moved.
pub fn worktree_moves(ws: &Workspace, lock: &WorkspaceLock, old_dir: &str, new_dir: &str) -> (out:
    Vec<crate::models::MoveWorktreeInput>)
    ensures
        out@.map_values(|m: crate::models::MoveWorktreeInput| move_view(m)) == main_moves(
            views(ws.services@),
            lock.repos@,
            old_dir@,
            new_dir@,
        ) + task_moves(ws.tasks@, lock.tasks@, old_dir@, new_dir@),
{
    let mut out: Vec<crate::models::MoveWorktreeInput> = Vec::new();
    let mut k: usize = 0;
    while k < ws.services.len()
        invariant
            k <= ws.services.len(),
            out@.map_values(|m: crate::models::MoveWorktreeInput| move_view(m)) == main_moves(
                views(ws.services@).take(k as int),
                lock.repos@,
                old_dir@,
                new_dir@,
            ),
        decreases ws.services.len() - k,
    {
        let svc = &ws.services[k];
        assert(views(ws.services@).take(k + 1).drop_last() =~= views(ws.services@).take(k as int));
        assert(views(ws.services@).take(k + 1).last() == svc@);
        match crate::models::find_key(&lock.repos, svc.as_str()) {
            Some(i) => {
                let a = join_path(old_dir, "repos");
                let b = join_path(new_dir, "repos");
                let m = move_input(
                    join_path(a.as_str(), svc.as_str()),
                    join_path(b.as_str(), svc.as_str()),
                    &lock.repos[i].1,
                );
                let ghost before = out@.map_values(
                    |m: crate::models::MoveWorktreeInput| move_view(m),
                );
                out.push(m);
                assert(out@.map_values(|m: crate::models::MoveWorktreeInput| move_view(m))
                    =~= before.push(move_view(m)));
            },
            None => {},
        }
        k += 1;
    }
    assert(views(ws.services@).take(ws.services.len() as int) =~= views(ws.services@));
    let ghost mains = out@.map_values(|m: crate::models::MoveWorktreeInput| move_view(m));
    let mut t: usize = 0;
    while t < ws.tasks.len()
        invariant
            t <= ws.tasks.len(),
            out@.map_values(|m: crate::models::MoveWorktreeInput| move_view(m)) == mains
                + task_moves(ws.tasks@.take(t as int), lock.tasks@, old_dir@, new_dir@),
        decreases ws.tasks.len() - t,
    {
        let task = &ws.tasks[t];
        assert(ws.tasks@.take(t + 1).drop_last() =~= ws.tasks@.take(t as int));
        let ghost at_task = out@.map_values(|m: crate::models::MoveWorktreeInput| move_view(m));
        match crate::models::find_key(&lock.tasks, task.slug.as_str()) {
            Some(i) => {
                let locked = &lock.tasks[i].1;
                let a = join_path(old_dir, "tasks");
                let a2 = join_path(a.as_str(), task.slug.as_str());
                let b = join_path(new_dir, "tasks");
                let b2 = join_path(b.as_str(), task.slug.as_str());
                let mut q: usize = 0;
                while q < task.repos.len()
                    invariant
                        q <= task.repos.len(),
                        a2@ == path_join(path_join(old_dir@, "tasks"@), task.slug@),
                        b2@ == path_join(path_join(new_dir@, "tasks"@), task.slug@),
                        out@.map_values(|m: crate::models::MoveWorktreeInput| move_view(m))
                            == at_task + slice_moves(
                            task.slug@,
                            views(task.repos@).take(q as int),
                            locked@,
                            old_dir@,
                            new_dir@,
                        ),
                    decreases task.repos.len() - q,
                {
                    let svc = &task.repos[q];
                    assert(views(task.repos@).take(q + 1).drop_last() =~= views(task.repos@).take(
                        q as int,
                    ));
                    assert(views(task.repos@).take(q + 1).last() == svc@);
                    match crate::models::find_key(locked, svc.as_str()) {
                        Some(j) => {
                            let m = move_input(
                                join_path(a2.as_str(), svc.as_str()),
                                join_path(b2.as_str(), svc.as_str()),
                                &locked[j].1,
                            );
                            let ghost before = out@.map_values(
                                |m: crate::models::MoveWorktreeInput| move_view(m),
                            );
                            out.push(m);
                            assert(out@.map_values(
                                |m: crate::models::MoveWorktreeInput| move_view(m),
                            ) =~= before.push(move_view(m)));
                        },
                        None => {},
                    }
                    q += 1;
                }
                assert(views(task.repos@).take(task.repos.len() as int) =~= views(task.repos@));
            },
            None => {},
        }
        t += 1;
    }
    assert(ws.tasks@.take(ws.tasks.len() as int) =~= ws.tasks@);
    out
}

// ==========================================
// Derived files
// ==========================================

pub open spec fn task_line(ws_id: Seq<char>, t: WorkspaceTask) -> Seq<char> {
    "  - `"@ + t.key@ + "` (`"@ + t.slug@ + "`) on `"@ + ws_id + "-"@ + t.slug@ + "` — "@
        + joined(views(t.repos@), ", "@) + "\n"@
}

pub open spec fn task_lines(ws_id: Seq<char>, tasks: Seq<WorkspaceTask>) -> Seq<char>
    decreases tasks.len(),
{
    if tasks.len() == 0 {
        Seq::empty()
    } else {
        task_lines(ws_id, tasks.drop_last()) + task_line(ws_id, tasks.last())
    }
}

fn push_task_line(md: &mut String, ws_id: &str, t: &WorkspaceTask)
    ensures
        final(md)@ == old(md)@ + task_line(ws_id@, *t),
{
    push_str(md, "  - `");
    push_str(md, t.key.as_str());
    push_str(md, "` (`");
    push_str(md, t.slug.as_str());
    push_str(md, "`) on `");
    push_str(md, ws_id);
    push_str(md, "-");
    push_str(md, t.slug.as_str());
    push_str(md, "` — ");
    push_str(md, crate::text::join_strings(&t.repos, ", ").as_str());
    push_str(md, "\n");
}

/// The resume file `AGENTS.md` of a workspace.
pub open spec fn resume_text(ws: Workspace) -> Seq<char> {
    "# "@ + ws.title@ + "\n\n"@ + (if ws.description@.len() > 0 {
        ws.description@ + "\n\n"@
    } else {
        Seq::empty()
    }) + "- **workspace**: `"@ + ws.id@ + "`\n"@ + match ws.ticket {
        Some(t) => "- **ticket**: `"@ + t@ + "`\n"@,
        None => "- **ticket**: unticketed\n"@,
    } + "- **services**: "@ + joined(views(ws.services@), ", "@) + "\n"@ + "- **base_branch**: `"@
        + ws.base_branch@ + "`\n"@ + (if ws.tasks@.len() > 0 {
        "- **tasks**:\n"@ + task_lines(ws.id@, ws.tasks@)
    } else {
        Seq::empty()
    }) + "\nResume with: `ws tasks`\n"@
}

/// The single minimal resume file an agent loads on entering the workspace.
pub fn resume_markdown(ws: &Workspace) -> (md: String)
    ensures
        md@ == resume_text(*ws),
{
    let mut md = owned("# ");
    push_str(&mut md, ws.title.as_str());
    push_str(&mut md, "\n\n");
    let ghost head = md@;
    if ws.description.as_str().unicode_len() > 0 {
        push_str(&mut md, ws.description.as_str());
        push_str(&mut md, "\n\n");
    } else {
        assert(md@ =~= head + Seq::<char>::empty());
    }
    push_str(&mut md, "- **workspace**: `");
    push_str(&mut md, ws.id.as_str());
    push_str(&mut md, "`\n");
    match &ws.ticket {
        Some(t) => {
            push_str(&mut md, "- **ticket**: `");
            push_str(&mut md, t.as_str());
            push_str(&mut md, "`\n");
        },
        None => push_str(&mut md, "- **ticket**: unticketed\n"),
    }
    push_str(&mut md, "- **services**: ");
    push_str(&mut md, crate::text::join_strings(&ws.services, ", ").as_str());
    push_str(&mut md, "\n");
    push_str(&mut md, "- **base_branch**: `");
    push_str(&mut md, ws.base_branch.as_str());
    push_str(&mut md, "`\n");
    let ghost before_tasks = md@;
    if ws.tasks.len() > 0 {
        push_str(&mut md, "- **tasks**:\n");
        let ghost start = md@;
        let mut k: usize = 0;
        while k < ws.tasks.len()
            invariant
                k <= ws.tasks.len(),
                md@ == start + task_lines(ws.id@, ws.tasks@.take(k as int)),
            decreases ws.tasks.len() - k,
        {
            push_task_line(&mut md, ws.id.as_str(), &ws.tasks[k]);
            assert(ws.tasks@.take(k + 1).drop_last() =~= ws.tasks@.take(k as int));
            k += 1;
        }
        assert(ws.tasks@.take(ws.tasks.len() as int) =~= ws.tasks@);
    } else {
        assert(md@ =~= before_tasks + Seq::<char>::empty());
    }
    push_str(&mut md, "\nResume with: `ws tasks`\n");
    md
}

/// The folders of the editor workspace file: the control root, each
/// service's main worktree, then each task worktree.
pub open spec fn code_folders(services: Seq<Seq<char>>, tasks: Seq<WorkspaceTask>) -> Seq<
    (Seq<char>, Seq<char>),
> {
    seq![("control"@, "../.."@)] + services.map_values(
        |s: Seq<char>| (s, "repos/"@ + s),
    ) + task_folders(tasks)
}

pub open spec fn task_folders(tasks: Seq<WorkspaceTask>) -> Seq<(Seq<char>, Seq<char>)>
    decreases tasks.len(),
{
    if tasks.len() == 0 {
        Seq::empty()
    } else {
        let t = tasks.last();
        task_folders(tasks.drop_last()) + views(t.repos@).map_values(
            |s: Seq<char>| (t.slug@ + ":"@ + s, "tasks/"@ + t.slug@ + "/"@ + s),
        )
    }
}

/// The `(name, path)` folders of `<folder>.code-workspace`, paths relative
/// to the workspace directory.
pub fn code_workspace_folders(services: &Vec<String>, tasks: &Vec<WorkspaceTask>) -> (out: Vec<
    (String, String),
>)
    ensures
        out@.map_values(|p: (String, String)| (p.0@, p.1@)) == code_folders(views(services@), tasks@),
{
    let mut out: Vec<(String, String)> = Vec::new();
    out.push((owned("control"), owned("../..")));
    let ghost first = out@.map_values(|p: (String, String)| (p.0@, p.1@));
    assert(first =~= seq![("control"@, "../.."@)]);
    let mut k: usize = 0;
    while k < services.len()
        invariant
            k <= services.len(),
            first == seq![("control"@, "../.."@)],
            out@.map_values(|p: (String, String)| (p.0@, p.1@)) == first + views(services@).take(
                k as int,
            ).map_values(|s: Seq<char>| (s, "repos/"@ + s)),
        decreases services.len() - k,
    {
        let ghost before = out@.map_values(|p: (String, String)| (p.0@, p.1@));
        let s = &services[k];
        let mut path = owned("repos/");
        push_str(&mut path, s.as_str());
        out.push((s.clone(), path));
        assert(out@.map_values(|p: (String, String)| (p.0@, p.1@)) =~= before.push(
            (s@, "repos/"@ + s@),
        ));
        assert(views(services@).take(k + 1).map_values(|s: Seq<char>| (s, "repos/"@ + s))
            =~= views(services@).take(k as int).map_values(|s: Seq<char>| (s, "repos/"@ + s)).push(
            (s@, "repos/"@ + s@),
        ));
        k += 1;
    }
    assert(views(services@).take(services.len() as int) =~= views(services@));
    let ghost mains = out@.map_values(|p: (String, String)| (p.0@, p.1@));
    let mut t: usize = 0;
    while t < tasks.len()
        invariant
            t <= tasks.len(),
            out@.map_values(|p: (String, String)| (p.0@, p.1@)) == mains + task_folders(
                tasks@.take(t as int),
            ),
        decreases tasks.len() - t,
    {
        let task = &tasks[t];
        let ghost at_task = out@.map_values(|p: (String, String)| (p.0@, p.1@));
        let ghost f = |s: Seq<char>| (task.slug@ + ":"@ + s, "tasks/"@ + task.slug@ + "/"@ + s);
        let mut q: usize = 0;
        while q < task.repos.len()
            invariant
                q <= task.repos.len(),
                f == (|s: Seq<char>| (task.slug@ + ":"@ + s, "tasks/"@ + task.slug@ + "/"@ + s)),
                out@.map_values(|p: (String, String)| (p.0@, p.1@)) == at_task + views(
                    task.repos@,
                ).take(q as int).map_values(f),
            decreases task.repos.len() - q,
        {
            let ghost before = out@.map_values(|p: (String, String)| (p.0@, p.1@));
            let s = &task.repos[q];
            let mut name = task.slug.clone();
            push_str(&mut name, ":");
            push_str(&mut name, s.as_str());
            let mut path = owned("tasks/");
            push_str(&mut path, task.slug.as_str());
            push_str(&mut path, "/");
            push_str(&mut path, s.as_str());
            out.push((name, path));
            assert(out@.map_values(|p: (String, String)| (p.0@, p.1@)) =~= before.push(f(s@)));
            assert(views(task.repos@).take(q + 1).map_values(f) =~= views(task.repos@).take(
                q as int,
            ).map_values(f).push(f(s@)));
            q += 1;
        }
        assert(views(task.repos@).take(task.repos.len() as int) =~= views(task.repos@));
        assert(tasks@.take(t + 1).drop_last() =~= tasks@.take(t as int));
        assert(out@.map_values(|p: (String, String)| (p.0@, p.1@)) =~= mains + task_folders(
            tasks@.take(t + 1),
        ));
        t += 1;
    }
    assert(tasks@.take(tasks.len() as int) =~= tasks@);
    out
}

// ==========================================
// Commands
// ==========================================

/// `workspace.create` input.
pub struct WorkspaceCreateInput {
    pub title: String,
    pub description: String,
    pub ticket: Option<String>,
    /// Explicit slug; defaults to the slug of the title.
    pub id: Option<String>,
    pub services: Vec<String>,
    pub base_branch: Option<String>,
    pub create_branches: Option<bool>,
    pub editor: Option<String>,
}

/// Names a workspace by id (slug), ticket, folder name or folder prefix.
pub struct WorkspaceQueryInput {
    pub q: String,
}

pub struct WorkspaceAddServiceInput {
    pub q: String,
    pub service_id: String,
}

pub struct StatusOutput {
    pub success: bool,
    pub message: String,
}

pub struct WorkspaceAddTaskInput {
    pub q: String,
    /// Task key, e.g. `TASK-1`.
    pub key: String,
    /// Slug for folder and branch names; defaults to the slug of the key.
    pub slug: Option<String>,
    /// Services to include; defaults to all workspace services.
    pub services: Option<Vec<String>>,
}

pub struct WorkspaceAttachInput {
    pub q: String,
    /// The issue key to attach, e.g. `EPIC-123`.
    pub ticket: String,
}

pub struct WorkspaceAttachOutput {
    pub id: String,
    pub ticket: String,
    pub folder: String,
    pub path: String,
}

pub struct WorkspaceStatusOutput {
    pub folder: String,
    pub id: String,
    pub ticket: Option<String>,
    pub title: String,
    pub description: String,
    pub services: Vec<String>,
    pub base_branch: String,
    pub create_branches: bool,
    pub editor: String,
    pub tasks: Vec<TaskStatusOutput>,
    pub repo_statuses: Vec<(String, RepoStatus)>,
}

/// The creation request for `workspace.create`: the catalog entries of the
/// requested services, the slug of the title unless an id is given, base
/// branch `main`, branches created, and the configured editor, unless the
/// input says otherwise.
pub fn create_request(
    input: WorkspaceCreateInput,
    services: Vec<ServiceCatalog>,
    default_editor: &str,
) -> (req: CreateWorkspaceRequest)
    ensures
        req.id@ == match input.id {
            Some(i) => i@,
            None => crate::workspaces::slug_of(input.title@),
        },
        req.ticket == input.ticket,
        req.title == input.title,
        req.description == input.description,
        req.services == services,
        req.base_branch@ == match input.base_branch {
            Some(b) => b@,
            None => "main"@,
        },
        req.create_branches == match input.create_branches {
            Some(c) => c,
            None => true,
        },
        req.editor@ == match input.editor {
            Some(e) => e@,
            None => default_editor@,
        },
{
    let id = match input.id {
        Some(i) => i,
        None => crate::workspaces::slugify(input.title.as_str()),
    };
    CreateWorkspaceRequest {
        id,
        ticket: input.ticket,
        title: input.title,
        description: input.description,
        services,
        base_branch: match input.base_branch {
            Some(b) => b,
            None => owned("main"),
        },
        create_branches: match input.create_branches {
            Some(c) => c,
            None => true,
        },
        editor: match input.editor {
            Some(e) => e,
            None => owned(default_editor),
        },
    }
}

/// The slug and services of `workspace.add_task`: the slug of the key and
/// all workspace services unless given.
pub fn task_request(input: &WorkspaceAddTaskInput, ws: &Workspace) -> (res: (String, Vec<String>))
    ensures
        res.0@ == match input.slug {
            Some(s) => s@,
            None => crate::workspaces::slug_of(input.key@),
        },
        res.1@ == match input.services {
            Some(v) => v@,
            None => ws.services@,
        },
{
    let slug = match &input.slug {
        Some(s) => s.clone(),
        None => crate::workspaces::slugify(input.key.as_str()),
    };
    let services = match &input.services {
        Some(v) => copy_strings(v),
        None => copy_strings(&ws.services),
    };
    (slug, services)
}

/// `Service <id> added to workspace <ws.id> (<folder>).`
pub fn added_service_status(service_id: &str, ws_id: &str, folder: &str) -> (out: StatusOutput)
    ensures
        out.success,
        out.message@ == "Service "@ + service_id@ + " added to workspace "@ + ws_id@ + " ("@
            + folder@ + ")."@,
{
    let mut m = owned("Service ");
    push_str(&mut m, service_id);
    push_str(&mut m, " added to workspace ");
    push_str(&mut m, ws_id);
    push_str(&mut m, " (");
    push_str(&mut m, folder);
    push_str(&mut m, ").");
    StatusOutput { success: true, message: m }
}

/// The reply to adding a service the workspace already has: the same
/// success the add reports, with the workspace left as it is. `None` when
/// the service is new and has to be provisioned.
pub fn already_added_reply(ws: &Workspace, service_id: &str, folder: &str) -> (res: Option<
    StatusOutput,
>)
    ensures
        match res {
            Some(out) => views(ws.services@).contains(service_id@) && out.success
                && out.message@ == "Service "@ + service_id@ + " added to workspace "@ + ws.id@
                + " ("@ + folder@ + ")."@,
            None => !views(ws.services@).contains(service_id@),
        },
{
    if workspace_has_service(ws, service_id) {
        Some(added_service_status(service_id, ws.id.as_str(), folder))
    } else {
        None
    }
}

/// Creating a workspace refuses a folder that already holds one; `exists`
/// says whether `<dir>/workspace.yaml` is there.
pub fn create_target_free(dir: &str, exists: bool) -> (res: Result<(), WorkspaceError>)
    ensures
        exists ==> (res matches Err(WorkspaceError::Validation(m)) && m@
            == "A workspace already exists at "@ + dir@),
        !exists ==> res is Ok,
{
    if exists {
        let mut m = owned("A workspace already exists at ");
        push_str(&mut m, dir);
        Err(WorkspaceError::Validation(m))
    } else {
        Ok(())
    }
}

/// Attaching refuses to move onto a folder that already holds a workspace;
/// `exists` says whether `<dir>/workspace.yaml` is there.
pub fn attach_target_free(dir: &str, exists: bool) -> (res: Result<(), WorkspaceError>)
    ensures
        exists ==> (res matches Err(WorkspaceError::Validation(m)) && m@
            == "Cannot attach: a workspace already exists at "@ + dir@),
        !exists ==> res is Ok,
{
    if exists {
        let mut m = owned("Cannot attach: a workspace already exists at ");
        push_str(&mut m, dir);
        Err(WorkspaceError::Validation(m))
    } else {
        Ok(())
    }
}

/// The reply of `workspace.generate_editor_files`.
pub fn editor_files_status() -> (out: StatusOutput)
    ensures
        out.success,
        out.message@ == "Editor workspace files regenerated."@,
{
    StatusOutput { success: true, message: owned("Editor workspace files regenerated.") }
}

/// The reply of `workspace.attach`: the workspace's ticket (the requested
/// one should the workspace carry none), its folder and directory.
pub fn attach_output(ws: &Workspace, folder: String, requested: &str, path: String) -> (out:
    WorkspaceAttachOutput)
    ensures
        out.id@ == ws.id@,
        out.ticket@ == match ws.ticket {
            Some(t) => t@,
            None => requested@,
        },
        out.folder@ == folder@,
        out.path@ == path@,
{
    WorkspaceAttachOutput {
        id: ws.id.clone(),
        ticket: match &ws.ticket {
            Some(t) => t.clone(),
            None => owned(requested),
        },
        folder,
        path,
    }
}

/// The reply of `workspace.status`: the workspace record and its statuses.
pub fn status_output(
    entry: WorkspaceOnDisk,
    repo_statuses: Vec<(String, RepoStatus)>,
    tasks: Vec<TaskStatusOutput>,
) -> (out: WorkspaceStatusOutput)
    ensures
        out.folder == entry.folder,
        out.id == entry.ws.id,
        out.ticket == entry.ws.ticket,
        out.title == entry.ws.title,
        out.description == entry.ws.description,
        out.services == entry.ws.services,
        out.base_branch == entry.ws.base_branch,
        out.create_branches == entry.ws.create_branches,
        out.editor == entry.ws.editor,
        out.tasks == tasks,
        out.repo_statuses == repo_statuses,
{
    let ws = entry.ws;
    WorkspaceStatusOutput {
        folder: entry.folder,
        id: ws.id,
        ticket: ws.ticket,
        title: ws.title,
        description: ws.description,
        services: ws.services,
        base_branch: ws.base_branch,
        create_branches: ws.create_branches,
        editor: ws.editor,
        tasks,
        repo_statuses,
    }
}

pub struct WorkspaceCreateCommand;

impl CommandInfo for WorkspaceCreateCommand {
    fn id(&self) -> (s: &'static str)
        ensures
            s@ == "workspace.create"@,
    {
        "workspace.create"
    }

    fn description(&self) -> (s: &'static str)
        ensures
            s@ == "Create a per-feature multi-repo workspace (slug identity; ticket optional)."@,
    {
        "Create a per-feature multi-repo workspace (slug identity; ticket optional)."
    }
}

pub struct WorkspaceAddServiceCommand;

impl CommandInfo for WorkspaceAddServiceCommand {
    fn id(&self) -> (s: &'static str)
        ensures
            s@ == "workspace.add_service"@,
    {
        "workspace.add_service"
    }

    fn description(&self) -> (s: &'static str)
        ensures
            s@ == "Add a service to an active feature workspace (resolved by id/ticket/prefix)."@,
    {
        "Add a service to an active feature workspace (resolved by id/ticket/prefix)."
    }
}

pub struct WorkspaceAddTaskCommand;

impl CommandInfo for WorkspaceAddTaskCommand {
    fn id(&self) -> (s: &'static str)
        ensures
            s@ == "workspace.add_task"@,
    {
        "workspace.add_task"
    }

    fn description(&self) -> (s: &'static str)
        ensures
            s@ == "Create per-task worktrees (tasks/<slug>/<repo>) for a feature workspace."@,
    {
        "Create per-task worktrees (tasks/<slug>/<repo>) for a feature workspace."
    }
}

pub struct WorkspaceAttachCommand;

impl CommandInfo for WorkspaceAttachCommand {
    fn id(&self) -> (s: &'static str)
        ensures
            s@ == "workspace.attach"@,
    {
        "workspace.attach"
    }

    fn description(&self) -> (s: &'static str)
        ensures
            s@ == "Attach a ticket to an unticketed workspace and move it to TICKET-slug."@,
    {
        "Attach a ticket to an unticketed workspace and move it to TICKET-slug."
    }
}

pub struct WorkspaceStatusCommand;

impl CommandInfo for WorkspaceStatusCommand {
    fn id(&self) -> (s: &'static str)
        ensures
            s@ == "workspace.status"@,
    {
        "workspace.status"
    }

    fn description(&self) -> (s: &'static str)
        ensures
            s@ == "Show status of a workspace (resolved by id/ticket/prefix) and repositories."@,
    {
        "Show status of a workspace (resolved by id/ticket/prefix) and repositories."
    }
}

pub struct WorkspaceLockCommand;

impl CommandInfo for WorkspaceLockCommand {
    fn id(&self) -> (s: &'static str)
        ensures
            s@ == "workspace.lock"@,
    {
        "workspace.lock"
    }

    fn description(&self) -> (s: &'static str)
        ensures
            s@ == "Retrieve workspace lockfile details (resolved by id/ticket/prefix)."@,
    {
        "Retrieve workspace lockfile details (resolved by id/ticket/prefix)."
    }
}

pub struct WorkspaceGenerateEditorFilesCommand;

impl CommandInfo for WorkspaceGenerateEditorFilesCommand {
    fn id(&self) -> (s: &'static str)
        ensures
            s@ == "workspace.generate_editor_files"@,
    {
        "workspace.generate_editor_files"
    }

    fn description(&self) -> (s: &'static str)
        ensures
            s@ == "Regenerate editor-specific workspace configurations (resolved by id/ticket/prefix)."@,
    {
        "Regenerate editor-specific workspace configurations (resolved by id/ticket/prefix)."
    }
}

} // verus!
