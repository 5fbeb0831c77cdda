//! Local configuration and the catalog entries the CLI creates: `ws config
//! set`, the answers of `ws init`, and the service, product and team records
//! of `ws add` / `ws discover`.
use vstd::prelude::*;
use crate::error::WorkspaceError;
use crate::lifecycle::opt_view;
use crate::models::{
    CatalogDoc, CatalogIssueTracking, CatalogRepo, CommandMap, DocProviderConfig, LocalConfig,
    ProductAgent, ProductCatalog, ProductServices, RepoSummary, ServiceCatalog, TeamCatalog,
};
use crate::text::{
    count_char, strings_contain, join_path, owned, path_join, push_str, str_chars, str_eq, str_to_lowercase, unicode_str_lower,
    views,
};

verus! {

/// The first of the directories (the working directory, then each parent
/// up to the filesystem root) whose flag says it holds `Cargo.toml` or
/// `.ws`.
pub open spec fn first_marked(levels: Seq<(String, bool)>) -> Option<Seq<char>>
    decreases levels.len(),
{
    if levels.len() == 0 {
        None
    } else if levels[0].1 {
        Some(levels[0].0@)
    } else {
        first_marked(levels.drop_first())
    }
}

/// The workspace root: the nearest directory, from the working directory
/// upwards, that holds `Cargo.toml` or `.ws`; failing that the working
/// directory itself. `levels` lists the working directory and its parents
/// in that order, each with whether it holds a marker; it is empty when the
/// working directory is unknown, and then there is no root.
pub fn find_workspace_root(levels: &Vec<(String, bool)>) -> (root: Option<String>)
    ensures
        match first_marked(levels@) {
            Some(d) => root matches Some(r) && r@ == d,
            None => if levels@.len() > 0 {
                root matches Some(r) && r@ == levels@[0].0@
            } else {
                root is None
            },
        },
{
    let mut k: usize = 0;
    assert(levels@.skip(0) =~= levels@);
    while k < levels.len()
        invariant
            k <= levels.len(),
            first_marked(levels@) == first_marked(levels@.skip(k as int)),
        decreases levels.len() - k,
    {
        assert(levels@.skip(k as int)[0] == levels@[k as int]);
        if levels[k].1 {
            return Some(levels[k].0.clone());
        }
        assert(levels@.skip(k as int).drop_first() =~= levels@.skip(k + 1));
        k += 1;
    }
    if levels.len() > 0 {
        Some(levels[0].0.clone())
    } else {
        None
    }
}

/// `<root>/.ws/config.yaml`.
pub fn get_config_path(root: &str) -> (p: String)
    ensures
        p@ == path_join(path_join(root@, ".ws"@), "config.yaml"@),
{
    let d = join_path(root, ".ws");
    join_path(d.as_str(), "config.yaml")
}

// ==========================================
// ws config set
// ==========================================

/// The document provider after `confluence-url` / `confluence-space`: the
/// existing one, or a fresh Confluence provider.
pub open spec fn doc_or_fresh(d: Option<DocProviderConfig>) -> (Seq<char>, Option<Seq<char>>, Option<
    Seq<char>,
>) {
    match d {
        Some(x) => (x.provider_type@, opt_view(x.base_url), opt_view(x.default_space)),
        None => ("confluence"@, None, None),
    }
}

pub open spec fn doc_view(d: Option<DocProviderConfig>) -> Option<
    (Seq<char>, Option<Seq<char>>, Option<Seq<char>>),
> {
    match d {
        Some(x) => Some((x.provider_type@, opt_view(x.base_url), opt_view(x.default_space))),
        None => None,
    }
}

/// The keys `ws config set` understands.
pub open spec fn known_key(key: Seq<char>) -> bool {
    key == "editor"@ || key == "issue-provider"@ || key == "doc-provider"@ || key
        == "code-provider"@ || key == "code-owner"@ || key == "jira-url"@ || key == "jira-project"@
        || key == "confluence-url"@ || key == "confluence-space"@
}

/// Whether `value` (in any case) switches the document provider off.
pub open spec fn doc_off(value: Seq<char>) -> bool {
    let l = unicode_str_lower(value);
    l == "none"@ || l == "skip"@ || l == "disabled"@
}

/// `new` is `old` with `key` set to `value`.
pub open spec fn config_updated(old: LocalConfig, new: LocalConfig, key: Seq<char>, value: Seq<char>) -> bool {
    let same_issue = new.issue_provider == old.issue_provider;
    let same_code = new.code_provider == old.code_provider;
    let same_doc = new.doc_provider == old.doc_provider;
    let same_editor = new.editor == old.editor;
    &&& new.paths == old.paths
    &&& if key == "editor"@ {
        new.editor.default@ == value && same_issue && same_code && same_doc
    } else if key == "issue-provider"@ {
        new.issue_provider.provider_type@ == value && new.issue_provider.base_url
            == old.issue_provider.base_url && new.issue_provider.default_project
            == old.issue_provider.default_project && same_code && same_doc && same_editor
    } else if key == "doc-provider"@ {
        same_issue && same_code && same_editor && if doc_off(value) {
            new.doc_provider is None
        } else {
            doc_view(new.doc_provider) == Some(
                (
                    "confluence"@,
                    doc_or_fresh(old.doc_provider).1,
                    doc_or_fresh(old.doc_provider).2,
                ),
            )
        }
    } else if key == "code-provider"@ {
        new.code_provider.provider_type@ == value && new.code_provider.default_owner
            == old.code_provider.default_owner && new.code_provider.protocol
            == old.code_provider.protocol && same_issue && same_doc && same_editor
    } else if key == "code-owner"@ {
        opt_view(new.code_provider.default_owner) == Some(value) && new.code_provider.provider_type
            == old.code_provider.provider_type && new.code_provider.protocol
            == old.code_provider.protocol && same_issue && same_doc && same_editor
    } else if key == "jira-url"@ {
        opt_view(new.issue_provider.base_url) == Some(value) && new.issue_provider.provider_type
            == old.issue_provider.provider_type && new.issue_provider.default_project
            == old.issue_provider.default_project && same_code && same_doc && same_editor
    } else if key == "jira-project"@ {
        opt_view(new.issue_provider.default_project) == Some(value)
            && new.issue_provider.provider_type == old.issue_provider.provider_type
            && new.issue_provider.base_url == old.issue_provider.base_url && same_code && same_doc
            && same_editor
    } else if key == "confluence-url"@ {
        doc_view(new.doc_provider) == Some(
            (doc_or_fresh(old.doc_provider).0, Some(value), doc_or_fresh(old.doc_provider).2),
        ) && same_issue && same_code && same_editor
    } else {
        doc_view(new.doc_provider) == Some(
            (doc_or_fresh(old.doc_provider).0, doc_or_fresh(old.doc_provider).1, Some(value)),
        ) && same_issue && same_code && same_editor
    }
}

fn copy_opt(o: &Option<String>) -> (c: Option<String>)
    ensures
        c == *o,
{
    match o {
        Some(x) => Some(x.clone()),
        None => None,
    }
}

fn doc_or_new(d: Option<DocProviderConfig>) -> (r: DocProviderConfig)
    ensures
        (r.provider_type@, opt_view(r.base_url), opt_view(r.default_space)) == doc_or_fresh(d),
{
    match d {
        Some(x) => x,
        None => DocProviderConfig {
            provider_type: owned("confluence"),
            base_url: None,
            default_space: None,
        },
    }
}

/// `ws config set <key> <value>`: the configuration with one key set; an
/// unknown key, or an unknown document provider, is refused.
pub fn apply_config_set(config: LocalConfig, key: &str, value: &str) -> (res: Result<
    LocalConfig,
    WorkspaceError,
>)
    ensures
        !known_key(key@) ==> (res matches Err(WorkspaceError::Config(m)) && m@
            == "Unknown configuration key: "@ + key@),
        key@ == "doc-provider"@ && !doc_off(value@) && unicode_str_lower(value@) != "confluence"@
            ==> (res matches Err(WorkspaceError::Config(m)) && m@ == "Unknown document provider '"@
            + value@ + "'. Supported: confluence, none."@),
        known_key(key@) && !(key@ == "doc-provider"@ && !doc_off(value@) && unicode_str_lower(
            value@,
        ) != "confluence"@) ==> (res matches Ok(c) && config_updated(config, c, key@, value@)),
{
    proof {
        reveal_strlit("editor");
        reveal_strlit("issue-provider");
        reveal_strlit("doc-provider");
        reveal_strlit("code-provider");
        reveal_strlit("code-owner");
        reveal_strlit("jira-url");
        reveal_strlit("jira-project");
        reveal_strlit("confluence-url");
        reveal_strlit("confluence-space");
        assert("editor"@.len() != "doc-provider"@.len());
        assert("issue-provider"@.len() != "doc-provider"@.len());
    }
    let mut c = config;
    if str_eq(key, "editor") {
        c.editor.default = owned(value);
    } else if str_eq(key, "issue-provider") {
        c.issue_provider.provider_type = owned(value);
    } else if str_eq(key, "doc-provider") {
        let lower = str_to_lowercase(value);
        if str_eq(lower.as_str(), "none") || str_eq(lower.as_str(), "skip") || str_eq(
            lower.as_str(),
            "disabled",
        ) {
            c.doc_provider = None;
        } else if str_eq(lower.as_str(), "confluence") {
            let mut d = doc_or_new(c.doc_provider);
            d.provider_type = owned("confluence");
            c.doc_provider = Some(d);
        } else {
            let mut m = owned("Unknown document provider '");
            push_str(&mut m, value);
            push_str(&mut m, "'. Supported: confluence, none.");
            return Err(WorkspaceError::Config(m));
        }
    } else if str_eq(key, "code-provider") {
        c.code_provider.provider_type = owned(value);
    } else if str_eq(key, "code-owner") {
        c.code_provider.default_owner = Some(owned(value));
    } else if str_eq(key, "jira-url") {
        c.issue_provider.base_url = Some(owned(value));
    } else if str_eq(key, "jira-project") {
        c.issue_provider.default_project = Some(owned(value));
    } else if str_eq(key, "confluence-url") {
        let mut d = doc_or_new(c.doc_provider);
        d.base_url = Some(owned(value));
        c.doc_provider = Some(d);
    } else if str_eq(key, "confluence-space") {
        let mut d = doc_or_new(c.doc_provider);
        d.default_space = Some(owned(value));
        c.doc_provider = Some(d);
    } else {
        let mut m = owned("Unknown configuration key: ");
        push_str(&mut m, key);
        return Err(WorkspaceError::Config(m));
    }
    Ok(c)
}

// ==========================================
// ws init
// ==========================================

/// The issue provider type for an `ws init` choice; only Jira and Dex are
/// available.
pub fn init_issue_provider(choice: &str) -> (res: Result<&'static str, WorkspaceError>)
    ensures
        choice@ == "Jira"@ ==> (res matches Ok(t) && t@ == "jira"@),
        choice@ == "Dex (local, no account needed)"@ ==> (res matches Ok(t) && t@ == "dex"@),
        choice@ != "Jira"@ && choice@ != "Dex (local, no account needed)"@ ==> (res matches Err(
            WorkspaceError::Other(m),
        ) && m@ == "Only Jira and Dex issue providers are currently supported; '"@ + choice@
            + "' is not yet available."@),
{
    proof {
        reveal_strlit("Jira");
        reveal_strlit("Dex (local, no account needed)");
        assert("Jira"@.len() != "Dex (local, no account needed)"@.len());
    }
    if str_eq(choice, "Jira") {
        Ok("jira")
    } else if str_eq(choice, "Dex (local, no account needed)") {
        Ok("dex")
    } else {
        let mut m = owned("Only Jira and Dex issue providers are currently supported; '");
        push_str(&mut m, choice);
        push_str(&mut m, "' is not yet available.");
        Err(WorkspaceError::Other(m))
    }
}

/// Only GitHub via `gh` is available as code provider.
pub fn init_code_provider(choice: &str) -> (res: Result<(), WorkspaceError>)
    ensures
        choice@ == "GitHub via gh"@ ==> res is Ok,
        choice@ != "GitHub via gh"@ ==> (res matches Err(WorkspaceError::Other(m)) && m@
            == "Only GitHub via gh is currently supported."@),
{
    if str_eq(choice, "GitHub via gh") {
        Ok(())
    } else {
        Err(WorkspaceError::Other(owned("Only GitHub via gh is currently supported.")))
    }
}

/// The configuration `ws init` saves: the defaults, with the chosen editor,
/// GitHub owner and issue provider; Jira's URL and project when Jira was
/// chosen (`jira`); the document provider when Confluence was chosen
/// (`confluence`: base URL and space), else none.
pub fn init_config(
    issue_type: &str,
    editor: &str,
    owner: String,
    jira: Option<(String, String)>,
    confluence: Option<(String, String)>,
) -> (c: LocalConfig)
    ensures
        c.issue_provider.provider_type@ == issue_type@,
        opt_view(c.issue_provider.base_url) == match jira {
            Some(j) => Some(j.0@),
            None => None::<Seq<char>>,
        },
        opt_view(c.issue_provider.default_project) == match jira {
            Some(j) => Some(j.1@),
            None => None::<Seq<char>>,
        },
        c.code_provider.provider_type@ == "github-gh"@,
        opt_view(c.code_provider.default_owner) == Some(owner@),
        opt_view(c.code_provider.protocol) == Some("ssh"@),
        doc_view(c.doc_provider) == match confluence {
            Some(d) => Some(("confluence"@, Some(d.0@), Some(d.1@))),
            None => None,
        },
        c.editor.default@ == editor@,
        c.paths.cache_dir@ == ".cache/repos"@,
        c.paths.workspaces_dir@ == "workspaces"@,
{
    let mut c = LocalConfig::default();
    c.code_provider.default_owner = Some(owner);
    c.editor.default = owned(editor);
    c.issue_provider.provider_type = owned(issue_type);
    match jira {
        Some((url, project)) => {
            c.issue_provider.base_url = Some(url);
            c.issue_provider.default_project = Some(project);
        },
        None => {
            c.issue_provider.base_url = None;
            c.issue_provider.default_project = None;
        },
    }
    c.doc_provider = match confluence {
        Some((url, space)) => Some(
            DocProviderConfig {
                provider_type: owned("confluence"),
                base_url: Some(url),
                default_space: Some(space),
            },
        ),
        None => None,
    };
    c
}

/// The init skills (`ws-repo-init`, `ws-self-heal`, in that order) that
/// were not installed because they are missing from the source tree.
pub open spec fn missing_skills(installed: Seq<Seq<char>>) -> Seq<Seq<char>> {
    let a = !installed.contains("ws-repo-init"@);
    let b = !installed.contains("ws-self-heal"@);
    if a && b {
        seq!["ws-repo-init"@, "ws-self-heal"@]
    } else if a {
        seq!["ws-repo-init"@]
    } else if b {
        seq!["ws-self-heal"@]
    } else {
        Seq::empty()
    }
}

pub fn missing_init_skills(installed: &Vec<String>) -> (missing: Vec<&'static str>)
    ensures
        missing@.map_values(|s: &str| s@) == missing_skills(views(installed@)),
{
    let mut missing: Vec<&'static str> = Vec::new();
    if !strings_contain(installed, "ws-repo-init") {
        missing.push("ws-repo-init");
    }
    if !strings_contain(installed, "ws-self-heal") {
        missing.push("ws-self-heal");
    }
    assert(missing@.map_values(|s: &str| s@) =~= missing_skills(views(installed@)));
    missing
}

/// The requested skills that the embedded skill tree holds, in request
/// order: a skill missing from the tree is skipped, never an error.
pub open spec fn installable(requested: Seq<Seq<char>>, available: Seq<Seq<char>>) -> Seq<Seq<char>> {
    requested.filter(|n: Seq<char>| available.contains(n))
}

/// Which of `requested` `ws init` installs, given the names of the skills
/// embedded in the binary.
pub fn installable_skills(requested: &Vec<String>, available: &Vec<String>) -> (out: Vec<String>)
    ensures
        views(out@) == installable(views(requested@), views(available@)),
{
    let mut out: Vec<String> = Vec::new();
    let mut i: usize = 0;
    while i < requested.len()
        invariant
            i <= requested.len(),
            views(out@) == installable(views(requested@).take(i as int), views(available@)),
        decreases requested.len() - i,
    {
        let name = &requested[i];
        let present = strings_contain(available, name.as_str());
        proof {
            let r = views(requested@);
            assert(r.take(i + 1).drop_last() =~= r.take(i as int));
            reveal(Seq::filter);
        }
        if present {
            out.push(name.clone());
            proof {
                assert(views(out@) =~= views(out@).drop_last().push(name@));
            }
        }
        i += 1;
    }
    proof {
        assert(views(requested@).take(requested.len() as int) =~= views(requested@));
    }
    out
}

/// Where each agent harness's skill directory links an installed skill:
/// `../../.agents/skills/<name>`.
pub fn skill_link_target(name: &str) -> (t: String)
    ensures
        t@ == "../../.agents/skills/"@ + name@,
{
    let mut t = owned("../../.agents/skills/");
    push_str(&mut t, name);
    t
}

// ==========================================
// Catalog entries from the CLI
// ==========================================

/// The catalog entry `ws add repo` / `ws discover` records for a repository:
/// a `service` of team `platform` named after the repo, cloned over SSH,
/// with `npm install` / `npm test` commands, the README as its doc, and the
/// configured issue tracker.
pub fn service_from_repo(repo: &RepoSummary, config: &LocalConfig) -> (s: ServiceCatalog)
    ensures
        s.id@ == repo.name@,
        s.name@ == repo.name@,
        s.kind@ == "service"@,
        s.description@ == match repo.description {
            Some(d) => d@,
            None => "Service for "@ + repo.name@,
        },
        s.team@ == "platform"@,
        s.products@.len() == 0,
        s.repo.provider@ == "github"@,
        s.repo.owner@ == repo.owner@,
        s.repo.name@ == repo.name@,
        s.repo.url@ == repo.ssh_url@,
        s.repo.default_branch@ == repo.default_branch@,
        s.owns@.len() == 0,
        s.likely_relevant_when@.len() == 0,
        s.commands.spec_get("install"@) == Some("npm install"@),
        s.commands.spec_get("test"@) == Some("npm test"@),
        forall|k: Seq<char>| k != "install"@ && k != "test"@ ==> s.commands.spec_get(k) is None,
        s.issue_tracking.provider@ == config.issue_provider.provider_type@,
        s.issue_tracking.project@ == match config.issue_provider.default_project {
            Some(p) => p@,
            None => Seq::<char>::empty(),
        },
        s.issue_tracking.component is None,
        s.docs@.len() == 1,
        s.docs@[0].doc_type@ == "readme"@,
        s.docs@[0].path@ == "README.md"@,
        s.understand_anything is None,
        s.deploy is None,
{
    let description = match &repo.description {
        Some(d) => d.clone(),
        None => {
            let mut d = owned("Service for ");
            push_str(&mut d, repo.name.as_str());
            d
        },
    };
    let mut commands = CommandMap::new();
    proof {
        assert forall|k: Seq<char>| commands.spec_get(k) is None by {
            assert(crate::models::key_index(commands.entries@, k) is None);
        }
    }
    proof {
        reveal_strlit("install");
        reveal_strlit("test");
        assert("install"@.len() != "test"@.len());
    }
    commands.insert(owned("install"), owned("npm install"));
    commands.insert(owned("test"), owned("npm test"));
    let project = match &config.issue_provider.default_project {
        Some(p) => p.clone(),
        None => String::new(),
    };
    proof {
        reveal_strlit("");
    }
    let docs = vec![CatalogDoc { doc_type: owned("readme"), path: owned("README.md") }];
    ServiceCatalog {
        id: repo.name.clone(),
        name: repo.name.clone(),
        kind: owned("service"),
        description,
        team: owned("platform"),
        products: Vec::new(),
        repo: CatalogRepo {
            provider: owned("github"),
            owner: repo.owner.clone(),
            name: repo.name.clone(),
            url: repo.ssh_url.clone(),
            default_branch: repo.default_branch.clone(),
        },
        owns: Vec::new(),
        likely_relevant_when: Vec::new(),
        commands,
        issue_tracking: CatalogIssueTracking {
            provider: config.issue_provider.provider_type.clone(),
            project,
            component: None,
        },
        docs,
        understand_anything: None,
        deploy: None,
    }
}

/// `owner/repo` split at its one `/`; a name without exactly one `/` is a
/// repo of the default owner, which must then be configured.
pub fn split_repo_name(name: &str, default_owner: &Option<String>) -> (res: Result<
    (String, String),
    WorkspaceError,
>)
    ensures
        count_char(name@, '/') == 1 ==> (res matches Ok((o, r)) && o@
            == crate::lint::before_char(name@, '/') && r@ == crate::lint::after_last(name@, '/')),
        count_char(name@, '/') != 1 ==> match default_owner {
            Some(d) => res matches Ok((o, r)) && o@ == d@ && r@ == name@,
            None => res matches Err(WorkspaceError::Validation(m)) && m@
                == "Specify full name <owner>/<repo> or set default code-owner config."@,
        },
{
    let v = str_chars(name);
    let mut slashes: usize = 0;
    let mut i: usize = 0;
    while i < v.len()
        invariant
            v@ == name@,
            i <= v.len(),
            slashes <= i,
            slashes == count_char(v@.take(i as int), '/'),
        decreases v.len() - i,
    {
        assert(v@.take(i + 1).drop_last() =~= v@.take(i as int));
        if v[i] == '/' {
            slashes += 1;
        }
        i += 1;
    }
    assert(v@.take(v.len() as int) =~= v@);
    if slashes == 1 {
        let owner = crate::text::chars_string(&crate::lint::before_first(&v, '/'));
        let repo = crate::text::chars_string(&crate::lint::after_last_char(&v, '/'));
        Ok((owner, repo))
    } else {
        match default_owner {
            Some(o) => Ok((o.clone(), owned(name))),
            None => Err(
                WorkspaceError::Validation(
                    owned("Specify full name <owner>/<repo> or set default code-owner config."),
                ),
            ),
        }
    }
}

/// The product `ws add product <name>` records.
pub fn new_product(name: &str) -> (p: ProductCatalog)
    ensures
        p.id@ == unicode_str_lower(name@),
        p.name@ == name@,
        p.kind@ == "product"@,
        p.description@ == "Product workspace for "@ + name@,
        p.agent.name@ == name@ + " Agent"@,
        p.agent.instructions@ == "Orchestrate workflows related to "@ + name@,
        p.knowledge_sources@.len() == 0,
        p.services.primary@.len() == 0,
        p.services.related@.len() == 0,
        p.routing_rules@.len() == 0,
{
    let mut description = owned("Product workspace for ");
    push_str(&mut description, name);
    let mut agent_name = owned(name);
    push_str(&mut agent_name, " Agent");
    let mut instructions = owned("Orchestrate workflows related to ");
    push_str(&mut instructions, name);
    ProductCatalog {
        id: str_to_lowercase(name),
        name: owned(name),
        kind: owned("product"),
        description,
        agent: ProductAgent { name: agent_name, instructions },
        knowledge_sources: Vec::new(),
        services: ProductServices { primary: Vec::new(), related: Vec::new() },
        routing_rules: Vec::new(),
    }
}

/// The team `ws add team <name>` records.
pub fn new_team(name: &str) -> (t: TeamCatalog)
    ensures
        t.id@ == unicode_str_lower(name@),
        t.name@ == name@,
        t.kind@ == "team"@,
        t.description@ == "Team "@ + name@,
        t.lead is None,
        t.members@.len() == 0,
{
    let mut description = owned("Team ");
    push_str(&mut description, name);
    TeamCatalog {
        id: str_to_lowercase(name),
        name: owned(name),
        kind: owned("team"),
        description,
        lead: None,
        members: Vec::new(),
    }
}

} // verus!
