//! `repo.healthcheck`: the read-only repo-init checklist.
//!
//! The healthcheck never fixes, scaffolds or runs anything: per checklist
//! point it reports whether the gap is open or closed. Every point is a
//! declaration check on the catalog entry except #1 (file and CI presence)
//! and #2 (a structural README check), which look at the checkout; #3 is
//! informational and #7 optional, so neither blocks. Points 9 and 11 are not
//! part of the checklist. What the checks read from the checkout is gathered
//! by the caller into a [`RepoProbe`].
use vstd::prelude::*;
use crate::command::CommandInfo;
use crate::error::WorkspaceError;
use crate::models::{CatalogDoc, CommandMap, DeployConfig, ServiceCatalog};
use crate::artifact::{gitattributes_suppression_ok, resolved_dir, resolved_dir_name, suppression_ok};
use crate::text::{
    ascii_ci_eq, char_is_whitespace, contains_seq, eq_ignore_ascii_case, joined, owned, push_str,
    slice_chars, str_chars, str_contains, str_eq, str_trim, trim, trim_start, views,
};

verus! {

/// Outcome of one checklist point.
#[derive(Clone, Copy, PartialEq, Eq, Structural, Debug)]
pub enum CheckStatus {
    /// Fully satisfied.
    Present,
    /// A required gate not satisfied at all.
    Missing,
    /// Some sub-parts satisfied, others not.
    Partial,
    /// Declaration gate satisfied (field present in the catalog).
    Declared,
    /// Declaration gate not satisfied (field absent from the catalog).
    NotDeclared,
    /// Not applicable.
    Na,
}

/// One checklist row.
pub struct HealthcheckRow {
    /// One of "1".."8", "10".
    pub check_id: String,
    pub title: String,
    pub status: CheckStatus,
    /// Whether an unsatisfied status blocks repo readiness.
    pub blocking: bool,
    /// Evidence trail (paths, present/absent keys).
    pub evidence: String,
    /// Next-step hint for the harness.
    pub run_hint: String,
}

/// A row as plain values: id, title, status, blocking, evidence, hint.
pub type RowSpec = (Seq<char>, Seq<char>, CheckStatus, bool, Seq<char>, Seq<char>);

impl HealthcheckRow {
    pub open spec fn spec(&self) -> RowSpec {
        (
            self.check_id@,
            self.title@,
            self.status,
            self.blocking,
            self.evidence@,
            self.run_hint@,
        )
    }
}

/// Counts over the rows of a report.
pub struct HealthcheckSummary {
    pub total: usize,
    pub present: usize,
    pub missing: usize,
    pub partial: usize,
    pub declared: usize,
    pub not_declared: usize,
    /// Rows that are blocking and unsatisfied (`Present` and `Declared` satisfy).
    pub blocking_failures: usize,
}

/// The full report for one service repo.
pub struct RepoHealthcheckOutput {
    pub service_id: String,
    pub repo_path: String,
    pub rows: Vec<HealthcheckRow>,
    pub summary: HealthcheckSummary,
}

/// Request: which service, which checkout, and `"all"` (default) or one id.
pub struct RepoHealthcheckInput {
    pub service_id: String,
    pub repo_path: String,
    pub check: Option<String>,
}

/// What the README check read at the declared README path.
pub enum ReadmeProbe {
    /// No file at the path.
    Absent,
    /// The file exists but could not be read; the read error's text.
    Unreadable(String),
    /// The file's contents.
    Text(String),
}

/// What the healthcheck reads from a repo checkout.
pub struct RepoProbe {
    /// Contents of `.gitattributes`, when it could be read.
    pub gitattributes: Option<String>,
    /// `.github/workflows/understand-anything.yml` exists.
    pub named_workflow: bool,
    /// `.ua/knowledge-graph.json` exists.
    pub artifact_preferred: bool,
    /// `.understand-anything/knowledge-graph.json` exists.
    pub artifact_legacy: bool,
    /// The README at [`readme_path`].
    pub readme: ReadmeProbe,
    /// For each path of [`agent_doc_paths`], in order, whether it exists.
    pub agent_docs_on_disk: Vec<bool>,
}

/// The active checklist ids, in report order.
pub open spec fn active_ids() -> Seq<Seq<char>> {
    seq!["1"@, "2"@, "3"@, "4"@, "5"@, "6"@, "7"@, "8"@, "10"@]
}

/// The active checklist ids (9 and 11 are not part of the checklist).
pub fn active_check_ids() -> (ids: Vec<&'static str>)
    ensures
        ids@.map_values(|s: &str| s@) == active_ids(),
{
    let ids = vec!["1", "2", "3", "4", "5", "6", "7", "8", "10"];
    assert(ids@.map_values(|s: &str| s@) =~= active_ids());
    ids
}

/// `"yes"` or `"no"`.
pub open spec fn yn_text(b: bool) -> Seq<char> {
    if b { "yes"@ } else { "no"@ }
}

pub fn yn(b: bool) -> (s: &'static str)
    ensures
        s@ == yn_text(b),
{
    if b { "yes" } else { "no" }
}

/// `"true"` or `"false"`.
pub open spec fn bool_text(b: bool) -> Seq<char> {
    if b { "true"@ } else { "false"@ }
}

fn bool_str(b: bool) -> (s: &'static str)
    ensures
        s@ == bool_text(b),
{
    if b { "true" } else { "false" }
}

fn make_row(
    id: &str,
    title: &str,
    status: CheckStatus,
    blocking: bool,
    evidence: String,
    hint: &str,
) -> (r: HealthcheckRow)
    ensures
        r.spec() == (id@, title@, status, blocking, evidence@, hint@),
{
    HealthcheckRow {
        check_id: owned(id),
        title: owned(title),
        status,
        blocking,
        evidence,
        run_hint: owned(hint),
    }
}

// ---- #1 Understand-Anything (file + CI presence) ----

pub open spec fn ua_enabled(service: ServiceCatalog) -> bool {
    service.understand_anything matches Some(c) && c.enabled
}

/// `.gitattributes` carries the artifact's diff-suppression lines, under
/// `.ua/` or the legacy directory.
pub open spec fn ua_gitattributes_ok(probe: RepoProbe) -> bool {
    probe.gitattributes matches Some(c) && suppression_ok(c@)
}

/// The knowledge-graph artifact resolves, `.ua/` first, then the legacy
/// directory.
pub open spec fn ua_artifact_ok(probe: RepoProbe) -> bool {
    resolved_dir_name(probe.artifact_preferred, probe.artifact_legacy) is Some
}

/// Present when all three of `.gitattributes` lines, workflow and artifact
/// are there, Missing when none is, Partial otherwise.
pub open spec fn three_way(a: bool, b: bool, c: bool) -> CheckStatus {
    if a && b && c {
        CheckStatus::Present
    } else if !a && !b && !c {
        CheckStatus::Missing
    } else {
        CheckStatus::Partial
    }
}

pub open spec fn ua_row(service: ServiceCatalog, probe: RepoProbe) -> RowSpec {
    if !ua_enabled(service) {
        (
            "1"@,
            "Understand-Anything"@,
            CheckStatus::NotDeclared,
            true,
            "catalog `understand_anything.enabled` is false / unset."@,
            "Set understand_anything.enabled via catalog.service.update; commit the artifact + .gitattributes lines + the GitHub Action (see workflows/repo-init.md #1)."@,
        )
    } else {
        let g = ua_gitattributes_ok(probe);
        let w = probe.named_workflow;
        let a = ua_artifact_ok(probe);
        (
            "1"@,
            "Understand-Anything"@,
            three_way(g, w, a),
            true,
            "enabled=true; gitattributes="@ + yn_text(g) + " workflow="@ + yn_text(w)
                + " artifact="@ + yn_text(a),
            "Commit .understand-anything/knowledge-graph.json with .gitattributes diff-suppression lines + .github/workflows/understand-anything.yml; verify with ws ai run repo.understand.verify."@,
        )
    }
}

/// Row #1. Satisfied by three things: the `.gitattributes` suppression
/// lines, the workflow `.github/workflows/understand-anything.yml`, and the
/// artifact at `.ua/knowledge-graph.json` or the legacy
/// `.understand-anything/knowledge-graph.json`.
pub fn check_understand_anything(service: &ServiceCatalog, probe: &RepoProbe) -> (r:
    HealthcheckRow)
    ensures
        r.spec() == ua_row(*service, *probe),
{
    let enabled = match &service.understand_anything {
        Some(c) => c.enabled,
        None => false,
    };
    if !enabled {
        return make_row(
            "1",
            "Understand-Anything",
            CheckStatus::NotDeclared,
            true,
            owned("catalog `understand_anything.enabled` is false / unset."),
            "Set understand_anything.enabled via catalog.service.update; commit the artifact + .gitattributes lines + the GitHub Action (see workflows/repo-init.md #1).",
        );
    }
    let g = match &probe.gitattributes {
        Some(c) => gitattributes_suppression_ok(c.as_str()),
        None => false,
    };
    let w = probe.named_workflow;
    let a = resolved_dir(probe.artifact_preferred, probe.artifact_legacy).is_some();
    let status = if g && w && a {
        CheckStatus::Present
    } else if !g && !w && !a {
        CheckStatus::Missing
    } else {
        CheckStatus::Partial
    };
    let mut ev = owned("enabled=true; gitattributes=");
    push_str(&mut ev, yn(g));
    push_str(&mut ev, " workflow=");
    push_str(&mut ev, yn(w));
    push_str(&mut ev, " artifact=");
    push_str(&mut ev, yn(a));
    make_row(
        "1",
        "Understand-Anything",
        status,
        true,
        ev,
        "Commit .understand-anything/knowledge-graph.json with .gitattributes diff-suppression lines + .github/workflows/understand-anything.yml; verify with ws ai run repo.understand.verify.",
    )
}

// ---- #2 README (structural) ----

/// Index of the first doc of the given type at or after `i`.
pub open spec fn doc_index_from(docs: Seq<CatalogDoc>, t: Seq<char>, i: int) -> Option<int>
    decreases docs.len() - i,
{
    if i < 0 || i >= docs.len() {
        None
    } else if docs[i].doc_type@ == t {
        Some(i)
    } else {
        doc_index_from(docs, t, i + 1)
    }
}

/// The README path the catalog declares (first `readme` doc), else `README.md`.
pub open spec fn readme_decl(service: ServiceCatalog) -> Seq<char> {
    match doc_index_from(service.docs@, "readme"@, 0) {
        Some(i) => service.docs@[i].path@,
        None => "README.md"@,
    }
}

/// The README path to probe, relative to the repo root.
pub fn readme_path(service: &ServiceCatalog) -> (p: String)
    ensures
        p@ == readme_decl(*service),
{
    let mut i: usize = 0;
    while i < service.docs.len()
        invariant
            i <= service.docs.len(),
            doc_index_from(service.docs@, "readme"@, 0) == doc_index_from(
                service.docs@,
                "readme"@,
                i as int,
            ),
        decreases service.docs.len() - i,
    {
        if str_eq(service.docs[i].doc_type.as_str(), "readme") {
            return service.docs[i].path.clone();
        }
        i += 1;
    }
    owned("README.md")
}

/// The end of the line starting at `i`: the next line feed, or the end.
pub open spec fn line_end(s: Seq<char>, i: int) -> int
    decreases s.len() - i,
{
    if i < 0 || i >= s.len() {
        s.len() as int
    } else if s[i] == '\n' {
        i
    } else {
        line_end(s, i + 1)
    }
}

/// Whether position `i` starts a line of `s`.
pub open spec fn line_start(s: Seq<char>, i: int) -> bool {
    0 <= i <= s.len() && (i == 0 || s[i - 1] == '\n')
}

/// A Markdown level-one heading: after leading whitespace, `# `.
pub open spec fn heading_line(l: Seq<char>) -> bool {
    let t = trim_start(l);
    t.len() >= 2 && t[0] == '#' && t[1] == ' '
}

/// Some line of `s` is a `# ` heading.
pub open spec fn has_heading(s: Seq<char>) -> bool {
    exists|i: int| line_start(s, i) && #[trigger] heading_line(s.subrange(i, line_end(s, i)))
}

proof fn lemma_line_end(s: Seq<char>, i: int)
    requires
        0 <= i <= s.len(),
    ensures
        i <= line_end(s, i) <= s.len(),
        line_end(s, i) < s.len() ==> s[line_end(s, i)] == '\n',
        forall|k: int| i <= k < line_end(s, i) ==> s[k] != '\n',
    decreases s.len() - i,
{
    if i < s.len() && s[i] != '\n' {
        lemma_line_end(s, i + 1);
    }
}

fn is_heading(l: &Vec<char>) -> (res: bool)
    ensures
        res == heading_line(l@),
{
    let mut a: usize = 0;
    assert(l@.skip(0) =~= l@);
    while a < l.len() && char_is_whitespace(l[a])
        invariant
            a <= l.len(),
            trim_start(l@) == trim_start(l@.skip(a as int)),
        decreases l.len() - a,
    {
        assert(l@.skip(a as int).drop_first() =~= l@.skip(a + 1));
        a += 1;
    }
    assert(trim_start(l@.skip(a as int)) == l@.skip(a as int));
    l.len() - a >= 2 && l[a] == '#' && l[a + 1] == ' '
}

/// Whether some line of `text` is a `# ` heading.
pub fn text_has_heading(text: &str) -> (res: bool)
    ensures
        res == has_heading(text@),
{
    let s = str_chars(text);
    let mut i: usize = 0;
    loop
        invariant
            s@ == text@,
            i <= s.len(),
            line_start(s@, i as int),
            forall|j: int| 0 <= j < i && line_start(s@, j) ==> !heading_line(
                s@.subrange(j, line_end(s@, j)),
            ),
        decreases s.len() - i,
    {
        let mut e = i;
        while e < s.len() && s[e] != '\n'
            invariant
                i <= e <= s.len(),
                line_end(s@, i as int) == line_end(s@, e as int),
                forall|k: int| i <= k < e ==> s@[k] != '\n',
            decreases s.len() - e,
        {
            e += 1;
        }
        proof {
            lemma_line_end(s@, i as int);
        }
        let line = slice_chars(&s, i, e);
        assert(line_end(s@, e as int) == e);
        if is_heading(&line) {
            assert(heading_line(s@.subrange(i as int, line_end(s@, i as int))));
            return true;
        }
        if e == s.len() {
            assert forall|j: int| line_start(s@, j) implies !heading_line(
                s@.subrange(j, line_end(s@, j)),
            ) by {
                if j > i {
                    assert(s@[j - 1] != '\n');
                }
            }
            return false;
        }
        assert forall|j: int| 0 <= j < e + 1 && line_start(s@, j) implies !heading_line(
            s@.subrange(j, line_end(s@, j)),
        ) by {
            if i < j {
                assert(s@[j - 1] != '\n');
            }
        }
        i = e + 1;
    }
}

pub open spec fn readme_row(service: ServiceCatalog, probe: RepoProbe) -> RowSpec {
    let d = readme_decl(service);
    let (status, evidence) = match probe.readme {
        ReadmeProbe::Absent => (CheckStatus::Missing, "file not found at "@ + d),
        ReadmeProbe::Unreadable(e) => (CheckStatus::Missing, "unreadable "@ + d + ": "@ + e@),
        ReadmeProbe::Text(c) => if trim(c@).len() == 0 {
            (CheckStatus::Partial, d + " exists but is empty"@)
        } else if has_heading(c@) {
            (CheckStatus::Present, d + " exists, non-empty, ≥1 `#` heading"@)
        } else {
            (CheckStatus::Partial, d + " exists but no `#` heading"@)
        },
    };
    (
        "2"@,
        "README.md"@,
        status,
        true,
        evidence,
        "Create README.md at repo root: project name, one-paragraph purpose, install/test/run commands (pull from commands.*), link to CONTRIBUTING.md if present."@,
    )
}

pub fn check_readme(service: &ServiceCatalog, probe: &RepoProbe) -> (r: HealthcheckRow)
    ensures
        r.spec() == readme_row(*service, *probe),
{
    let d = readme_path(service);
    let (status, evidence) = match &probe.readme {
        ReadmeProbe::Absent => {
            let mut ev = owned("file not found at ");
            push_str(&mut ev, d.as_str());
            (CheckStatus::Missing, ev)
        },
        ReadmeProbe::Unreadable(e) => {
            let mut ev = owned("unreadable ");
            push_str(&mut ev, d.as_str());
            push_str(&mut ev, ": ");
            push_str(&mut ev, e.as_str());
            (CheckStatus::Missing, ev)
        },
        ReadmeProbe::Text(c) => {
            let mut ev = d.clone();
            if str_trim(c.as_str()).len() == 0 {
                push_str(&mut ev, " exists but is empty");
                (CheckStatus::Partial, ev)
            } else if text_has_heading(c.as_str()) {
                push_str(&mut ev, " exists, non-empty, ≥1 `#` heading");
                (CheckStatus::Present, ev)
            } else {
                push_str(&mut ev, " exists but no `#` heading");
                (CheckStatus::Partial, ev)
            }
        },
    };
    make_row(
        "2",
        "README.md",
        status,
        true,
        evidence,
        "Create README.md at repo root: project name, one-paragraph purpose, install/test/run commands (pull from commands.*), link to CONTRIBUTING.md if present.",
    )
}

// ---- #3 agent instruction file (informational, never blocks) ----

/// The paths of the docs of type `agent`, in catalog order.
pub open spec fn agent_paths(docs: Seq<CatalogDoc>) -> Seq<Seq<char>>
    decreases docs.len(),
{
    if docs.len() == 0 {
        Seq::empty()
    } else if docs.last().doc_type@ == "agent"@ {
        agent_paths(docs.drop_last()).push(docs.last().path@)
    } else {
        agent_paths(docs.drop_last())
    }
}

/// The paths whose flag is set (a missing flag counts as unset).
pub open spec fn flagged(paths: Seq<Seq<char>>, flags: Seq<bool>) -> Seq<Seq<char>>
    decreases paths.len(),
{
    if paths.len() == 0 {
        Seq::empty()
    } else {
        let k = paths.len() - 1;
        let r = flagged(paths.drop_last(), flags);
        if k < flags.len() && flags[k] {
            r.push(paths.last())
        } else {
            r
        }
    }
}

/// The declared agent doc paths, to be probed by the caller.
pub fn agent_doc_paths(service: &ServiceCatalog) -> (v: Vec<String>)
    ensures
        views(v@) == agent_paths(service.docs@),
{
    let mut v: Vec<String> = Vec::new();
    let mut i: usize = 0;
    while i < service.docs.len()
        invariant
            i <= service.docs.len(),
            views(v@) == agent_paths(service.docs@.take(i as int)),
        decreases service.docs.len() - i,
    {
        assert(service.docs@.take(i + 1).drop_last() =~= service.docs@.take(i as int));
        if str_eq(service.docs[i].doc_type.as_str(), "agent") {
            v.push(service.docs[i].path.clone());
        }
        assert(views(v@) =~= agent_paths(service.docs@.take(i + 1)));
        i += 1;
    }
    assert(service.docs@.take(service.docs.len() as int) =~= service.docs@);
    v
}

pub open spec fn agent_row(service: ServiceCatalog, probe: RepoProbe) -> RowSpec {
    let paths = agent_paths(service.docs@);
    let (status, evidence) = if paths.len() == 0 {
        (CheckStatus::NotDeclared, "no docs entry with type: agent"@)
    } else {
        (
            CheckStatus::Declared,
            "declared agent docs: ["@ + joined(paths, ", "@) + "]; present on disk: ["@ + joined(
                flagged(paths, probe.agent_docs_on_disk@),
                ", "@,
            ) + "]"@,
        )
    };
    (
        "3"@,
        "AGENT.md (informational)"@,
        status,
        false,
        evidence,
        "Optional — no validation. If your repo has an AGENT.md, declare it via docs:[{type:agent, path:...}] in the catalog."@,
    )
}

pub fn check_agent_doc(service: &ServiceCatalog, probe: &RepoProbe) -> (r: HealthcheckRow)
    ensures
        r.spec() == agent_row(*service, *probe),
{
    let paths = agent_doc_paths(service);
    let ghost pv = views(paths@);
    let (status, evidence) = if paths.len() == 0 {
        (CheckStatus::NotDeclared, owned("no docs entry with type: agent"))
    } else {
        let mut on_disk: Vec<String> = Vec::new();
        let mut k: usize = 0;
        let flags = &probe.agent_docs_on_disk;
        while k < paths.len()
            invariant
                k <= paths.len(),
                pv == views(paths@),
                views(on_disk@) == flagged(pv.take(k as int), flags@),
            decreases paths.len() - k,
        {
            assert(pv.take(k + 1).drop_last() =~= pv.take(k as int));
            if k < flags.len() && flags[k] {
                on_disk.push(paths[k].clone());
            }
            assert(views(on_disk@) =~= flagged(pv.take(k + 1), flags@));
            k += 1;
        }
        assert(pv.take(paths.len() as int) =~= pv);
        let mut ev = owned("declared agent docs: [");
        push_str(&mut ev, crate::text::join_strings(&paths, ", ").as_str());
        push_str(&mut ev, "]; present on disk: [");
        push_str(&mut ev, crate::text::join_strings(&on_disk, ", ").as_str());
        push_str(&mut ev, "]");
        (CheckStatus::Declared, ev)
    };
    make_row(
        "3",
        "AGENT.md (informational)",
        status,
        false,
        evidence,
        "Optional — no validation. If your repo has an AGENT.md, declare it via docs:[{type:agent, path:...}] in the catalog.",
    )
}

// ---- #4 / #6 / #7 / #10 single-command declaration gates ----

pub open spec fn command_row(
    commands: CommandMap,
    id: Seq<char>,
    title: Seq<char>,
    key: Seq<char>,
    blocking: bool,
    hint: Seq<char>,
) -> RowSpec {
    let (status, evidence) = match commands.spec_get(key) {
        Some(v) => (CheckStatus::Declared, "commands."@ + key + " = `"@ + v + "`"@),
        None => (CheckStatus::NotDeclared, "commands."@ + key + " not declared"@),
    };
    (id, title, status, blocking, evidence, hint)
}

pub fn check_command_declared(
    service: &ServiceCatalog,
    id: &str,
    title: &str,
    key: &str,
    blocking: bool,
    run_hint: &str,
) -> (r: HealthcheckRow)
    ensures
        r.spec() == command_row(service.commands, id@, title@, key@, blocking, run_hint@),
{
    let mut ev = owned("commands.");
    push_str(&mut ev, key);
    let status = match service.commands.get(key) {
        Some(v) => {
            push_str(&mut ev, " = `");
            push_str(&mut ev, v.as_str());
            push_str(&mut ev, "`");
            CheckStatus::Declared
        },
        None => {
            push_str(&mut ev, " not declared");
            CheckStatus::NotDeclared
        },
    };
    make_row(id, title, status, blocking, ev, run_hint)
}

// ---- #5 dev / run / verify_run ----

/// `k=` followed by the backquoted command, or `(absent)`.
pub open spec fn key_detail(commands: CommandMap, k: Seq<char>) -> Seq<char> {
    k + "="@ + match commands.spec_get(k) {
        Some(v) => "`"@ + v + "`"@,
        None => "(absent)"@,
    }
}

pub open spec fn run_row(service: ServiceCatalog) -> RowSpec {
    let c = service.commands;
    let d = c.spec_get("dev"@) is Some;
    let r = c.spec_get("run"@) is Some;
    let v = c.spec_get("verify_run"@) is Some;
    (
        "5"@,
        "Run locally e2e"@,
        three_way(d, r, v),
        true,
        key_detail(c, "dev"@) + ", "@ + key_detail(c, "run"@) + ", "@ + key_detail(
            c,
            "verify_run"@,
        ),
        "dev = local dev start (may not exit); run = production start; verify_run = one-liner confirming the service came up (e.g. curl localhost:8080/healthz). Record via catalog.service.update."@,
    )
}

fn push_key_detail(ev: &mut String, commands: &CommandMap, k: &str) -> (present: bool)
    ensures
        final(ev)@ == old(ev)@ + key_detail(*commands, k@),
        present == commands.spec_get(k@) is Some,
{
    push_str(ev, k);
    push_str(ev, "=");
    match commands.get(k) {
        Some(v) => {
            push_str(ev, "`");
            push_str(ev, v.as_str());
            push_str(ev, "`");
            true
        },
        None => {
            push_str(ev, "(absent)");
            false
        },
    }
}

pub fn check_run_locally(service: &ServiceCatalog) -> (r: HealthcheckRow)
    ensures
        r.spec() == run_row(*service),
{
    let mut ev = String::new();
    let d = push_key_detail(&mut ev, &service.commands, "dev");
    push_str(&mut ev, ", ");
    let r = push_key_detail(&mut ev, &service.commands, "run");
    push_str(&mut ev, ", ");
    let v = push_key_detail(&mut ev, &service.commands, "verify_run");
    let status = if d && r && v {
        CheckStatus::Present
    } else if !d && !r && !v {
        CheckStatus::Missing
    } else {
        CheckStatus::Partial
    };
    make_row(
        "5",
        "Run locally e2e",
        status,
        true,
        ev,
        "dev = local dev start (may not exit); run = production start; verify_run = one-liner confirming the service came up (e.g. curl localhost:8080/healthz). Record via catalog.service.update.",
    )
}

// ---- #8 deploy (declaration or skip) ----

pub open spec fn deploy_row(service: ServiceCatalog) -> RowSpec {
    let (status, evidence) = match service.deploy {
        None => (CheckStatus::NotDeclared, "deploy not declared"@),
        Some(DeployConfig::Command(c)) => (CheckStatus::Declared, "deploy = `"@ + c@ + "`"@),
        Some(DeployConfig::Skip { skip, reason }) => (
            CheckStatus::Declared,
            "deploy.skip = "@ + bool_text(skip) + " reason = "@ + match reason {
                Some(r) => r@,
                None => "(none)"@,
            },
        ),
    };
    (
        "8"@,
        "Deploy + envs + when"@,
        status,
        true,
        evidence,
        "Plain command string OR {skip:true, reason}. Envs/when/triggers are company-level in workflows/deploy.md (not a catalog field)."@,
    )
}

pub fn check_deploy(service: &ServiceCatalog) -> (r: HealthcheckRow)
    ensures
        r.spec() == deploy_row(*service),
{
    let (status, evidence) = match &service.deploy {
        None => (CheckStatus::NotDeclared, owned("deploy not declared")),
        Some(DeployConfig::Command(c)) => {
            let mut ev = owned("deploy = `");
            push_str(&mut ev, c.as_str());
            push_str(&mut ev, "`");
            (CheckStatus::Declared, ev)
        },
        Some(DeployConfig::Skip { skip, reason }) => {
            let mut ev = owned("deploy.skip = ");
            push_str(&mut ev, bool_str(*skip));
            push_str(&mut ev, " reason = ");
            match reason {
                Some(r) => push_str(&mut ev, r.as_str()),
                None => push_str(&mut ev, "(none)"),
            }
            (CheckStatus::Declared, ev)
        },
    };
    make_row(
        "8",
        "Deploy + envs + when",
        status,
        true,
        evidence,
        "Plain command string OR {skip:true, reason}. Envs/when/triggers are company-level in workflows/deploy.md (not a catalog field).",
    )
}

// ---- dispatch, report, summary ----

/// The row a checklist id yields.
pub open spec fn point_row(id: Seq<char>, service: ServiceCatalog, probe: RepoProbe) -> RowSpec {
    if id == "1"@ {
        ua_row(service, probe)
    } else if id == "2"@ {
        readme_row(service, probe)
    } else if id == "3"@ {
        agent_row(service, probe)
    } else if id == "4"@ {
        command_row(
            service.commands,
            "4"@,
            "Install deps"@,
            "install"@,
            true,
            "ws ai run repo.run -- to execute `commands.install` (exit 0 expected)."@,
        )
    } else if id == "5"@ {
        run_row(service)
    } else if id == "6"@ {
        command_row(
            service.commands,
            "6"@,
            "Unit tests"@,
            "test"@,
            true,
            "ws ai run repo.run -- to execute `commands.test` (exit 0 expected)."@,
        )
    } else if id == "7"@ {
        command_row(
            service.commands,
            "7"@,
            "Integration tests (optional)"@,
            "test_integration"@,
            false,
            "Optional — never blocks. If applicable, ws ai run repo.run -- to execute it."@,
        )
    } else if id == "8"@ {
        deploy_row(service)
    } else if id == "10"@ {
        command_row(
            service.commands,
            "10"@,
            "Agent-verification"@,
            "agent_verify"@,
            true,
            "ws ai run repo.run -- to execute `commands.agent_verify` after a change."@,
        )
    } else {
        (id, "Unknown"@, CheckStatus::Na, false, "Unknown check id "@ + id, Seq::empty())
    }
}

fn copy_row(r: &HealthcheckRow) -> (c: HealthcheckRow)
    ensures
        c.spec() == r.spec(),
{
    HealthcheckRow {
        check_id: r.check_id.clone(),
        title: r.title.clone(),
        status: r.status,
        blocking: r.blocking,
        evidence: r.evidence.clone(),
        run_hint: r.run_hint.clone(),
    }
}

/// The row for one checklist id (an unknown id yields an `Na` row).
pub fn check_point(id: &str, service: &ServiceCatalog, probe: &RepoProbe) -> (r: HealthcheckRow)
    ensures
        r.spec() == point_row(id@, *service, *probe),
{
    if str_eq(id, "1") {
        check_understand_anything(service, probe)
    } else if str_eq(id, "2") {
        check_readme(service, probe)
    } else if str_eq(id, "3") {
        check_agent_doc(service, probe)
    } else if str_eq(id, "4") {
        check_command_declared(
            service,
            "4",
            "Install deps",
            "install",
            true,
            "ws ai run repo.run -- to execute `commands.install` (exit 0 expected).",
        )
    } else if str_eq(id, "5") {
        check_run_locally(service)
    } else if str_eq(id, "6") {
        check_command_declared(
            service,
            "6",
            "Unit tests",
            "test",
            true,
            "ws ai run repo.run -- to execute `commands.test` (exit 0 expected).",
        )
    } else if str_eq(id, "7") {
        check_command_declared(
            service,
            "7",
            "Integration tests (optional)",
            "test_integration",
            false,
            "Optional — never blocks. If applicable, ws ai run repo.run -- to execute it.",
        )
    } else if str_eq(id, "8") {
        check_deploy(service)
    } else if str_eq(id, "10") {
        check_command_declared(
            service,
            "10",
            "Agent-verification",
            "agent_verify",
            true,
            "ws ai run repo.run -- to execute `commands.agent_verify` after a change.",
        )
    } else {
        let mut ev = owned("Unknown check id ");
        push_str(&mut ev, id);
        let r = make_row(id, "Unknown", CheckStatus::Na, false, ev, "");
        proof {
            reveal_strlit("");
        }
        assert(r.run_hint@ =~= Seq::<char>::empty());
        r
    }
}

/// The rows as plain values.
pub open spec fn row_specs(rows: Seq<HealthcheckRow>) -> Seq<RowSpec> {
    rows.map_values(|r: HealthcheckRow| r.spec())
}

/// Every active checklist row, in order.
pub open spec fn all_rows(service: ServiceCatalog, probe: RepoProbe) -> Seq<RowSpec> {
    active_ids().map_values(|id: Seq<char>| point_row(id, service, probe))
}

/// The rows whose id is `id`, in order.
pub open spec fn rows_with_id(rows: Seq<RowSpec>, id: Seq<char>) -> Seq<RowSpec>
    decreases rows.len(),
{
    if rows.len() == 0 {
        Seq::empty()
    } else if rows.last().0 == id {
        rows_with_id(rows.drop_last(), id).push(rows.last())
    } else {
        rows_with_id(rows.drop_last(), id)
    }
}

/// The error for a check id that selects no row.
pub open spec fn unknown_check_message(id: Seq<char>) -> Seq<char> {
    "Unknown check id '"@ + id + "'. Active ids: [\"1\", \"2\", \"3\", \"4\", \"5\", \"6\", \"7\", \"8\", \"10\"]"@
}

/// The rows a report holds: every active point, or those whose id is
/// `check` when `check` is given and is not `all` (in any ASCII case).
pub open spec fn report_rows(service: ServiceCatalog, probe: RepoProbe, check: Option<String>) -> Result<
    Seq<RowSpec>,
    WorkspaceError,
> {
    match check {
        Some(f) => if ascii_ci_eq(f@, "all"@) {
            Ok(all_rows(service, probe))
        } else {
            let kept = rows_with_id(all_rows(service, probe), f@);
            if kept.len() == 0 {
                Err(WorkspaceError::Validation(arbitrary()))
            } else {
                Ok(kept)
            }
        },
        None => Ok(all_rows(service, probe)),
    }
}

/// The healthcheck rows for a service and what was read from its checkout.
pub fn healthcheck_rows(service: &ServiceCatalog, probe: &RepoProbe, check: &Option<String>) -> (res:
    Result<Vec<HealthcheckRow>, WorkspaceError>)
    ensures
        match (res, report_rows(*service, *probe, *check)) {
            (Ok(rows), Ok(want)) => row_specs(rows@) == want,
            (Err(WorkspaceError::Validation(m)), Err(_)) => check matches Some(f) && m@
                == unknown_check_message(f@),
            _ => false,
        },
{
    let ids = active_check_ids();
    let mut rows: Vec<HealthcheckRow> = Vec::new();
    let mut k: usize = 0;
    while k < ids.len()
        invariant
            ids@.map_values(|s: &str| s@) == active_ids(),
            k <= ids.len(),
            row_specs(rows@) == all_rows(*service, *probe).take(k as int),
        decreases ids.len() - k,
    {
        let r = check_point(ids[k], service, probe);
        let ghost before = row_specs(rows@);
        rows.push(r);
        assert(ids@.map_values(|s: &str| s@)[k as int] == ids@[k as int]@);
        assert(row_specs(rows@) =~= before.push(r.spec()));
        assert(all_rows(*service, *probe).take(k + 1) =~= all_rows(*service, *probe).take(
            k as int,
        ).push(all_rows(*service, *probe)[k as int]));
        k += 1;
    }
    assert(all_rows(*service, *probe).take(9) =~= all_rows(*service, *probe));
    let filter = match check {
        Some(f) => if eq_ignore_ascii_case(f.as_str(), "all") {
            None
        } else {
            Some(f)
        },
        None => None,
    };
    match filter {
        None => Ok(rows),
        Some(f) => {
            let ghost all = row_specs(rows@);
            let mut kept: Vec<HealthcheckRow> = Vec::new();
            let mut j: usize = 0;
            while j < rows.len()
                invariant
                    all == row_specs(rows@),
                    j <= rows.len(),
                    row_specs(kept@) == rows_with_id(all.take(j as int), f@),
                decreases rows.len() - j,
            {
                assert(all.take(j + 1).drop_last() =~= all.take(j as int));
                if str_eq(rows[j].check_id.as_str(), f.as_str()) {
                    let ghost before = row_specs(kept@);
                    let r = copy_row(&rows[j]);
                    kept.push(r);
                    assert(row_specs(kept@) =~= before.push(r.spec()));
                }
                j += 1;
            }
            let n = rows.len();
            assert(all.take(n as int) =~= all);
            if kept.len() == 0 {
                let mut m = owned("Unknown check id '");
                push_str(&mut m, f.as_str());
                push_str(
                    &mut m,
                    "'. Active ids: [\"1\", \"2\", \"3\", \"4\", \"5\", \"6\", \"7\", \"8\", \"10\"]",
                );
                Err(WorkspaceError::Validation(m))
            } else {
                Ok(kept)
            }
        },
    }
}

/// Number of rows with the given status.
pub open spec fn count_status(rows: Seq<RowSpec>, st: CheckStatus) -> nat
    decreases rows.len(),
{
    if rows.len() == 0 {
        0
    } else {
        count_status(rows.drop_last(), st) + if rows.last().2 == st { 1nat } else { 0nat }
    }
}

/// A blocking row whose status is neither `Present` nor `Declared`.
pub open spec fn blocking_failure(r: RowSpec) -> bool {
    r.3 && r.2 != CheckStatus::Present && r.2 != CheckStatus::Declared
}

/// Number of blocking failures.
pub open spec fn count_blocking(rows: Seq<RowSpec>) -> nat
    decreases rows.len(),
{
    if rows.len() == 0 {
        0
    } else {
        count_blocking(rows.drop_last()) + if blocking_failure(rows.last()) { 1nat } else { 0nat }
    }
}

proof fn lemma_counts_bounded(rows: Seq<RowSpec>)
    ensures
        count_status(rows, CheckStatus::Present) + count_status(rows, CheckStatus::Missing)
            + count_status(rows, CheckStatus::Partial) + count_status(rows, CheckStatus::Declared)
            + count_status(rows, CheckStatus::NotDeclared) + count_status(rows, CheckStatus::Na)
            == rows.len(),
        count_blocking(rows) <= rows.len(),
    decreases rows.len(),
{
    if rows.len() > 0 {
        lemma_counts_bounded(rows.drop_last());
    }
}

/// Counts the rows by status, and the blocking failures.
pub fn summarize(rows: &Vec<HealthcheckRow>) -> (s: HealthcheckSummary)
    ensures
        s.total == rows.len(),
        s.present == count_status(row_specs(rows@), CheckStatus::Present),
        s.missing == count_status(row_specs(rows@), CheckStatus::Missing),
        s.partial == count_status(row_specs(rows@), CheckStatus::Partial),
        s.declared == count_status(row_specs(rows@), CheckStatus::Declared),
        s.not_declared == count_status(row_specs(rows@), CheckStatus::NotDeclared),
        s.blocking_failures == count_blocking(row_specs(rows@)),
{
    let ghost all = row_specs(rows@);
    let mut s = HealthcheckSummary {
        total: rows.len(),
        present: 0,
        missing: 0,
        partial: 0,
        declared: 0,
        not_declared: 0,
        blocking_failures: 0,
    };
    let mut i: usize = 0;
    while i < rows.len()
        invariant
            all == row_specs(rows@),
            i <= rows.len(),
            s.total == rows.len(),
            s.present == count_status(all.take(i as int), CheckStatus::Present),
            s.missing == count_status(all.take(i as int), CheckStatus::Missing),
            s.partial == count_status(all.take(i as int), CheckStatus::Partial),
            s.declared == count_status(all.take(i as int), CheckStatus::Declared),
            s.not_declared == count_status(all.take(i as int), CheckStatus::NotDeclared),
            s.blocking_failures == count_blocking(all.take(i as int)),
        decreases rows.len() - i,
    {
        proof {
            lemma_counts_bounded(all.take(i as int));
            assert(all.take(i + 1).drop_last() =~= all.take(i as int));
        }
        let st = rows[i].status;
        match st {
            CheckStatus::Present => s.present = s.present + 1,
            CheckStatus::Missing => s.missing = s.missing + 1,
            CheckStatus::Partial => s.partial = s.partial + 1,
            CheckStatus::Declared => s.declared = s.declared + 1,
            CheckStatus::NotDeclared => s.not_declared = s.not_declared + 1,
            CheckStatus::Na => {},
        }
        if rows[i].blocking && st != CheckStatus::Present && st != CheckStatus::Declared {
            s.blocking_failures = s.blocking_failures + 1;
        }
        i += 1;
    }
    assert(all.take(rows.len() as int) =~= all);
    s
}

/// The counts of a summary add up: every row has exactly one status, and
/// only unsatisfied rows are blocking failures.
pub proof fn lemma_summary_counts(rows: Seq<RowSpec>)
    ensures
        count_status(rows, CheckStatus::Present) + count_status(rows, CheckStatus::Missing)
            + count_status(rows, CheckStatus::Partial) + count_status(rows, CheckStatus::Declared)
            + count_status(rows, CheckStatus::NotDeclared) + count_status(rows, CheckStatus::Na)
            == rows.len(),
        count_blocking(rows) <= count_status(rows, CheckStatus::Missing) + count_status(
            rows,
            CheckStatus::Partial,
        ) + count_status(rows, CheckStatus::NotDeclared) + count_status(rows, CheckStatus::Na),
    decreases rows.len(),
{
    if rows.len() > 0 {
        lemma_summary_counts(rows.drop_last());
    }
}

/// Blocking failures are exactly the blocking rows left unsatisfied: every
/// blocking row whose status is neither `Present` nor `Declared` counts, and
/// no other row does. So the count is the number of blocking rows less the
/// blocking rows that are present or declared.
pub proof fn lemma_blocking_failures_counted(rows: Seq<RowSpec>)
    ensures
        count_blocking(rows) == rows.filter(
            |r: RowSpec| r.3 && r.2 != CheckStatus::Present && r.2 != CheckStatus::Declared,
        ).len(),
        count_blocking(rows) + count_status(rows.filter(|r: RowSpec| r.3), CheckStatus::Present)
            + count_status(rows.filter(|r: RowSpec| r.3), CheckStatus::Declared) == rows.filter(
            |r: RowSpec| r.3,
        ).len(),
    decreases rows.len(),
{
    reveal(Seq::filter);
    if rows.len() > 0 {
        lemma_blocking_failures_counted(rows.drop_last());
        let pb = |r: RowSpec| r.3;
        let blk0 = rows.drop_last().filter(pb);
        let x = rows.last();
        if x.3 {
            assert(rows.filter(pb) == blk0.push(x));
            assert(blk0.push(x).drop_last() =~= blk0);
        } else {
            assert(rows.filter(pb) == blk0);
        }
    }
}

/// Builds the report: the rows of [`healthcheck_rows`] and their summary.
/// `repo_path` is the checkout path as it is to be shown.
pub fn healthcheck_report(
    service: &ServiceCatalog,
    repo_path: String,
    probe: &RepoProbe,
    check: &Option<String>,
) -> (res: Result<RepoHealthcheckOutput, WorkspaceError>)
    ensures
        match (res, report_rows(*service, *probe, *check)) {
            (Ok(out), Ok(want)) => row_specs(out.rows@) == want && out.service_id@ == service.id@
                && out.repo_path@ == repo_path@ && out.summary.total == want.len()
                && out.summary.present == count_status(want, CheckStatus::Present)
                && out.summary.missing == count_status(want, CheckStatus::Missing)
                && out.summary.partial == count_status(want, CheckStatus::Partial)
                && out.summary.declared == count_status(want, CheckStatus::Declared)
                && out.summary.not_declared == count_status(want, CheckStatus::NotDeclared)
                && out.summary.blocking_failures == count_blocking(want),
            (Err(WorkspaceError::Validation(m)), Err(_)) => check matches Some(f) && m@
                == unknown_check_message(f@),
            _ => false,
        },
{
    match healthcheck_rows(service, probe, check) {
        Ok(rows) => {
            let summary = summarize(&rows);
            Ok(RepoHealthcheckOutput { service_id: service.id.clone(), repo_path, rows, summary })
        },
        Err(e) => Err(e),
    }
}

/// `repo.healthcheck`.
pub struct RepoHealthcheckCommand;

impl CommandInfo for RepoHealthcheckCommand {
    fn id(&self) -> (s: &'static str)
        ensures
            s@ == "repo.healthcheck"@,
    {
        "repo.healthcheck"
    }

    fn description(&self) -> (s: &'static str)
        ensures
            s@ == "Read-only 10-point repo-init healthcheck for a service repo (declaration + file-existence)."@,
    {
        "Read-only 10-point repo-init healthcheck for a service repo (declaration + file-existence)."
    }
}

} // verus!
