//! The provider commands (code, issue and doc providers), the company
//! `AGENTS.md` the workspace keeps current, and the decisions of `pr.create`.
//!
//! The provider calls themselves are made by the caller; what is decided or
//! written around them is here.
use vstd::prelude::*;
use crate::command::CommandInfo;
use crate::error::WorkspaceError;
use crate::models::{insert_keyed, lookup, CreatePullRequestInput, PushBranchInput, Workspace};
use crate::text::{
    joined, owned, path_join, push_str, str_byte_len, str_chars, str_trim, trim, trim_start, trim_end, white,
    u64_text, decimal_text, utf8_len, views, join_path, chars_string, slice_chars, char_is_whitespace,
    string_push, sorted_unique, strictly_sorted, strings_contain,
};
use crate::lint::before_char;

verus! {

/// Which provider a command needs.
#[derive(Clone, Copy, PartialEq, Eq, Structural, Debug)]
pub enum ProviderKind {
    Code,
    Issue,
    Doc,
}

/// The error of a command whose provider is not configured.
pub fn no_provider(kind: ProviderKind) -> (e: WorkspaceError)
    ensures
        e matches WorkspaceError::Config(m) && m@ == match kind {
            ProviderKind::Code => "No code provider configured"@,
            ProviderKind::Issue => "No issue provider configured"@,
            ProviderKind::Doc => "No doc provider configured"@,
        },
{
    WorkspaceError::Config(
        owned(
            match kind {
                ProviderKind::Code => "No code provider configured",
                ProviderKind::Issue => "No issue provider configured",
                ProviderKind::Doc => "No doc provider configured",
            },
        ),
    )
}

pub struct ProviderIssueGetInput {
    pub key: String,
}

pub struct ProviderIssueCommentInput {
    pub key: String,
    pub body: String,
}

pub struct ProviderDocGetPageInput {
    pub space: String,
    pub title: String,
}

pub struct ProviderDocGetPageOutput {
    pub content: String,
}

pub struct ProviderDocCreatePageInput {
    pub space: String,
    pub title: String,
    pub body: String,
}

pub struct ProviderDocCreatePageOutput {
    pub page_id: String,
}

pub struct ProviderDocUpdatePageInput {
    pub page_id: String,
    pub title: String,
    pub body: String,
}

pub struct ProviderConfigGetInstructionsInput {
    pub provider_id: String,
}

pub struct ProviderConfigGetInstructionsOutput {
    pub provider_id: String,
    pub instructions: Option<String>,
}

pub struct ProviderConfigSyncInstructionsInput {}

pub struct ProviderConfigSyncInstructionsOutput {
    pub success: bool,
    pub message: String,
    pub path: String,
}

pub struct PrCreateInput {
    pub workspace_id: String,
    pub services: Vec<String>,
    pub title: String,
    pub body: String,
    pub draft: bool,
}

pub struct PrCreateOutput {
    pub workspace_id: String,
    /// Service id to pull request URL.
    pub prs: Vec<(String, String)>,
}

/// The replies of the commands that only report success.
pub enum DoneMessage {
    IssuesLinked,
    CommentAdded,
    PageUpdated,
}

pub fn done_status(which: DoneMessage) -> (out: crate::lifecycle::StatusOutput)
    ensures
        out.success,
        out.message@ == match which {
            DoneMessage::IssuesLinked => "Issues linked successfully."@,
            DoneMessage::CommentAdded => "Comment added successfully."@,
            DoneMessage::PageUpdated => "Documentation page updated successfully."@,
        },
{
    crate::lifecycle::StatusOutput {
        success: true,
        message: owned(
            match which {
                DoneMessage::IssuesLinked => "Issues linked successfully.",
                DoneMessage::CommentAdded => "Comment added successfully.",
                DoneMessage::PageUpdated => "Documentation page updated successfully.",
            },
        ),
    }
}

// ==========================================
// provider.config.get_instructions
// ==========================================

/// Where a provider's instructions may live, in lookup order:
/// `config/providers/<id>.md`, then `.ws/providers/<id>.md`.
pub fn instruction_paths(root: &str, provider_id: &str) -> (v: Vec<String>)
    ensures
        views(v@) == seq![
            path_join(path_join(path_join(root@, "config"@), "providers"@), provider_id@ + ".md"@),
            path_join(path_join(path_join(root@, ".ws"@), "providers"@), provider_id@ + ".md"@),
        ],
{
    let mut file = owned(provider_id);
    push_str(&mut file, ".md");
    let a = join_path(root, "config");
    let a2 = join_path(a.as_str(), "providers");
    let b = join_path(root, ".ws");
    let b2 = join_path(b.as_str(), "providers");
    let v = vec![join_path(a2.as_str(), file.as_str()), join_path(b2.as_str(), file.as_str())];
    assert(views(v@) =~= seq![
        path_join(path_join(path_join(root@, "config"@), "providers"@), provider_id@ + ".md"@),
        path_join(path_join(path_join(root@, ".ws"@), "providers"@), provider_id@ + ".md"@),
    ]);
    v
}

// ==========================================
// provider.config.sync_instructions
// ==========================================

/// The lines of a text as `str::lines` yields them: split at `\n`, a `\r`
/// right before the `\n` dropped, no empty last line after a final `\n`.
pub open spec fn text_lines(s: Seq<char>) -> Seq<Seq<char>>
    decreases s.len(),
{
    if s.len() == 0 {
        Seq::empty()
    } else {
        let l = before_char(s, '\n');
        if l.len() >= s.len() {
            seq![s]
        } else {
            let line = if l.len() > 0 && l.last() == '\r' { l.drop_last() } else { l };
            seq![line] + text_lines(s.skip(l.len() + 1 as int))
        }
    }
}

pub open spec fn begins_block(line: Seq<char>) -> bool {
    crate::text::starts_with(trim_start(line), "<!-- BEGIN"@)
}

pub open spec fn ends_block(line: Seq<char>) -> bool {
    crate::text::starts_with(trim_start(line), "<!-- END"@)
}

/// Scanning lines: the block being collected, if any, and the finished blocks.
pub open spec fn scan_blocks(lines: Seq<Seq<char>>) -> (Option<Seq<char>>, Seq<Seq<char>>)
    decreases lines.len(),
{
    if lines.len() == 0 {
        (None, Seq::empty())
    } else {
        let (cur0, done) = scan_blocks(lines.drop_last());
        let line = lines.last();
        let cur1 = if begins_block(line) { Some(Seq::<char>::empty()) } else { cur0 };
        let cur2 = match cur1 {
            Some(b) => Some(b + line + "\n"@),
            None => None,
        };
        if ends_block(line) {
            match cur2 {
                Some(b) => (None, done.push(b)),
                None => (None, done),
            }
        } else {
            (cur2, done)
        }
    }
}

/// The `<!-- BEGIN ... -->` ... `<!-- END ... -->` blocks of a text, each
/// verbatim with its lines, joined by blank lines.
pub open spec fn integration_blocks(text: Seq<char>) -> Seq<char> {
    joined(scan_blocks(text_lines(text)).1, "\n"@)
}

proof fn lemma_before_char_len(s: Seq<char>, c: char)
    ensures
        before_char(s, c).len() <= s.len(),
        before_char(s, c) == s.take(before_char(s, c).len() as int),
        before_char(s, c).len() < s.len() ==> s[before_char(s, c).len() as int] == c,
        forall|k: int| 0 <= k < before_char(s, c).len() ==> s[k] != c,
    decreases s.len(),
{
    if s.len() > 0 && s[0] != c {
        lemma_before_char_len(s.drop_first(), c);
        let r = before_char(s.drop_first(), c);
        assert(before_char(s, c) =~= seq![s[0]] + r);
        assert(s.take(r.len() + 1 as int) =~= seq![s[0]] + s.drop_first().take(r.len() as int));
        assert forall|k: int| 0 <= k < before_char(s, c).len() implies s[k] != c by {
            if k > 0 {
                assert(s[k] == s.drop_first()[k - 1]);
            }
        }
    } else if s.len() > 0 {
        assert(s.take(0) =~= Seq::<char>::empty());
    }
}

fn starts_trimmed(line: &Vec<char>, prefix: &str) -> (res: bool)
    ensures
        res == crate::text::starts_with(trim_start(line@), prefix@),
{
    let mut a: usize = 0;
    assert(line@.skip(0) =~= line@);
    while a < line.len() && char_is_whitespace(line[a])
        invariant
            a <= line.len(),
            trim_start(line@) == trim_start(line@.skip(a as int)),
        decreases line.len() - a,
    {
        assert(line@.skip(a as int).drop_first() =~= line@.skip(a + 1));
        a += 1;
    }
    assert(trim_start(line@.skip(a as int)) == line@.skip(a as int));
    let rest = slice_chars(line, a, line.len());
    assert(rest@ =~= line@.skip(a as int));
    let p = str_chars(prefix);
    crate::text::chars_starts_with(&rest, &p)
}

/// The lines of a text (`str::lines`).
pub fn split_lines(content: &str) -> (lines: Vec<String>)
    ensures
        views(lines@) == text_lines(content@),
{
    let s = str_chars(content);
    let mut lines: Vec<String> = Vec::new();
    let mut i: usize = 0;
    assert(s@.skip(0) =~= s@);
    assert(views(lines@) =~= Seq::<Seq<char>>::empty());
    while i < s.len()
        invariant
            s@ == content@,
            i <= s.len(),
            text_lines(content@) == views(lines@) + text_lines(s@.skip(i as int)),
        decreases s.len() - i,
    {
        let ghost rest = s@.skip(i as int);
        proof {
            lemma_before_char_len(rest, '\n');
        }
        let mut e = i;
        while e < s.len() && s[e] != '\n'
            invariant
                i <= e <= s.len(),
                rest == s@.skip(i as int),
                before_char(rest, '\n').len() <= rest.len(),
                before_char(rest, '\n').len() < rest.len() ==> rest[before_char(rest, '\n').len() as int] == '\n',
                forall|k: int| 0 <= k < before_char(rest, '\n').len() ==> rest[k] != '\n',
                e - i <= before_char(rest, '\n').len(),
            decreases s.len() - e,
        {
            assert(rest[e - i] == s@[e as int]);
            e += 1;
        }
        proof {
            if e < s.len() {
                assert(rest[e - i] == s@[e as int]);
            }
            if e - i < before_char(rest, '\n').len() {
                assert(rest[e - i] == s@[e as int]);
            }
        }
        assert(e - i == before_char(rest, '\n').len());
        let mut end = e;
        if e < s.len() && end > i && s[end - 1] == '\r' {
            end -= 1;
        }
        let line = slice_chars(&s, i, end);
        let ghost l = before_char(rest, '\n');
        assert(l =~= s@.subrange(i as int, e as int));
        let ghost before = views(lines@);
        lines.push(chars_string(&line));
        assert(views(lines@) =~= before.push(line@));
        if e < s.len() {
            assert(line@ == (if l.len() > 0 && l.last() == '\r' { l.drop_last() } else { l }));
            assert(rest.skip(l.len() + 1 as int) =~= s@.skip(e + 1));
            i = e + 1;
            assert(text_lines(rest) =~= seq![line@] + text_lines(s@.skip(i as int)));
        } else {
            assert(line@ =~= rest);
            i = s.len();
            assert(text_lines(rest) =~= seq![line@]);
            assert(s@.skip(i as int) =~= Seq::<char>::empty());
        }
    }
    assert(s@.skip(i as int) =~= Seq::<char>::empty());
    lines
}

/// The integration blocks of the current `AGENTS.md`, to be carried over
/// when it is regenerated.
pub fn extract_integration_blocks(content: &str) -> (out: String)
    ensures
        out@ == integration_blocks(content@),
{
    let lines = split_lines(content);
    let ghost all = views(lines@);
    let mut blocks: Vec<String> = Vec::new();
    let mut current: Option<String> = None;
    let mut i: usize = 0;
    while i < lines.len()
        invariant
            all == views(lines@),
            all == text_lines(content@),
            i <= lines.len(),
            scan_blocks(all.take(i as int)) == (
                match current {
                    Some(b) => Some(b@),
                    None => None::<Seq<char>>,
                },
                views(blocks@),
            ),
        decreases lines.len() - i,
    {
        let line = &lines[i];
        let lv = str_chars(line.as_str());
        assert(all.take(i + 1).drop_last() =~= all.take(i as int));
        assert(all.take(i + 1).last() == line@);
        if starts_trimmed(&lv, "<!-- BEGIN") {
            current = Some(String::new());
        }
        match current {
            Some(b) => {
                let mut b2 = b;
                push_str(&mut b2, line.as_str());
                push_str(&mut b2, "\n");
                current = Some(b2);
            },
            None => {},
        }
        if starts_trimmed(&lv, "<!-- END") {
            match current {
                Some(b) => {
                    let ghost before = views(blocks@);
                    blocks.push(b);
                    assert(views(blocks@) =~= before.push(b@));
                    current = None;
                },
                None => {},
            }
        }
        i += 1;
    }
    assert(all.take(lines.len() as int) =~= all);
    crate::text::join_strings(&blocks, "\n")
}

// ==========================================
// The company AGENTS.md
// ==========================================

/// The rules, core and workflow, up to the workflow list.
pub open spec fn agents_head() -> Seq<char> {
    "# AI Workspace Rules for Autonomous Coding Agents\n\nWelcome Agent! This document defines your behavioral boundaries, rules, and guidelines when working in this multi-repo workspace. **This file is ws-managed** — regenerate it with `ws ai run provider.config.sync_instructions --input '{}'`. Do not hand-edit the ws-managed sections; append custom integration blocks between dedicated BEGIN/END markers instead.\n\n## Core Rules\n\n1. **Use the JSON API:** Always prefer running commands via the `ws ai run <command_id> --input <file>` interface rather than executing manual git or file operations, unless specifically instructed. This ensures workspace lockfiles (`locks.yaml`) and workspace configs (`workspace.yaml`) remain in sync.\n2. **Grow the Catalog Incrementally:** Do not edit global catalog configurations. If you introduce or work with a new service or repository, create a separate YAML file for it under `catalog/services/<repo-name>.yaml`.\n3. **Keep Workspaces Disposable:** Local epic workspaces created under `workspaces/` are temporary, generated environments. Do not store permanent configuration, logs, or uncommitted work outside of git repositories or the `.ws` config directory.\n4. **Preserve Baseline Commits:** Always reference `baseline_commit` inside `locks.yaml` when analyzing changes or creating pull requests.\n5. **Always Validate:** Before committing new catalogs, run `ws ai run catalog.validate --input '{}'` to ensure parsing schemas are fully respected.\n\n## Workflow Rules\n\nRefer to the workflows documented under `workflows/` for step-by-step processes:\n"@
}

/// The repo-init healthcheck section and the catalog snapshot heading.
pub open spec fn agents_middle() -> Seq<char> {
    "## Repo-Init Healthcheck (ws / harness / customer split)\n\nWhen a repo is initialized/added to the catalog, the harness works it through the locked 10-point checklist in [workflows/repo-init.md](workflows/repo-init.md). The split is invariant:\n\n- **`ws`** = the deterministic oracle: reads (`repo.healthcheck`), executes a single command (`repo.run`), emits specs (`repo.fix_loop.prompt`), validates writes (`catalog.service.update`, strict). **Never fixes, never judges, never owns an LLM.**\n- **Customer's harness** = the agent. Runs setup, picks the harness+provider for #1, performs the 2-subagent fix-loop ([workflows/repo-verify.md](workflows/repo-verify.md)), authors `verify_run`/`agent_verify` scripts, calls `catalog.service.update`.\n- **Customer (human)** = fills gaps the harness can't (probe-script content, deploy envs in [workflows/deploy.md](workflows/deploy.md), decides integration-test applicability).\n\nRelevant `ws ai run` commands: `repo.healthcheck`, `repo.run`, `repo.verify`, `repo.fix_loop.prompt`, `repo.understand.verify`, `catalog.service.update`. Run `ws ai manifest` for the full list and `ws ai schema <command> input` for input shapes.\n\n## Catalog Snapshot\n\n"@
}

/// The product knowledge base section (the end of the file).
pub open spec fn agents_tail() -> Seq<char> {
    "## Product Knowledge Base\n\nThe company product side maintains an LLM-maintained wiki under `catalog/knowledge/`, following the [LLM Wiki pattern](https://gist.github.com/karpathy/442a6bf555914893e9891c11519de94f). It is a persistent, compounding artifact: source documents are compiled once into interlinked markdown and kept current over time.\n\n- **Read `catalog/knowledge/SCHEMA.md` before maintaining the wiki** — it is the authoritative contract for structure, conventions, and the ingest/query/update/lint operations.\n- **Raw sources** go in `catalog/knowledge/raw/` (the human drops files here; it is gitignored and never modified by the agent). External Document sources are also supported — by default **Confluence** (see `config/providers/confluence.md` and each product's `knowledge_sources`).\n- **The wiki** (`catalog/knowledge/wiki/`) is agent-owned, version-controlled markdown (`index.md` + `log.md` + topic/entity/source/synthesis pages).\n- When brainstorming an idea, use the wiki as the primary context layer. If a new, unconfirmed fact surfaces, **ask the user to confirm it and provide a source before integrating it** — never inject unconfirmed facts as if they were sourced.\n- This covers the **product side only**. Do not restructure `catalog/teams/` or `catalog/services/` or mirror their content into this wiki."@
}

pub open spec fn workflow_lines(stems: Seq<Seq<char>>) -> Seq<char>
    decreases stems.len(),
{
    if stems.len() == 0 {
        Seq::empty()
    } else {
        workflow_lines(stems.drop_last()) + "  - [workflows/"@ + stems.last() + ".md](workflows/"@
            + stems.last() + ".md)\n"@
    }
}

/// The ws-managed company `AGENTS.md`: the rules, a link per workflow (the
/// workflow stems in ascending order), the healthcheck split, the number of
/// catalog services, products and teams, and the knowledge base section.
pub open spec fn agents_text(stems: Seq<Seq<char>>, services: nat, products: nat, teams: nat) -> Seq<char> {
    agents_head() + workflow_lines(stems) + "\n"@ + agents_middle() + "- Services: "@ + decimal_text(
        services,
    ) + " registered under `catalog/services/`\n"@ + "- Products: "@ + decimal_text(products)
        + " registered under `catalog/products/`\n"@ + "- Teams: "@ + decimal_text(teams)
        + " registered under `catalog/teams/`\n"@ + "\n"@ + agents_tail()
}

/// The stem of a workflow file's name, when it is a Markdown file.
pub open spec fn md_stem(path: Seq<char>) -> Option<Seq<char>> {
    let name = crate::lint::after_last(path, '/');
    match crate::catalog::extension_of(path) {
        Some(e) => if e == "md"@ {
            Some(name.take(name.len() - 3))
        } else {
            None
        },
        None => None,
    }
}

/// The workflow a file of `workflows/` describes, when it is a `.md` file.
pub fn workflow_stem(name: &str) -> (res: Option<String>)
    ensures
        match res {
            Some(s) => md_stem(name@) == Some(s@),
            None => md_stem(name@) is None,
        },
{
    let v = str_chars(name);
    let base = crate::lint::after_last_char(&v, '/');
    let ext = crate::lint::after_last_char(&base, '.');
    if ext.len() == base.len() || (base.len() > 0 && ext.len() == base.len() - 1) {
        return None;
    }
    let e = chars_string(&ext);
    if !crate::text::str_eq(e.as_str(), "md") {
        return None;
    }
    proof {
        reveal_strlit("md");
    }
    assert(base@.len() >= 3) by {
        crate::lint::lemma_after_last_len(base@, '.');
    }
    let stem = slice_chars(&base, 0, base.len() - 3);
    assert(stem@ =~= base@.take(base@.len() - 3));
    Some(chars_string(&stem))
}

/// Number of YAML files among directory entry names.
pub open spec fn yaml_count(names: Seq<Seq<char>>) -> nat
    decreases names.len(),
{
    if names.len() == 0 {
        0
    } else {
        yaml_count(names.drop_last()) + if crate::catalog::is_yaml_path(names.last()) {
            1nat
        } else {
            0nat
        }
    }
}

pub fn count_yaml(names: &Vec<String>) -> (n: usize)
    ensures
        n == yaml_count(views(names@)),
{
    let mut n: usize = 0;
    let mut k: usize = 0;
    while k < names.len()
        invariant
            k <= names.len(),
            n <= k,
            n == yaml_count(views(names@).take(k as int)),
        decreases names.len() - k,
    {
        assert(views(names@).take(k + 1).drop_last() =~= views(names@).take(k as int));
        if crate::catalog::has_yaml_extension(names[k].as_str()) {
            n += 1;
        }
        k += 1;
    }
    assert(views(names@).take(names.len() as int) =~= views(names@));
    n
}

/// Generates the company `AGENTS.md` from the `workflows/` stems and the
/// catalog counts.
pub fn generate_company_agents_md(workflows: &Vec<String>, services: u64, products: u64, teams: u64) -> (s:
    String)
    ensures
        exists|sorted: Seq<Seq<char>>|
            strictly_sorted(sorted) && (forall|x: Seq<char>| #[trigger] sorted.contains(x)
                <==> views(workflows@).contains(x)) && s@ == agents_text(
                sorted,
                services as nat,
                products as nat,
                teams as nat,
            ),
{
    let stems = sorted_unique(workflows);
    let mut s = owned("# AI Workspace Rules for Autonomous Coding Agents\n\nWelcome Agent! This document defines your behavioral boundaries, rules, and guidelines when working in this multi-repo workspace. **This file is ws-managed** — regenerate it with `ws ai run provider.config.sync_instructions --input '{}'`. Do not hand-edit the ws-managed sections; append custom integration blocks between dedicated BEGIN/END markers instead.\n\n## Core Rules\n\n1. **Use the JSON API:** Always prefer running commands via the `ws ai run <command_id> --input <file>` interface rather than executing manual git or file operations, unless specifically instructed. This ensures workspace lockfiles (`locks.yaml`) and workspace configs (`workspace.yaml`) remain in sync.\n2. **Grow the Catalog Incrementally:** Do not edit global catalog configurations. If you introduce or work with a new service or repository, create a separate YAML file for it under `catalog/services/<repo-name>.yaml`.\n3. **Keep Workspaces Disposable:** Local epic workspaces created under `workspaces/` are temporary, generated environments. Do not store permanent configuration, logs, or uncommitted work outside of git repositories or the `.ws` config directory.\n4. **Preserve Baseline Commits:** Always reference `baseline_commit` inside `locks.yaml` when analyzing changes or creating pull requests.\n5. **Always Validate:** Before committing new catalogs, run `ws ai run catalog.validate --input '{}'` to ensure parsing schemas are fully respected.\n\n## Workflow Rules\n\nRefer to the workflows documented under `workflows/` for step-by-step processes:\n");
    let ghost start = s@;
    let mut k: usize = 0;
    while k < stems.len()
        invariant
            k <= stems.len(),
            s@ == start + workflow_lines(views(stems@).take(k as int)),
        decreases stems.len() - k,
    {
        push_str(&mut s, "  - [workflows/");
        push_str(&mut s, stems[k].as_str());
        push_str(&mut s, ".md](workflows/");
        push_str(&mut s, stems[k].as_str());
        push_str(&mut s, ".md)\n");
        assert(views(stems@).take(k + 1).drop_last() =~= views(stems@).take(k as int));
        k += 1;
    }
    assert(views(stems@).take(stems.len() as int) =~= views(stems@));
    push_str(&mut s, "\n");
    push_str(&mut s, "## Repo-Init Healthcheck (ws / harness / customer split)\n\nWhen a repo is initialized/added to the catalog, the harness works it through the locked 10-point checklist in [workflows/repo-init.md](workflows/repo-init.md). The split is invariant:\n\n- **`ws`** = the deterministic oracle: reads (`repo.healthcheck`), executes a single command (`repo.run`), emits specs (`repo.fix_loop.prompt`), validates writes (`catalog.service.update`, strict). **Never fixes, never judges, never owns an LLM.**\n- **Customer's harness** = the agent. Runs setup, picks the harness+provider for #1, performs the 2-subagent fix-loop ([workflows/repo-verify.md](workflows/repo-verify.md)), authors `verify_run`/`agent_verify` scripts, calls `catalog.service.update`.\n- **Customer (human)** = fills gaps the harness can't (probe-script content, deploy envs in [workflows/deploy.md](workflows/deploy.md), decides integration-test applicability).\n\nRelevant `ws ai run` commands: `repo.healthcheck`, `repo.run`, `repo.verify`, `repo.fix_loop.prompt`, `repo.understand.verify`, `catalog.service.update`. Run `ws ai manifest` for the full list and `ws ai schema <command> input` for input shapes.\n\n## Catalog Snapshot\n\n");
    push_str(&mut s, "- Services: ");
    push_str(&mut s, u64_text(services).as_str());
    push_str(&mut s, " registered under `catalog/services/`\n");
    push_str(&mut s, "- Products: ");
    push_str(&mut s, u64_text(products).as_str());
    push_str(&mut s, " registered under `catalog/products/`\n");
    push_str(&mut s, "- Teams: ");
    push_str(&mut s, u64_text(teams).as_str());
    push_str(&mut s, " registered under `catalog/teams/`\n");
    push_str(&mut s, "\n");
    push_str(&mut s, "## Product Knowledge Base\n\nThe company product side maintains an LLM-maintained wiki under `catalog/knowledge/`, following the [LLM Wiki pattern](https://gist.github.com/karpathy/442a6bf555914893e9891c11519de94f). It is a persistent, compounding artifact: source documents are compiled once into interlinked markdown and kept current over time.\n\n- **Read `catalog/knowledge/SCHEMA.md` before maintaining the wiki** — it is the authoritative contract for structure, conventions, and the ingest/query/update/lint operations.\n- **Raw sources** go in `catalog/knowledge/raw/` (the human drops files here; it is gitignored and never modified by the agent). External Document sources are also supported — by default **Confluence** (see `config/providers/confluence.md` and each product's `knowledge_sources`).\n- **The wiki** (`catalog/knowledge/wiki/`) is agent-owned, version-controlled markdown (`index.md` + `log.md` + topic/entity/source/synthesis pages).\n- When brainstorming an idea, use the wiki as the primary context layer. If a new, unconfirmed fact surfaces, **ask the user to confirm it and provide a source before integrating it** — never inject unconfirmed facts as if they were sourced.\n- This covers the **product side only**. Do not restructure `catalog/teams/` or `catalog/services/` or mirror their content into this wiki.");
    s
}

/// The regenerated file: the generated body, then the preserved
/// integration blocks (when there is more than whitespace) after a blank
/// line, ending with a newline.
pub open spec fn synced_text(body: Seq<char>, preserved: Seq<char>) -> Seq<char> {
    if trim(preserved).len() == 0 {
        body
    } else {
        body + "\n\n"@ + preserved + if preserved.len() > 0 && preserved.last() == '\n' {
            Seq::empty()
        } else {
            "\n"@
        }
    }
}

pub fn synced_agents_md(body: String, preserved: &str) -> (out: String)
    ensures
        out@ == synced_text(body@, preserved@),
{
    let mut content = body;
    if str_trim(preserved).len() > 0 {
        push_str(&mut content, "\n\n");
        push_str(&mut content, preserved);
        let p = str_chars(preserved);
        if !(p.len() > 0 && p[p.len() - 1] == '\n') {
            push_str(&mut content, "\n");
        } else {
            assert(content@ =~= content@ + Seq::<char>::empty());
        }
    }
    content
}

// ---- Regenerating keeps the integration blocks ----

proof fn lemma_before_char_concat(a: Seq<char>, b: Seq<char>, c: char, k: int)
    requires
        0 <= k < a.len(),
        a[k] == c,
    ensures
        before_char(a + b, c) == before_char(a, c),
    decreases a.len(),
{
    assert((a + b)[0] == a[0]);
    if a[0] != c {
        assert((a + b).drop_first() =~= a.drop_first() + b);
        lemma_before_char_concat(a.drop_first(), b, c, k - 1);
    }
}

/// Lines of a text that ends with a newline, followed by more text.
proof fn lemma_text_lines_concat(a: Seq<char>, b: Seq<char>)
    requires
        a.len() > 0,
        a.last() == '\n',
    ensures
        text_lines(a + b) == text_lines(a) + text_lines(b),
    decreases a.len(),
{
    let s = a + b;
    lemma_before_char_concat(a, b, '\n', a.len() - 1);
    lemma_before_char_len(a, '\n');
    let l = before_char(a, '\n');
    if l.len() == a.len() {
        assert(a[a.len() - 1] != '\n');
    }
    assert(l.len() < a.len());
    let rest = a.skip(l.len() + 1 as int);
    assert(s.skip(l.len() + 1 as int) =~= rest + b);
    if rest.len() == 0 {
        assert(rest + b =~= b);
        assert(text_lines(rest) =~= Seq::<Seq<char>>::empty());
    } else {
        assert(rest.last() == a.last());
        lemma_text_lines_concat(rest, b);
    }
    let line = if l.len() > 0 && l.last() == '\r' { l.drop_last() } else { l };
    assert(text_lines(s) == seq![line] + text_lines(rest + b));
    assert(text_lines(a) == seq![line] + text_lines(rest));
    assert(seq![line] + (text_lines(rest) + text_lines(b)) =~= seq![line] + text_lines(rest)
        + text_lines(b));
}

/// A line as a block keeps it: no newline in it, no carriage return at its end.
pub open spec fn plain_line(l: Seq<char>) -> bool {
    &&& forall|i: int| 0 <= i < l.len() ==> #[trigger] l[i] != '\n'
    &&& !(l.len() > 0 && l.last() == '\r')
}

proof fn lemma_single_line(x: Seq<char>)
    requires
        plain_line(x),
    ensures
        text_lines(x + "\n"@) == seq![x],
{
    reveal_strlit("\n");
    let s = x + "\n"@;
    lemma_before_char_len(s, '\n');
    let l = before_char(s, '\n');
    if l.len() < x.len() {
        assert(s[l.len() as int] == x[l.len() as int]);
    }
    if l.len() > x.len() {
        assert(s[x.len() as int] == '\n');
    }
    assert(l =~= x);
    assert(s.skip(x.len() + 1 as int) =~= Seq::<char>::empty());
    assert(text_lines(Seq::<char>::empty()) =~= Seq::<Seq<char>>::empty());
    assert(seq![x] + Seq::<Seq<char>>::empty() =~= seq![x]);
}

/// The lines of a text hold no newline.
proof fn lemma_text_lines_no_newline(s: Seq<char>)
    ensures
        forall|i: int, k: int|
            0 <= i < text_lines(s).len() && 0 <= k < text_lines(s)[i].len() ==> #[trigger] text_lines(
                s,
            )[i][k] != '\n',
    decreases s.len(),
{
    if s.len() > 0 {
        lemma_before_char_len(s, '\n');
        let l = before_char(s, '\n');
        if l.len() < s.len() {
            lemma_text_lines_no_newline(s.skip(l.len() + 1 as int));
            let line = if l.len() > 0 && l.last() == '\r' { l.drop_last() } else { l };
            let rest = text_lines(s.skip(l.len() + 1 as int));
            assert forall|i: int, k: int|
                0 <= i < text_lines(s).len() && 0 <= k < text_lines(s)[i].len() implies #[trigger] text_lines(
                s,
            )[i][k] != '\n' by {
                if i == 0 {
                    assert(text_lines(s)[0] == line);
                    assert(line[k] == l[k]);
                    assert(l[k] == s[k]);
                } else {
                    assert(text_lines(s)[i] == rest[i - 1]);
                }
            }
        } else {
            assert(l =~= s);
        }
    }
}

/// A line that begins a block never ends one.
proof fn lemma_begin_not_end(l: Seq<char>)
    requires
        begins_block(l),
    ensures
        !ends_block(l),
{
    reveal_strlit("<!-- BEGIN");
    reveal_strlit("<!-- END");
    let x = trim_start(l);
    if ends_block(l) {
        assert(x.take(10)[5] == x[5]);
        assert(x.take(8)[5] == x[5]);
        assert("<!-- BEGIN"@[5] != "<!-- END"@[5]);
    }
}

/// Scanning on from a line that begins a block: what came before only
/// contributes its finished blocks.
proof fn lemma_scan_from_begin(l1: Seq<Seq<char>>, l2: Seq<Seq<char>>)
    requires
        l2.len() > 0,
        begins_block(l2[0]),
    ensures
        scan_blocks(l1 + l2) == (scan_blocks(l2).0, scan_blocks(l1).1 + scan_blocks(l2).1),
    decreases l2.len(),
{
    let s = l1 + l2;
    assert(s.last() == l2.last());
    if l2.len() == 1 {
        assert(s.drop_last() =~= l1);
        assert(l2.drop_last() =~= Seq::<Seq<char>>::empty());
        assert(scan_blocks(l1).1 + Seq::<Seq<char>>::empty() =~= scan_blocks(l1).1);
        let b = l2[0] + "\n"@;
        assert(scan_blocks(l1).1 + seq![b] =~= scan_blocks(l1).1.push(b));
        assert(Seq::<Seq<char>>::empty().push(b) =~= seq![b]);
    } else {
        assert(s.drop_last() =~= l1 + l2.drop_last());
        lemma_scan_from_begin(l1, l2.drop_last());
        let d1 = scan_blocks(l1).1;
        let d2 = scan_blocks(l2.drop_last()).1;
        let c = scan_blocks(l2.drop_last()).0;
        assert(scan_blocks(s.drop_last()) == (c, d1 + d2));
        let line = l2.last();
        let cur1 = if begins_block(line) { Some(Seq::<char>::empty()) } else { c };
        let cur2 = match cur1 {
            Some(b) => Some(b + line + "\n"@),
            None => None,
        };
        if ends_block(line) {
            match cur2 {
                Some(b) => {
                    assert((d1 + d2).push(b) =~= d1 + d2.push(b));
                },
                None => {},
            }
        }
    }
}

/// An empty line finishes no block.
proof fn lemma_scan_blank(ls: Seq<Seq<char>>)
    ensures
        scan_blocks(ls.push(Seq::empty())).1 == scan_blocks(ls).1,
{
    reveal_strlit("<!-- END");
    reveal_strlit("<!-- BEGIN");
    assert(ls.push(Seq::empty()).drop_last() =~= ls);
    assert(trim_start(Seq::<char>::empty()) == Seq::<char>::empty());
    assert(!ends_block(Seq::<char>::empty()));
}

/// The text a block keeps: each of its lines followed by a newline.
pub open spec fn block_text(ls: Seq<Seq<char>>) -> Seq<char>
    decreases ls.len(),
{
    if ls.len() == 0 {
        Seq::empty()
    } else {
        block_text(ls.drop_last()) + ls.last() + "\n"@
    }
}

/// The lines of one block: it begins with a `BEGIN` line, ends with an `END`
/// line, and no line between does either.
pub open spec fn block_shape(ls: Seq<Seq<char>>) -> bool {
    &&& ls.len() > 0
    &&& begins_block(ls[0])
    &&& ends_block(ls.last())
    &&& forall|i: int| 0 < i < ls.len() - 1 ==> !begins_block(#[trigger] ls[i]) && !ends_block(ls[i])
}

proof fn lemma_block_text_lines(ls: Seq<Seq<char>>)
    requires
        forall|i: int| 0 <= i < ls.len() ==> plain_line(#[trigger] ls[i]),
    ensures
        text_lines(block_text(ls)) == ls,
        ls.len() > 0 ==> block_text(ls).len() > 0 && block_text(ls).last() == '\n',
    decreases ls.len(),
{
    reveal_strlit("\n");
    if ls.len() > 0 {
        let prev = ls.drop_last();
        lemma_block_text_lines(prev);
        lemma_single_line(ls.last());
        let tail = ls.last() + "\n"@;
        assert(block_text(ls) =~= block_text(prev) + tail);
        if prev.len() == 0 {
            assert(block_text(prev) =~= Seq::<char>::empty());
            assert(block_text(ls) =~= tail);
            assert(ls =~= seq![ls.last()]);
        } else {
            lemma_text_lines_concat(block_text(prev), tail);
            assert(ls =~= prev + seq![ls.last()]);
        }
    } else {
        assert(text_lines(Seq::<char>::empty()) =~= Seq::<Seq<char>>::empty());
    }
}

proof fn lemma_scan_block_prefix(ls: Seq<Seq<char>>, k: int)
    requires
        block_shape(ls),
        1 <= k < ls.len(),
    ensures
        scan_blocks(ls.take(k)) == (Some(block_text(ls.take(k))), Seq::<Seq<char>>::empty()),
    decreases k,
{
    let p = ls.take(k);
    assert(p.last() == ls[k - 1]);
    assert(p.drop_last() =~= ls.take(k - 1));
    if k == 1 {
        lemma_begin_not_end(ls[0]);
        assert(ls.take(0) =~= Seq::<Seq<char>>::empty());
        assert(block_text(ls.take(0)) =~= Seq::<char>::empty());
        assert(Seq::<char>::empty() + ls[0] + "\n"@ =~= block_text(p));
        assert(scan_blocks(p.drop_last()) == (None::<Seq<char>>, Seq::<Seq<char>>::empty()));
        assert(begins_block(p.last()));
        assert(!ends_block(p.last()));
        assert(scan_blocks(p).1 == Seq::<Seq<char>>::empty());
        assert(scan_blocks(p).0 == Some(block_text(p)));
    } else {
        lemma_scan_block_prefix(ls, k - 1);
        assert(!begins_block(ls[k - 1]) && !ends_block(ls[k - 1]));
        assert(block_text(p) == block_text(ls.take(k - 1)) + ls[k - 1] + "\n"@);
    }
}

/// Scanning the lines of one block finds exactly that block.
proof fn lemma_scan_block(ls: Seq<Seq<char>>)
    requires
        block_shape(ls),
    ensures
        scan_blocks(ls) == (None::<Seq<char>>, seq![block_text(ls)]),
{
    let n = ls.len() as int;
    if n == 1 {
        lemma_begin_not_end(ls[0]);
    }
    assert(n >= 2);
    lemma_scan_block_prefix(ls, n - 1);
    assert(ls.drop_last() =~= ls.take(n - 1));
    if begins_block(ls.last()) {
        lemma_begin_not_end(ls.last());
    }
    assert(Seq::<Seq<char>>::empty().push(block_text(ls)) =~= seq![block_text(ls)]);
}

/// The scan of [`scan_blocks`], keeping each block as its lines.
pub open spec fn scan_groups(lines: Seq<Seq<char>>) -> (Option<Seq<Seq<char>>>, Seq<Seq<Seq<char>>>)
    decreases lines.len(),
{
    if lines.len() == 0 {
        (None, Seq::empty())
    } else {
        let (cur0, done) = scan_groups(lines.drop_last());
        let line = lines.last();
        let cur1 = if begins_block(line) { Some(Seq::<Seq<char>>::empty()) } else { cur0 };
        let cur2 = match cur1 {
            Some(g) => Some(g.push(line)),
            None => None,
        };
        if ends_block(line) {
            match cur2 {
                Some(g) => (None, done.push(g)),
                None => (None, done),
            }
        } else {
            (cur2, done)
        }
    }
}

/// A block still open: it began with a `BEGIN` line and no later line
/// began or ended one.
pub open spec fn open_shape(g: Seq<Seq<char>>) -> bool {
    &&& g.len() > 0
    &&& begins_block(g[0])
    &&& !ends_block(g[0])
    &&& forall|i: int| 0 < i < g.len() ==> !begins_block(#[trigger] g[i]) && !ends_block(g[i])
}

pub open spec fn block_texts(gs: Seq<Seq<Seq<char>>>) -> Seq<Seq<char>> {
    gs.map_values(|g: Seq<Seq<char>>| block_text(g))
}

/// No line holds a newline.
pub open spec fn newline_free(ls: Seq<Seq<char>>) -> bool {
    forall|i: int, k: int| 0 <= i < ls.len() && 0 <= k < ls[i].len() ==> #[trigger] ls[i][k] != '\n'
}

proof fn lemma_scan_groups(lines: Seq<Seq<char>>)
    requires
        newline_free(lines),
    ensures
        scan_blocks(lines).1 == block_texts(scan_groups(lines).1),
        scan_blocks(lines).0 == (match scan_groups(lines).0 {
            Some(g) => Some(block_text(g)),
            None => None::<Seq<char>>,
        }),
        scan_groups(lines).0 matches Some(g) ==> open_shape(g) && newline_free(g),
        forall|j: int| 0 <= j < scan_groups(lines).1.len() ==> block_shape(
            #[trigger] scan_groups(lines).1[j],
        ) && newline_free(scan_groups(lines).1[j]),
    decreases lines.len(),
{
    if lines.len() > 0 {
        let prev = lines.drop_last();
        assert forall|i: int, k: int| 0 <= i < prev.len() && 0 <= k < prev[i].len() implies #[trigger] prev[i][k]
            != '\n' by {
            assert(prev[i] == lines[i]);
        }
        lemma_scan_groups(prev);
        let line = lines.last();
        assert(forall|k: int| 0 <= k < line.len() ==> line[k] == lines[lines.len() - 1][k]);
        let (c0, d0) = scan_groups(prev);
        if begins_block(line) {
            lemma_begin_not_end(line);
            let g = Seq::<Seq<char>>::empty().push(line);
            assert(g.drop_last() =~= Seq::<Seq<char>>::empty());
            assert(block_text(Seq::<Seq<char>>::empty()) == Seq::<char>::empty());
            assert(g.last() == line);
            assert(block_text(g) == block_text(g.drop_last()) + g.last() + "\n"@);
            assert(block_text(g) == Seq::<char>::empty() + line + "\n"@);
            assert(g[0] == line);
            assert forall|i: int, k: int| 0 <= i < g.len() && 0 <= k < g[i].len() implies #[trigger] g[i][k]
                != '\n' by {
                assert(g[i] == lines[lines.len() - 1]);
            }
        } else {
            match c0 {
                Some(g0) => {
                    let g = g0.push(line);
                    assert(g.drop_last() =~= g0);
                    assert(g[0] == g0[0]);
                    assert forall|i: int, k: int| 0 <= i < g.len() && 0 <= k < g[i].len() implies #[trigger] g[i][k]
                        != '\n' by {
                        if i < g0.len() {
                            assert(g[i] == g0[i]);
                        }
                    }
                    if ends_block(line) {
                        assert(block_texts(d0.push(g)) =~= block_texts(d0).push(block_text(g)));
                        assert forall|j: int| 0 <= j < d0.push(g).len() implies block_shape(
                            #[trigger] d0.push(g)[j],
                        ) && newline_free(d0.push(g)[j]) by {
                            if j < d0.len() {
                                assert(d0.push(g)[j] == d0[j]);
                            } else {
                                assert(d0.push(g)[j] == g);
                                assert forall|i: int| 0 < i < g.len() - 1 implies !begins_block(
                                    #[trigger] g[i],
                                ) && !ends_block(g[i]) by {
                                    assert(g[i] == g0[i]);
                                }
                            }
                        }
                    } else {
                        assert forall|i: int| 0 < i < g.len() implies !begins_block(#[trigger] g[i])
                            && !ends_block(g[i]) by {
                            if i < g0.len() {
                                assert(g[i] == g0[i]);
                            }
                        }
                    }
                },
                None => {},
            }
        }
    }
}

/// Every line of every block is plain.
pub open spec fn plain_groups(gs: Seq<Seq<Seq<char>>>) -> bool {
    forall|j: int, i: int| 0 <= j < gs.len() && 0 <= i < gs[j].len() ==> plain_line(#[trigger] gs[j][i])
}

/// Blocks joined by blank lines read back as the same blocks.
proof fn lemma_joined_blocks(gs: Seq<Seq<Seq<char>>>, n: int)
    requires
        1 <= n <= gs.len(),
        plain_groups(gs),
        forall|j: int| 0 <= j < gs.len() ==> block_shape(#[trigger] gs[j]),
    ensures
        ({
            let txt = joined(block_texts(gs).take(n), "\n"@);
            &&& txt.len() > 0
            &&& txt.last() == '\n'
            &&& text_lines(txt).len() > 0
            &&& begins_block(text_lines(txt)[0])
            &&& scan_blocks(text_lines(txt)) == (None::<Seq<char>>, block_texts(gs).take(n))
        }),
    decreases n,
{
    reveal_strlit("\n");
    let ts = block_texts(gs);
    let g = gs[n - 1];
    assert(ts[n - 1] == block_text(g));
    assert forall|i: int| 0 <= i < g.len() implies plain_line(#[trigger] g[i]) by {
        assert(plain_line(gs[n - 1][i]));
    }
    lemma_block_text_lines(g);
    lemma_scan_block(g);
    let t = block_text(g);
    if n == 1 {
        assert(ts.take(1) =~= seq![t]);
    } else {
        lemma_joined_blocks(gs, n - 1);
        let j = joined(ts.take(n - 1), "\n"@);
        assert(ts.take(n).drop_last() =~= ts.take(n - 1));
        assert(joined(ts.take(n), "\n"@) == j + "\n"@ + t);
        lemma_text_lines_concat(j, "\n"@ + t);
        lemma_text_lines_concat("\n"@, t);
        assert(plain_line(Seq::<char>::empty()));
        lemma_single_line(Seq::<char>::empty());
        assert(Seq::<char>::empty() + "\n"@ =~= "\n"@);
        assert(j + "\n"@ + t =~= j + ("\n"@ + t));
        let lj = text_lines(j);
        assert(lj + (seq![Seq::<char>::empty()] + g) =~= lj.push(Seq::<char>::empty()) + g);
        lemma_scan_from_begin(lj.push(Seq::<char>::empty()), g);
        lemma_scan_blank(lj);
        assert(ts.take(n - 1) + seq![t] =~= ts.take(n));
        assert((lj + (seq![Seq::<char>::empty()] + g))[0] == lj[0]);
    }
}

proof fn lemma_non_white_survives_trim_end(x: Seq<char>, k: int)
    requires
        0 <= k < x.len(),
        !white(x[k]),
    ensures
        trim_end(x).len() > 0,
    decreases x.len(),
{
    if white(x.last()) {
        lemma_non_white_survives_trim_end(x.drop_last(), k);
    }
}

proof fn lemma_non_white_survives_trim(x: Seq<char>, k: int)
    requires
        0 <= k < x.len(),
        !white(x[k]),
    ensures
        trim(x).len() > 0,
    decreases x.len(),
{
    if white(x[0]) {
        assert(k > 0);
        assert(x.drop_first()[k - 1] == x[k]);
        lemma_non_white_survives_trim(x.drop_first(), k - 1);
        assert(trim_start(x) == trim_start(x.drop_first()));
    } else {
        lemma_non_white_survives_trim_end(x, k);
    }
}

/// A line that begins a block holds a character other than whitespace.
proof fn lemma_begin_has_text(x: Seq<char>)
    requires
        begins_block(x),
    ensures
        exists|k: int| 0 <= k < x.len() && !white(#[trigger] x[k]),
    decreases x.len(),
{
    reveal_strlit("<!-- BEGIN");
    if x.len() > 0 && white(x[0]) {
        lemma_begin_has_text(x.drop_first());
        let k = choose|k: int| 0 <= k < x.drop_first().len() && !white(#[trigger] x.drop_first()[k]);
        assert(x[k + 1] == x.drop_first()[k]);
    } else {
        assert(trim_start(x) == x);
        assert(x.take(10)[0] == x[0]);
        assert(x[0] == '<');
    }
}

/// The first line of a text is a prefix of it.
proof fn lemma_first_line_prefix(s: Seq<char>)
    requires
        text_lines(s).len() > 0,
    ensures
        text_lines(s)[0].len() <= s.len(),
        forall|k: int| 0 <= k < text_lines(s)[0].len() ==> #[trigger] text_lines(s)[0][k] == s[k],
{
    lemma_before_char_len(s, '\n');
    let l = before_char(s, '\n');
    if l.len() < s.len() {
        let line = if l.len() > 0 && l.last() == '\r' { l.drop_last() } else { l };
        assert(text_lines(s)[0] == line);
        assert forall|k: int| 0 <= k < line.len() implies #[trigger] line[k] == s[k] by {
            assert(line[k] == l[k]);
        }
    }
}

/// Regenerating `AGENTS.md` keeps its integration blocks: the blocks read
/// from the regenerated file are exactly the blocks read from the old one
/// and carried over. This holds when the generated text closes no block of
/// its own, and when no line kept in a block ends with a carriage return
/// (such a line loses it when read back).
pub proof fn lemma_sync_keeps_blocks(old: Seq<char>, body: Seq<char>)
    requires
        scan_blocks(text_lines(body)).1.len() == 0,
        scan_blocks(text_lines(body + "\n\n"@)).1.len() == 0,
        plain_groups(scan_groups(text_lines(old)).1),
    ensures
        integration_blocks(synced_text(body, integration_blocks(old))) == integration_blocks(old),
{
    reveal_strlit("\n\n");
    reveal_strlit("\n");
    let lines = text_lines(old);
    lemma_text_lines_no_newline(old);
    assert forall|i: int, k: int| 0 <= i < lines.len() && 0 <= k < lines[i].len() implies #[trigger] lines[i][k]
        != '\n' by {}
    lemma_scan_groups(lines);
    let gs = scan_groups(lines).1;
    let ts = block_texts(gs);
    let b = integration_blocks(old);
    assert(b == joined(ts, "\n"@));
    if gs.len() == 0 {
        assert(ts =~= Seq::<Seq<char>>::empty());
        assert(b == Seq::<char>::empty());
        assert(trim_start(b) == b);
        assert(trim_end(b) == b);
        assert(synced_text(body, b) == body);
        assert(scan_blocks(text_lines(body)).1 =~= Seq::<Seq<char>>::empty());
    } else {
        lemma_joined_blocks(gs, gs.len() as int);
        assert(ts.take(gs.len() as int) =~= ts);
        let lb = text_lines(b);
        lemma_first_line_prefix(b);
        lemma_begin_has_text(lb[0]);
        let k = choose|k: int| 0 <= k < lb[0].len() && !white(#[trigger] lb[0][k]);
        assert(b[k] == lb[0][k]);
        lemma_non_white_survives_trim(b, k);
        let a = body + "\n\n"@;
        assert(synced_text(body, b) =~= a + b);
        assert(a.last() == '\n');
        lemma_text_lines_concat(a, b);
        lemma_scan_from_begin(text_lines(a), lb);
        assert(scan_blocks(text_lines(a)).1 =~= Seq::<Seq<char>>::empty());
        assert(Seq::<Seq<char>>::empty() + ts =~= ts);
    }
}

/// The reply of `provider.config.sync_instructions` for what was written at
/// `path`; the size is in bytes.
pub fn sync_output(content: &str, path: String) -> (out: ProviderConfigSyncInstructionsOutput)
    ensures
        out.success,
        out.message@ == "Regenerated company AGENTS.md ("@ + decimal_text(utf8_len(content@))
            + " bytes) at "@ + path@,
        out.path@ == path@,
{
    let n = str_byte_len(content);
    let mut m = owned("Regenerated company AGENTS.md (");
    push_str(&mut m, u64_text(n as u64).as_str());
    push_str(&mut m, " bytes) at ");
    push_str(&mut m, path.as_str());
    ProviderConfigSyncInstructionsOutput { success: true, message: m, path }
}

// ==========================================
// pr.create
// ==========================================

/// A pull request may only be opened for a service of the workspace.
pub fn pr_service_check(ws: &Workspace, workspace_id: &str, service_id: &str) -> (res: Result<
    (),
    WorkspaceError,
>)
    ensures
        views(ws.services@).contains(service_id@) ==> res is Ok,
        !views(ws.services@).contains(service_id@) ==> (res matches Err(
            WorkspaceError::Validation(m),
        ) && m@ == "Service "@ + service_id@ + " is not registered in workspace "@
            + workspace_id@),
{
    if strings_contain(&ws.services, service_id) {
        Ok(())
    } else {
        let mut m = owned("Service ");
        push_str(&mut m, service_id);
        push_str(&mut m, " is not registered in workspace ");
        push_str(&mut m, workspace_id);
        Err(WorkspaceError::Validation(m))
    }
}

/// The push and pull-request requests for one service; the branch is the
/// workspace id.
pub fn pr_requests(input: &PrCreateInput, service_id: &str) -> (r: (PushBranchInput, CreatePullRequestInput))
    ensures
        r.0.epic_key@ == input.workspace_id@,
        r.0.service_id@ == service_id@,
        r.0.branch@ == input.workspace_id@,
        r.1.epic_key@ == input.workspace_id@,
        r.1.service_id@ == service_id@,
        r.1.branch@ == input.workspace_id@,
        r.1.title@ == input.title@,
        r.1.body@ == input.body@,
        r.1.draft == input.draft,
{
    (
        PushBranchInput {
            epic_key: input.workspace_id.clone(),
            service_id: owned(service_id),
            branch: input.workspace_id.clone(),
        },
        CreatePullRequestInput {
            epic_key: input.workspace_id.clone(),
            service_id: owned(service_id),
            branch: input.workspace_id.clone(),
            title: input.title.clone(),
            body: input.body.clone(),
            draft: input.draft,
        },
    )
}

/// The comment left on the workspace's issue for a new pull request.
pub fn pr_comment(service_id: &str, url: &str, branch: &str) -> (c: String)
    ensures
        c@ == "Created Pull Request for **"@ + service_id@ + "**: "@ + url@ + "\n(Branch: `"@
            + branch@ + "`)"@,
{
    let mut c = owned("Created Pull Request for **");
    push_str(&mut c, service_id);
    push_str(&mut c, "**: ");
    push_str(&mut c, url);
    push_str(&mut c, "\n(Branch: `");
    push_str(&mut c, branch);
    push_str(&mut c, "`)");
    c
}

/// Records the pull request opened for a service.
pub fn record_pr(out: &mut PrCreateOutput, service_id: String, url: String)
    ensures
        lookup(final(out).prs@, service_id@) matches Some(u) && u@ == url@,
        forall|q: Seq<char>| q != service_id@ ==> lookup(final(out).prs@, q) == lookup(old(out).prs@, q),
        final(out).workspace_id == old(out).workspace_id,
{
    insert_keyed(&mut out.prs, service_id, url);
}

pub struct ProviderCodeCheckAuthCommand;

impl CommandInfo for ProviderCodeCheckAuthCommand {
    fn id(&self) -> (s: &'static str)
        ensures
            s@ == "provider.code.check_auth"@,
    {
        "provider.code.check_auth"
    }

    fn description(&self) -> (s: &'static str)
        ensures
            s@ == "Check authentication status with the configured code provider."@,
    {
        "Check authentication status with the configured code provider."
    }
}

pub struct ProviderCodeListRecentReposCommand;

impl CommandInfo for ProviderCodeListRecentReposCommand {
    fn id(&self) -> (s: &'static str)
        ensures
            s@ == "provider.code.list_recent_repos"@,
    {
        "provider.code.list_recent_repos"
    }

    fn description(&self) -> (s: &'static str)
        ensures
            s@ == "List recently updated repositories from the code provider."@,
    {
        "List recently updated repositories from the code provider."
    }
}

pub struct ProviderCodeGetRepoCommand;

impl CommandInfo for ProviderCodeGetRepoCommand {
    fn id(&self) -> (s: &'static str)
        ensures
            s@ == "provider.code.get_repo"@,
    {
        "provider.code.get_repo"
    }

    fn description(&self) -> (s: &'static str)
        ensures
            s@ == "Retrieve repository metadata details."@,
    {
        "Retrieve repository metadata details."
    }
}

pub struct ProviderIssueCheckAuthCommand;

impl CommandInfo for ProviderIssueCheckAuthCommand {
    fn id(&self) -> (s: &'static str)
        ensures
            s@ == "provider.issue.check_auth"@,
    {
        "provider.issue.check_auth"
    }

    fn description(&self) -> (s: &'static str)
        ensures
            s@ == "Check authentication status with the configured issue provider."@,
    {
        "Check authentication status with the configured issue provider."
    }
}

pub struct ProviderIssueGetIssueCommand;

impl CommandInfo for ProviderIssueGetIssueCommand {
    fn id(&self) -> (s: &'static str)
        ensures
            s@ == "provider.issue.get_issue"@,
    {
        "provider.issue.get_issue"
    }

    fn description(&self) -> (s: &'static str)
        ensures
            s@ == "Retrieve issue tracking details by key."@,
    {
        "Retrieve issue tracking details by key."
    }
}

pub struct ProviderIssueCreateEpicCommand;

impl CommandInfo for ProviderIssueCreateEpicCommand {
    fn id(&self) -> (s: &'static str)
        ensures
            s@ == "provider.issue.create_epic"@,
    {
        "provider.issue.create_epic"
    }

    fn description(&self) -> (s: &'static str)
        ensures
            s@ == "Create a new Epic in the issue tracker."@,
    {
        "Create a new Epic in the issue tracker."
    }
}

pub struct ProviderIssueCreateIssueCommand;

impl CommandInfo for ProviderIssueCreateIssueCommand {
    fn id(&self) -> (s: &'static str)
        ensures
            s@ == "provider.issue.create_issue"@,
    {
        "provider.issue.create_issue"
    }

    fn description(&self) -> (s: &'static str)
        ensures
            s@ == "Create a new Issue task in the issue tracker."@,
    {
        "Create a new Issue task in the issue tracker."
    }
}

pub struct ProviderIssueLinkCommand;

impl CommandInfo for ProviderIssueLinkCommand {
    fn id(&self) -> (s: &'static str)
        ensures
            s@ == "provider.issue.link"@,
    {
        "provider.issue.link"
    }

    fn description(&self) -> (s: &'static str)
        ensures
            s@ == "Link two issues together in the issue tracker."@,
    {
        "Link two issues together in the issue tracker."
    }
}

pub struct ProviderIssueCommentCommand;

impl CommandInfo for ProviderIssueCommentCommand {
    fn id(&self) -> (s: &'static str)
        ensures
            s@ == "provider.issue.comment"@,
    {
        "provider.issue.comment"
    }

    fn description(&self) -> (s: &'static str)
        ensures
            s@ == "Add a comment to an issue in the tracker."@,
    {
        "Add a comment to an issue in the tracker."
    }
}

pub struct ProviderDocCheckAuthCommand;

impl CommandInfo for ProviderDocCheckAuthCommand {
    fn id(&self) -> (s: &'static str)
        ensures
            s@ == "provider.doc.check_auth"@,
    {
        "provider.doc.check_auth"
    }

    fn description(&self) -> (s: &'static str)
        ensures
            s@ == "Check authentication status with the configured doc provider."@,
    {
        "Check authentication status with the configured doc provider."
    }
}

pub struct ProviderDocGetPageCommand;

impl CommandInfo for ProviderDocGetPageCommand {
    fn id(&self) -> (s: &'static str)
        ensures
            s@ == "provider.doc.get_page"@,
    {
        "provider.doc.get_page"
    }

    fn description(&self) -> (s: &'static str)
        ensures
            s@ == "Retrieve page content from the doc provider knowledge base."@,
    {
        "Retrieve page content from the doc provider knowledge base."
    }
}

pub struct ProviderDocCreatePageCommand;

impl CommandInfo for ProviderDocCreatePageCommand {
    fn id(&self) -> (s: &'static str)
        ensures
            s@ == "provider.doc.create_page"@,
    {
        "provider.doc.create_page"
    }

    fn description(&self) -> (s: &'static str)
        ensures
            s@ == "Create a new documentation page in the doc provider."@,
    {
        "Create a new documentation page in the doc provider."
    }
}

pub struct ProviderDocUpdatePageCommand;

impl CommandInfo for ProviderDocUpdatePageCommand {
    fn id(&self) -> (s: &'static str)
        ensures
            s@ == "provider.doc.update_page"@,
    {
        "provider.doc.update_page"
    }

    fn description(&self) -> (s: &'static str)
        ensures
            s@ == "Update an existing page in the doc provider."@,
    {
        "Update an existing page in the doc provider."
    }
}

pub struct ProviderConfigGetInstructionsCommand;

impl CommandInfo for ProviderConfigGetInstructionsCommand {
    fn id(&self) -> (s: &'static str)
        ensures
            s@ == "provider.config.get_instructions"@,
    {
        "provider.config.get_instructions"
    }

    fn description(&self) -> (s: &'static str)
        ensures
            s@ == "Retrieve custom instruction guidelines (e.g. AGENT.md equivalent) for a provider."@,
    {
        "Retrieve custom instruction guidelines (e.g. AGENT.md equivalent) for a provider."
    }
}

pub struct ProviderConfigSyncInstructionsCommand;

impl CommandInfo for ProviderConfigSyncInstructionsCommand {
    fn id(&self) -> (s: &'static str)
        ensures
            s@ == "provider.config.sync_instructions"@,
    {
        "provider.config.sync_instructions"
    }

    fn description(&self) -> (s: &'static str)
        ensures
            s@ == "Regenerate the ws-managed company AGENTS.md (workflows + catalog + practices). Non-destructive to integration blocks."@,
    {
        "Regenerate the ws-managed company AGENTS.md (workflows + catalog + practices). Non-destructive to integration blocks."
    }
}

pub struct PrCreateCommand;

impl CommandInfo for PrCreateCommand {
    fn id(&self) -> (s: &'static str)
        ensures
            s@ == "pr.create"@,
    {
        "pr.create"
    }

    fn description(&self) -> (s: &'static str)
        ensures
            s@ == "Create pull requests for changes in the workspace repositories."@,
    {
        "Create pull requests for changes in the workspace repositories."
    }
}

} // verus!
