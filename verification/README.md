# workspace

The control plane of `ws`, a CLI that sets up per-feature, multi-repository
workspaces for AI coding agents: a catalog of services, products and teams;
feature workspaces with git worktrees (per service and per task); a
knowledge-base wiki and its lint; a repo-readiness healthcheck; dev builds of
the CLI from pull requests; and the glue to Jira, Confluence, `dex` and `gh`.

Layout:

- `src/` — the library, written in Verus. Every function states what it
  computes in `requires`/`ensures` over mathematical models (`Seq`, `Map`,
  spec functions) and is proved, except the eleven thin wrappers marked
  `#[verifier::external_body]` (in `text`, `encoding` and `repo_ops`), whose
  contracts are trusted: each calls one std, `base64`, `urlencoding` or
  `serde_json` function and states what its documentation or source gives. Filesystem, process and network work is not
  here: functions take what was read (file contents, existence flags, command
  output) as plain values and return what to write, run or print.
  - `workspaces`, `lifecycle`, `tasks`, `screens` — workspace identity and
    lookup, create/attach/task flows, the `ws tasks` rows and the printed reports.
  - `catalog`, `setup`, `models` — catalog records, `ws init`/`config`/`add`.
  - `kb`, `lint` — knowledge-base scaffold plan and wiki lint.
  - `healthcheck`, `artifact`, `repo_ops` — repo readiness checks, `repo.run`
    and `repo.verify` decisions, the Understand-Anything verdicts.
  - `providers`, `github`, `dex`, `atlassian`, `editors`, `encoding` — what
    the providers compute (arguments, URLs, messages, parsed replies).
  - `dev` — `ws dev-install` bookkeeping; `docs` — the command reference.
  - `text`, `error`, `command` — strings, errors, command metadata.
- `tests/` — tests run against the compiled library.
- `app/` — the `ws` binary: argument parsing, prompts, file and process I/O,
  HTTP, and serde forms of the library's records.

The packaged asset trees (`catalog-knowledge/`, `skills/`) are read at run
time from `WS_ASSETS_DIR`, or from `assets/` beside the binary.
