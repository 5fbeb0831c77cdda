//! The repo commands around the healthcheck: `repo.run` (one declared
//! command, foreground or served and probed), `repo.verify` (every declared
//! step in order, stopping at the first failure), `repo.fix_loop.prompt`
//! (the fix-loop spec a harness follows) and `repo.understand.verify`.
//!
//! Processes, clocks and `gh` are the caller's; the plans, verdicts and
//! reports are here. `deploy` is never run.
use vstd::prelude::*;
use crate::command::CommandInfo;
use crate::error::WorkspaceError;
use crate::models::{CommandMap, ServiceCatalog};
use crate::text::{
    ascii_ci_eq, contains_seq, decimal_text, eq_ignore_ascii_case, owned, push_str, str_chars,
    str_contains, str_eq, str_to_lowercase, str_trim, trim, u64_text, unicode_str_lower,
    utf8_len, utf8_width, chars_string, slice_chars,
};

verus! {

/// `repo_path '<path>' does not exist; ws never clones — pass a working checkout.`
pub fn repo_path_missing(path: &str) -> (e: WorkspaceError)
    ensures
        e matches WorkspaceError::NotFound(m) && m@ == "repo_path '"@ + path@
            + "' does not exist; ws never clones — pass a working checkout."@,
{
    let mut m = owned("repo_path '");
    push_str(&mut m, path);
    push_str(&mut m, "' does not exist; ws never clones — pass a working checkout.");
    WorkspaceError::NotFound(m)
}

// ==========================================
// repo.run
// ==========================================

pub struct RepoRunInput {
    pub service_id: String,
    /// Path to a working checkout of the repo.
    pub repo_path: String,
    /// Catalog command key: install | test | test_integration | agent_verify |
    /// verify_run | dev | run. `deploy` is refused.
    pub command: String,
    /// Timeout in seconds (default 180).
    pub timeout: Option<u64>,
}

/// How a command runs.
#[derive(Clone, Copy, PartialEq, Eq, Structural, Debug)]
pub enum RunMode {
    /// Foreground; passes on exit 0.
    Exit,
    /// Started in the background; passes once `verify_run` succeeds.
    Serve,
}

/// What `repo.run` will do.
pub struct RunPlan {
    /// The shell string declared in the catalog.
    pub command_value: String,
    pub mode: RunMode,
    /// `commands.verify_run`, the probe of a served command.
    pub probe: Option<String>,
    pub timeout_secs: u64,
}

pub open spec fn is_exit_key(k: Seq<char>) -> bool {
    k == "install"@ || k == "test"@ || k == "test_integration"@ || k == "agent_verify"@ || k
        == "verify_run"@
}

pub open spec fn is_serve_key(k: Seq<char>) -> bool {
    k == "dev"@ || k == "run"@
}

/// What `repo.run` makes of a request: `deploy` is refused, an undeclared
/// command is refused, a serve key is served (probed by `verify_run`), an
/// exit key runs in the foreground, any other key is refused.
pub open spec fn run_decision(commands: CommandMap, key: Seq<char>) -> Result<(Seq<char>, RunMode), u8> {
    if key == "deploy"@ {
        Err(0)
    } else {
        match commands.spec_get(key) {
            None => Err(1),
            Some(v) => if is_serve_key(key) {
                Ok((v, RunMode::Serve))
            } else if is_exit_key(key) {
                Ok((v, RunMode::Exit))
            } else {
                Err(2)
            },
        }
    }
}

pub fn plan_run(service: &ServiceCatalog, input: &RepoRunInput) -> (res: Result<RunPlan, WorkspaceError>)
    ensures
        match (res, run_decision(service.commands, input.command@)) {
            (Ok(p), Ok((v, mode))) => p.command_value@ == v && p.mode == mode && p.timeout_secs
                == match input.timeout {
                Some(t) => t,
                None => 180,
            } && (mode == RunMode::Serve ==> match service.commands.spec_get("verify_run"@) {
                Some(pv) => p.probe matches Some(x) && x@ == pv,
                None => p.probe is None,
            }),
            (Err(WorkspaceError::Validation(m)), Err(0)) => m@ == "refusing to run forbidden command '"@
                + input.command@ + "'; deploy is never executed by repo.run."@,
            (Err(WorkspaceError::Validation(m)), Err(1)) => m@ == "commands."@ + input.command@
                + " is not declared in catalog for service '"@ + input.service_id@ + "'"@,
            (Err(WorkspaceError::Validation(m)), Err(2)) => m@ == "Unknown command key '"@
                + input.command@
                + "'. Valid: [\"dev\", \"run\"] (serve) or [\"install\", \"test\", \"test_integration\", \"agent_verify\", \"verify_run\"] (exit)."@,
            _ => false,
        },
{
    let key = input.command.as_str();
    if str_eq(key, "deploy") {
        let mut m = owned("refusing to run forbidden command '");
        push_str(&mut m, key);
        push_str(&mut m, "'; deploy is never executed by repo.run.");
        return Err(WorkspaceError::Validation(m));
    }
    let value = match service.commands.get(key) {
        Some(v) => v.clone(),
        None => {
            let mut m = owned("commands.");
            push_str(&mut m, key);
            push_str(&mut m, " is not declared in catalog for service '");
            push_str(&mut m, input.service_id.as_str());
            push_str(&mut m, "'");
            return Err(WorkspaceError::Validation(m));
        },
    };
    let timeout_secs = match input.timeout {
        Some(t) => t,
        None => 180,
    };
    if str_eq(key, "dev") || str_eq(key, "run") {
        let probe = match service.commands.get("verify_run") {
            Some(p) => Some(p.clone()),
            None => None,
        };
        Ok(RunPlan { command_value: value, mode: RunMode::Serve, probe, timeout_secs })
    } else if str_eq(key, "install") || str_eq(key, "test") || str_eq(key, "test_integration")
        || str_eq(key, "agent_verify") || str_eq(key, "verify_run") {
        Ok(RunPlan { command_value: value, mode: RunMode::Exit, probe: None, timeout_secs })
    } else {
        let mut m = owned("Unknown command key '");
        push_str(&mut m, key);
        push_str(
            &mut m,
            "'. Valid: [\"dev\", \"run\"] (serve) or [\"install\", \"test\", \"test_integration\", \"agent_verify\", \"verify_run\"] (exit).",
        );
        Err(WorkspaceError::Validation(m))
    }
}

/// `repo.run` never runs `deploy`, whatever the catalog declares.
pub proof fn lemma_deploy_never_runs(commands: CommandMap)
    ensures
        run_decision(commands, "deploy"@) is Err,
{
}

/// A foreground command passed: it exited 0 within the timeout.
pub fn exit_smoke(timed_out: bool, exit_code: Option<i32>) -> (passed: bool)
    ensures
        passed == (!timed_out && exit_code == Some(0i32)),
{
    !timed_out && match exit_code {
        Some(c) => c == 0,
        None => false,
    }
}

/// Bytes of output kept.
pub const TAIL_BYTES: usize = 4096;

/// Output cut to its last 4096 bytes, marked `...[truncated]...` when cut;
/// the cut must fall between characters.
pub open spec fn tail_text(s: Seq<char>, k: int) -> Seq<char> {
    if utf8_len(s) <= 4096 {
        s
    } else {
        "...[truncated]...\n"@ + s.skip(k)
    }
}

proof fn lemma_utf8_len_push(s: Seq<char>, c: char)
    ensures
        utf8_len(s.push(c)) == utf8_len(s) + utf8_width(c),
{
    assert(s.push(c).drop_last() =~= s);
}

/// The tail of a command's output. When the output is over 4096 bytes, the
/// first `k` characters are dropped, where they take exactly the bytes
/// beyond the last 4096 (a cut inside a character is refused by `requires`).
pub fn tail(s: &str) -> (r: String)
    requires
        utf8_len(s@) > 4096 ==> exists|k: int|
            0 <= k <= s@.len() && #[trigger] utf8_len(s@.take(k)) == utf8_len(s@) - 4096,
    ensures
        utf8_len(s@) <= 4096 ==> r@ == s@,
        utf8_len(s@) > 4096 ==> exists|k: int|
            0 <= k <= s@.len() && #[trigger] utf8_len(s@.take(k)) == utf8_len(s@) - 4096 && r@
                == tail_text(s@, k),
{
    let n = crate::text::str_byte_len(s);
    if n <= TAIL_BYTES {
        return owned(s);
    }
    let v = str_chars(s);
    let start = n - TAIL_BYTES;
    let ghost kk = choose|kk: int|
        0 <= kk <= s@.len() && #[trigger] utf8_len(s@.take(kk)) == utf8_len(s@) - 4096;
    let mut k: usize = 0;
    let mut used: usize = 0;
    assert(v@.take(0) =~= Seq::<char>::empty());
    while used < start
        invariant
            v@ == s@,
            0 <= kk <= s@.len(),
            utf8_len(s@.take(kk)) == start,
            k <= kk,
            used == utf8_len(v@.take(k as int)),
        decreases kk - k,
    {
        proof {
            if k == kk {
                assert(false);
            }
            lemma_prefix_bytes_monotone(s@, k + 1, kk);
        }
        let c = v[k];
        let u = c as u32;
        let w: usize = if u < 0x80 {
            1
        } else if u < 0x800 {
            2
        } else if u < 0x10000 {
            3
        } else {
            4
        };
        proof {
            lemma_utf8_len_push(v@.take(k as int), c);
            assert(v@.take(k + 1) =~= v@.take(k as int).push(c));
        }
        used = used + w;
        k += 1;
    }
    proof {
        if k < kk {
            lemma_prefix_bytes_monotone(s@, k as int, kk);
        }
    }
    assert(k == kk);
    let rest = slice_chars(&v, k, v.len());
    let mut r = owned("...[truncated]...\n");
    push_str(&mut r, chars_string(&rest).as_str());
    assert(rest@ =~= s@.skip(k as int));
    r
}

/// Byte counts of prefixes grow strictly with the prefix.
proof fn lemma_prefix_bytes_monotone(s: Seq<char>, a: int, b: int)
    requires
        0 <= a <= s.len(),
        0 <= b <= s.len(),
    ensures
        a < b ==> utf8_len(s.take(a)) < utf8_len(s.take(b)),
        a <= b ==> utf8_len(s.take(a)) <= utf8_len(s.take(b)),
    decreases b,
{
    if a < b {
        assert(s.take(b).drop_last() =~= s.take(b - 1));
        if a < b - 1 {
            lemma_prefix_bytes_monotone(s, a, b - 1);
        }
    } else if a == b {
    }
}

/// A failed `verify_run` probe, for the probe log: its exit code (`-1`
/// when it has none) and what it printed.
pub fn probe_failure_entry(exit_code: Option<i32>, stdout: &str) -> (e: String)
    ensures
        e@ == "[probe exit "@ + i32_text(match exit_code {
            Some(c) => c,
            None => -1i32,
        }) + "] "@ + stdout@,
{
    let code = match exit_code {
        Some(c) => c,
        None => -1,
    };
    let mut e = owned("[probe exit ");
    push_str(&mut e, i32_string(code).as_str());
    push_str(&mut e, "] ");
    push_str(&mut e, stdout);
    e
}

/// A probe that could not be started, for the probe log.
pub fn probe_spawn_entry(err: &str) -> (e: String)
    ensures
        e@ == "[probe spawn error: "@ + err@ + "]\n"@,
{
    let mut e = owned("[probe spawn error: ");
    push_str(&mut e, err);
    push_str(&mut e, "]\n");
    e
}

/// The decimal rendering of a signed integer.
pub open spec fn i32_text(n: i32) -> Seq<char> {
    if n < 0 {
        "-"@ + decimal_text((-(n as int)) as nat)
    } else {
        decimal_text(n as nat)
    }
}

pub fn i32_string(n: i32) -> (s: String)
    ensures
        s@ == i32_text(n),
{
    if n < 0 {
        let m: u64 = if n == i32::MIN { 2147483648u64 } else { (-n) as u64 };
        let mut s = owned("-");
        push_str(&mut s, u64_text(m).as_str());
        s
    } else {
        u64_text(n as u64)
    }
}

/// What one `verify_run` probe did.
pub enum ProbeOutcome {
    /// Exited successfully: the service is up.
    Passed,
    /// Exited unsuccessfully, with its exit code when it has one, and what
    /// it printed.
    Failed { exit_code: Option<i32>, stdout: String },
    /// Could not be started; the error's text.
    SpawnError(String),
}

/// Watching a served command: whether a probe passed, the log of the probes
/// that did not, and whether a pause is due before the next probe.
pub struct ServeWatch {
    pub smoke_passed: bool,
    pub probe_log: String,
    pub pause_due: bool,
}

/// What to do next while a served command runs.
pub enum ServeAction {
    /// Run the `verify_run` probe.
    Probe(String),
    /// Pause for one poll interval.
    Pause,
    /// Stop watching: the probe passed or the deadline passed.
    Stop,
}

pub fn serve_watch_new() -> (w: ServeWatch)
    ensures
        !w.smoke_passed,
        w.probe_log@.len() == 0,
        !w.pause_due,
{
    ServeWatch { smoke_passed: false, probe_log: String::new(), pause_due: false }
}

/// The next step: stop once the probe passed or the deadline passed;
/// otherwise pause when a pause is due (after each probe), else probe when
/// `verify_run` is declared, else pause (nothing can confirm the service).
pub fn serve_next(w: &mut ServeWatch, probe: &Option<String>, before_deadline: bool) -> (a: ServeAction)
    ensures
        final(w).smoke_passed == old(w).smoke_passed,
        final(w).probe_log == old(w).probe_log,
        (old(w).smoke_passed || !before_deadline) ==> (a is Stop && final(w).pause_due == old(
            w,
        ).pause_due),
        !(old(w).smoke_passed || !before_deadline) && old(w).pause_due ==> (a is Pause
            && !final(w).pause_due),
        !(old(w).smoke_passed || !before_deadline) && !old(w).pause_due ==> match *probe {
            Some(p) => a matches ServeAction::Probe(q) && q@ == p@ && !final(w).pause_due,
            None => a is Pause && !final(w).pause_due,
        },
{
    if w.smoke_passed || !before_deadline {
        return ServeAction::Stop;
    }
    if w.pause_due {
        w.pause_due = false;
        return ServeAction::Pause;
    }
    match probe {
        Some(p) => ServeAction::Probe(p.clone()),
        None => ServeAction::Pause,
    }
}

/// Records a probe's outcome: a pass ends the watch; a failure is logged
/// and a pause is due before the next probe.
pub fn serve_record(w: &mut ServeWatch, outcome: ProbeOutcome)
    ensures
        match outcome {
            ProbeOutcome::Passed => final(w).smoke_passed && final(w).probe_log == old(w).probe_log,
            ProbeOutcome::Failed { exit_code, stdout } => final(w).smoke_passed == old(
                w,
            ).smoke_passed && final(w).pause_due && final(w).probe_log@ == old(w).probe_log@
                + "[probe exit "@ + i32_text(
                match exit_code {
                    Some(c) => c,
                    None => -1i32,
                },
            ) + "] "@ + stdout@,
            ProbeOutcome::SpawnError(e) => final(w).smoke_passed == old(w).smoke_passed
                && final(w).pause_due && final(w).probe_log@ == old(w).probe_log@
                + "[probe spawn error: "@ + e@ + "]\n"@,
        },
{
    match outcome {
        ProbeOutcome::Passed => {
            w.smoke_passed = true;
        },
        ProbeOutcome::Failed { exit_code, stdout } => {
            let e = probe_failure_entry(exit_code, stdout.as_str());
            push_str(&mut w.probe_log, e.as_str());
            w.pause_due = true;
        },
        ProbeOutcome::SpawnError(err) => {
            let e = probe_spawn_entry(err.as_str());
            push_str(&mut w.probe_log, e.as_str());
            w.pause_due = true;
        },
    }
}

/// A served command timed out when no probe passed before the deadline.
pub fn serve_timed_out(w: &ServeWatch, past_deadline: bool) -> (t: bool)
    ensures
        t == (!w.smoke_passed && past_deadline),
{
    !w.smoke_passed && past_deadline
}

/// The stderr a served command reports: its tail, then the probe log when
/// there is one.
pub fn serve_stderr(stderr_tail: String, probe_log: &str) -> (s: String)
    ensures
        s@ == if probe_log@.len() == 0 {
            stderr_tail@
        } else {
            stderr_tail@ + "\n--- verify_run probe log ---\n"@ + probe_log@
        },
{
    let mut s = stderr_tail;
    if probe_log.unicode_len() > 0 {
        push_str(&mut s, "\n--- verify_run probe log ---\n");
        push_str(&mut s, probe_log);
    }
    s
}

pub struct RepoRunCommand;

impl CommandInfo for RepoRunCommand {
    fn id(&self) -> (s: &'static str)
        ensures
            s@ == "repo.run"@,
    {
        "repo.run"
    }

    fn description(&self) -> (s: &'static str)
        ensures
            s@ == "Deterministic single-command executor (exit or serve+poll). Never runs deploy."@,
    {
        "Deterministic single-command executor (exit or serve+poll). Never runs deploy."
    }
}

// ==========================================
// repo.verify
// ==========================================

pub struct RepoVerifyInput {
    pub service_id: String,
    /// Path to a working checkout of the repo.
    pub repo_path: String,
    /// Per-command timeout in seconds (default 180).
    pub timeout: Option<u64>,
}

/// The steps of `repo.verify`, in order; `deploy` is not one of them.
pub open spec fn verify_order() -> Seq<Seq<char>> {
    seq!["install"@, "dev"@, "test"@, "test_integration"@, "agent_verify"@]
}

pub fn verify_steps() -> (v: Vec<&'static str>)
    ensures
        v@.map_values(|s: &str| s@) == verify_order(),
{
    let v = vec!["install", "dev", "test", "test_integration", "agent_verify"];
    assert(v@.map_values(|s: &str| s@) =~= verify_order());
    v
}

/// Where `repo.verify` stands: the next step, and why it stopped.
pub struct VerifyState {
    pub next: usize,
    pub stopped_at: Option<String>,
    pub done: bool,
}

/// What `repo.verify` does next.
pub enum VerifyAction {
    /// Run this declared command with `repo.run`.
    Run(String),
    /// Report.
    Finish,
}

pub fn verify_start() -> (s: VerifyState)
    ensures
        s.next == 0,
        s.stopped_at is None,
        !s.done,
{
    VerifyState { next: 0, stopped_at: None, done: false }
}

/// The next action of `repo.verify`: an undeclared `test_integration` is
/// skipped (it is optional); any other undeclared step stops the run with
/// `<key> (not declared)`; a declared step is run.
pub fn verify_next(service: &ServiceCatalog, state: &mut VerifyState) -> (action: VerifyAction)
    requires
        old(state).next <= 5,
    ensures
        final(state).next <= 5,
        old(state).done ==> *final(state) == *old(state) && action is Finish,
        match action {
            VerifyAction::Run(k) => !final(state).done && final(state).next < 5 && k@
                == verify_order()[final(state).next as int] && service.commands.spec_get(k@) is Some
                && final(state).stopped_at == old(state).stopped_at,
            VerifyAction::Finish => final(state).done,
        },
{
    if state.done {
        return VerifyAction::Finish;
    }
    let steps = verify_steps();
    assert(steps@.len() == 5) by {
        assert(steps@.map_values(|s: &str| s@).len() == 5);
    }
    while state.next < 5
        invariant
            steps@.map_values(|s: &str| s@) == verify_order(),
            state.next <= 5,
            !state.done,
            state.stopped_at == old(state).stopped_at,
            !old(state).done,
            steps@.len() == 5,
        decreases 5 - state.next,
    {
        let key = steps[state.next];
        assert(steps@.map_values(|s: &str| s@)[state.next as int] == key@);
        if service.commands.contains_key(key) {
            return VerifyAction::Run(owned(key));
        }
        if str_eq(key, "test_integration") {
            state.next = state.next + 1;
        } else {
            let mut why = owned(key);
            push_str(&mut why, " (not declared)");
            state.stopped_at = Some(why);
            state.done = true;
            return VerifyAction::Finish;
        }
    }
    state.done = true;
    VerifyAction::Finish
}

/// Records the outcome of the step just run: it passed when the smoke test
/// passed within the timeout; a failed step stops the run there.
pub fn verify_record(state: &mut VerifyState, key: &str, smoke_passed: bool, timed_out: bool) -> (passed: bool)
    requires
        old(state).next < 5,
    ensures
        passed == (smoke_passed && !timed_out),
        passed ==> final(state).next == old(state).next + 1 && final(state).stopped_at == old(
            state,
        ).stopped_at && final(state).done == old(state).done,
        !passed ==> final(state).done,
        !passed ==> (final(state).stopped_at matches Some(s) && s@ == key@),
{
    let passed = smoke_passed && !timed_out;
    if passed {
        state.next = state.next + 1;
    } else {
        state.stopped_at = Some(owned(key));
        state.done = true;
    }
    passed
}

/// `repo.verify` never runs `deploy`: no step is `deploy`.
pub proof fn lemma_verify_skips_deploy(i: int)
    requires
        0 <= i < verify_order().len(),
    ensures
        verify_order()[i] != "deploy"@,
{
    reveal_strlit("deploy");
    reveal_strlit("install");
    reveal_strlit("dev");
    reveal_strlit("test");
    reveal_strlit("test_integration");
    reveal_strlit("agent_verify");
    assert(verify_order()[i].len() != 6 || verify_order()[i] =~= "deploy"@);
    if verify_order()[i] == "deploy"@ {
        assert(verify_order()[i][0] == 'd');
        assert(verify_order()[i][1] == 'e');
        assert(verify_order()[i][2] == 'p' || verify_order()[i][2] == 'v');
    }
}

pub struct RepoVerifyCommand;

impl CommandInfo for RepoVerifyCommand {
    fn id(&self) -> (s: &'static str)
        ensures
            s@ == "repo.verify"@,
    {
        "repo.verify"
    }

    fn description(&self) -> (s: &'static str)
        ensures
            s@ == "Deterministic run-all (post-setup); excludes deploy; stops at first failure."@,
    {
        "Deterministic run-all (post-setup); excludes deploy; stops at first failure."
    }
}

// ==========================================
// repo.fix_loop.prompt
// ==========================================

pub struct RepoFixLoopPromptInput {
    pub service_id: String,
}

pub struct RepoFixLoopPromptOutput {
    pub service_id: String,
    /// The markdown spec the harness follows.
    pub spec: String,
}

/// The commands the fix-loop converges, in order (`deploy` excluded).
pub open spec fn loop_commands() -> Seq<Seq<char>> {
    seq!["install"@, "dev"@, "test"@, "test_integration"@, "agent_verify"@]
}

pub open spec fn loop_row(i: int, key: Seq<char>, commands: CommandMap) -> Seq<char> {
    let val = match commands.spec_get(key) {
        Some(v) => "`"@ + v + "`"@,
        None => "— (declare first)"@,
    };
    let mode = if key == "dev"@ || key == "run"@ {
        "serve (poll verify_run)"@
    } else {
        "exit 0"@
    };
    "| "@ + decimal_text((i + 1) as nat) + " | `"@ + key + "` | "@ + val + " | "@ + mode
        + " | smoke_passed && !timed_out |\n"@
}

pub open spec fn loop_rows(n: int, commands: CommandMap) -> Seq<char>
    decreases n,
{
    if n <= 0 {
        Seq::empty()
    } else {
        loop_rows(n - 1, commands) + loop_row(n - 1, loop_commands()[n - 1], commands)
    }
}

/// The fix-loop spec for a service.
pub open spec fn fix_loop_text(service: ServiceCatalog) -> Seq<char> {
    "# Repo Setup Fix-Loop Spec\n\n"@ + "Service: `"@ + service.name@ + "` (id `"@ + service.id@
        + "`)\n\n"@ + "## Roles\n\n- **Runner subagent** — invokes `ws ai run repo.run` for a single command, reads the structured result, decides pass/fail.\n- **Implementor subagent** — spawned by the runner on failure to edit the repo (scripts/config/code) so the next run passes. Reports a short diff summary back to the runner.\n\n## Loop contract (per command)\n\n1. Runner calls `ws ai run repo.run --input <json>` with `{service_id, repo_path, command, timeout}` (run the command for THIS service + repo_path).\n2. Pass condition: `smoke_passed == true && timed_out == false`.\n3. On failure: runner spawns implementor subagent with the failing command, `stdout_tail`/`stderr_tail`, and the relevant remediation template from `workflows/repo-init.md`. Implementor fixes the repo only (never edits the catalog here — that is a separate `catalog.service.update` call the runner makes after the command passes).\n4. Runner re-runs `repo.run`. Repeat up to **N=4 attempts**. If still failing after the cap, the runner reports the gap and halts (do not silently succeed).\n5. On pass: runner records the declaration via `ws ai run catalog.service.update` if the command was newly added, then advances to the next command.\n\n**`deploy` is excluded** from this loop (locked dangerous; envs/when/triggers live in `workflows/deploy.md`).\n\n## Commands to converge (in order)\n\n| # | command | declared | mode | pass condition |\n|---|---|---|---|---|\n"@ + loop_rows(5, service.commands) + "\n**Notes:**\n- `test_integration` is optional — if absent from the catalog, skip it (the gap is not blocking per the healthcheck).\n- This spec is a *prompt*: `ws` emits it and stops. The harness owns the actual subagent orchestration and repo mutations.\n"@
}

fn loop_row_string(i: usize, key: &str, commands: &CommandMap) -> (row: String)
    requires
        i < 5,
    ensures
        row@ == loop_row(i as int, key@, *commands),
{
    let mut row = owned("| ");
    push_str(&mut row, u64_text((i + 1) as u64).as_str());
    push_str(&mut row, " | `");
    push_str(&mut row, key);
    push_str(&mut row, "` | ");
    match commands.get(key) {
        Some(v) => {
            push_str(&mut row, "`");
            push_str(&mut row, v.as_str());
            push_str(&mut row, "`");
        },
        None => push_str(&mut row, "— (declare first)"),
    }
    push_str(&mut row, " | ");
    if str_eq(key, "dev") || str_eq(key, "run") {
        push_str(&mut row, "serve (poll verify_run)");
    } else {
        push_str(&mut row, "exit 0");
    }
    push_str(&mut row, " | smoke_passed && !timed_out |\n");
    row
}

pub fn fix_loop_spec(service: &ServiceCatalog) -> (spec: String)
    ensures
        spec@ == fix_loop_text(*service),
{
    let mut spec = owned("# Repo Setup Fix-Loop Spec\n\n");
    push_str(&mut spec, "Service: `");
    push_str(&mut spec, service.name.as_str());
    push_str(&mut spec, "` (id `");
    push_str(&mut spec, service.id.as_str());
    push_str(&mut spec, "`)\n\n");
    push_str(&mut spec, "## Roles\n\n- **Runner subagent** — invokes `ws ai run repo.run` for a single command, reads the structured result, decides pass/fail.\n- **Implementor subagent** — spawned by the runner on failure to edit the repo (scripts/config/code) so the next run passes. Reports a short diff summary back to the runner.\n\n## Loop contract (per command)\n\n1. Runner calls `ws ai run repo.run --input <json>` with `{service_id, repo_path, command, timeout}` (run the command for THIS service + repo_path).\n2. Pass condition: `smoke_passed == true && timed_out == false`.\n3. On failure: runner spawns implementor subagent with the failing command, `stdout_tail`/`stderr_tail`, and the relevant remediation template from `workflows/repo-init.md`. Implementor fixes the repo only (never edits the catalog here — that is a separate `catalog.service.update` call the runner makes after the command passes).\n4. Runner re-runs `repo.run`. Repeat up to **N=4 attempts**. If still failing after the cap, the runner reports the gap and halts (do not silently succeed).\n5. On pass: runner records the declaration via `ws ai run catalog.service.update` if the command was newly added, then advances to the next command.\n\n**`deploy` is excluded** from this loop (locked dangerous; envs/when/triggers live in `workflows/deploy.md`).\n\n## Commands to converge (in order)\n\n| # | command | declared | mode | pass condition |\n|---|---|---|---|---|\n");
    let ghost start = spec@;
    let keys = vec!["install", "dev", "test", "test_integration", "agent_verify"];
    assert(keys@.map_values(|s: &str| s@) =~= loop_commands());
    let mut i: usize = 0;
    while i < keys.len()
        invariant
            keys@.map_values(|s: &str| s@) == loop_commands(),
            i <= keys.len(),
            keys.len() == 5,
            spec@ == start + loop_rows(i as int, service.commands),
        decreases keys.len() - i,
    {
        let key = keys[i];
        assert(keys@.map_values(|s: &str| s@)[i as int] == key@);
        let row = loop_row_string(i, key, &service.commands);
        push_str(&mut spec, row.as_str());
        i += 1;
    }
    push_str(&mut spec, "\n**Notes:**\n- `test_integration` is optional — if absent from the catalog, skip it (the gap is not blocking per the healthcheck).\n- This spec is a *prompt*: `ws` emits it and stops. The harness owns the actual subagent orchestration and repo mutations.\n");
    spec
}

pub struct RepoFixLoopPromptCommand;

impl CommandInfo for RepoFixLoopPromptCommand {
    fn id(&self) -> (s: &'static str)
        ensures
            s@ == "repo.fix_loop.prompt"@,
    {
        "repo.fix_loop.prompt"
    }

    fn description(&self) -> (s: &'static str)
        ensures
            s@ == "Emit a harness-readable markdown spec for the 2-subagent setup fix-loop. ws does NOT run it."@,
    {
        "Emit a harness-readable markdown spec for the 2-subagent setup fix-loop. ws does NOT run it."
    }
}

// ==========================================
// repo.understand.verify
// ==========================================

pub struct RepoUnderstandVerifyInput {
    pub service_id: String,
    /// Path to a working checkout of the repo.
    pub repo_path: String,
    /// The onboarding pull request that adds the workflow and the artifact.
    pub pr_number: u64,
    /// An explicit workflow run to check, in place of the PR's checks.
    pub run_id: Option<u64>,
}

pub struct RepoUnderstandVerifyOutput {
    pub service_id: String,
    pub artifact_ok: bool,
    pub workflow_run_green: bool,
    pub pr_merged: bool,
    pub overall: bool,
    pub evidence: String,
}

/// The top-level shape of a JSON value: the number of elements of an array,
/// of members of an object, or of UTF-8 bytes of a string; or another scalar.
#[derive(Clone, Copy, PartialEq, Eq, Structural, Debug)]
pub enum JsonShape {
    Array(usize),
    Object(usize),
    Text(usize),
    Scalar,
}

/// What `serde_json::from_str::<serde_json::Value>` makes of a text: the
/// shape of the value it parses, or the text of its error.
pub uninterp spec fn json_shape(text: Seq<char>) -> Result<JsonShape, Seq<char>>;

/// `serde_json::from_str` into a `serde_json::Value`, reduced to the shape
/// of the value (array, object and string by their number of elements,
/// members and bytes; any other value a scalar) or the error's `Display`
/// text. The result is named: it is a function of the text.
#[verifier::external_body]
fn parse_json_shape(text: &str) -> (res: Result<JsonShape, String>)
    ensures
        match res {
            Ok(shape) => json_shape(text@) == Ok::<JsonShape, Seq<char>>(shape),
            Err(e) => json_shape(text@) == Err::<JsonShape, Seq<char>>(e@),
        },
{
    match serde_json::from_str::<serde_json::Value>(text) {
        Ok(serde_json::Value::Array(a)) => Ok(JsonShape::Array(a.len())),
        Ok(serde_json::Value::Object(o)) => Ok(JsonShape::Object(o.len())),
        Ok(serde_json::Value::String(t)) => Ok(JsonShape::Text(t.len())),
        Ok(_) => Ok(JsonShape::Scalar),
        Err(e) => Err(e.to_string()),
    }
}

/// What was read at `.understand-anything/knowledge-graph.json`.
pub enum ArtifactRead {
    Absent,
    /// The file exists but could not be read; the error's text.
    Unreadable(String),
    Text(String),
}

/// A parsed artifact counts when it is not an empty array, object or string.
pub open spec fn shape_non_empty(shape: JsonShape) -> bool {
    match shape {
        JsonShape::Array(n) => n > 0,
        JsonShape::Object(n) => n > 0,
        JsonShape::Text(n) => n > 0,
        JsonShape::Scalar => true,
    }
}

/// The verdict on a parsed artifact (`Ok` shape or parse error) with its
/// evidence.
pub open spec fn parsed_artifact_verdict(parsed: Result<JsonShape, Seq<char>>) -> (bool, Seq<char>) {
    match parsed {
        Err(e) => (false, "artifact: invalid JSON: "@ + e + "; "@),
        Ok(shape) => if shape_non_empty(shape) {
            (true, "artifact: ok (parses, non-empty); "@)
        } else {
            (false, "artifact: valid JSON but empty collection; "@)
        },
    }
}

/// The artifact is present, parses as JSON and is not empty.
pub open spec fn artifact_verdict(read: ArtifactRead) -> (bool, Seq<char>) {
    match read {
        ArtifactRead::Absent => (
            false,
            "artifact: not found at .understand-anything/knowledge-graph.json; "@,
        ),
        ArtifactRead::Unreadable(e) => (false, "artifact: unreadable: "@ + e@ + "; "@),
        ArtifactRead::Text(c) => if trim(c@).len() == 0 {
            (false, "artifact: present but empty; "@)
        } else {
            parsed_artifact_verdict(json_shape(c@))
        },
    }
}

/// The verdict on a parse outcome, for any outcome the parser may give.
pub fn artifact_parse_verdict(parsed: &Result<JsonShape, String>) -> (res: (bool, String))
    ensures
        (res.0, res.1@) == parsed_artifact_verdict(
            match parsed {
                Ok(s) => Ok::<JsonShape, Seq<char>>(*s),
                Err(e) => Err::<JsonShape, Seq<char>>(e@),
            },
        ),
{
    match parsed {
        Err(e) => {
            let mut ev = owned("artifact: invalid JSON: ");
            push_str(&mut ev, e.as_str());
            push_str(&mut ev, "; ");
            (false, ev)
        },
        Ok(shape) => {
            let non_empty = match shape {
                JsonShape::Array(n) => *n > 0,
                JsonShape::Object(n) => *n > 0,
                JsonShape::Text(n) => *n > 0,
                JsonShape::Scalar => true,
            };
            if non_empty {
                (true, owned("artifact: ok (parses, non-empty); "))
            } else {
                (false, owned("artifact: valid JSON but empty collection; "))
            }
        },
    }
}

/// Point #1, part one: the committed artifact.
pub fn artifact_check(read: &ArtifactRead) -> (res: (bool, String))
    ensures
        (res.0, res.1@) == artifact_verdict(*read),
{
    match read {
        ArtifactRead::Absent => (
            false,
            owned("artifact: not found at .understand-anything/knowledge-graph.json; "),
        ),
        ArtifactRead::Unreadable(e) => {
            let mut ev = owned("artifact: unreadable: ");
            push_str(&mut ev, e.as_str());
            push_str(&mut ev, "; ");
            (false, ev)
        },
        ArtifactRead::Text(c) => {
            if str_trim(c.as_str()).len() == 0 {
                (false, owned("artifact: present but empty; "))
            } else {
                let parsed = parse_json_shape(c.as_str());
                artifact_parse_verdict(&parsed)
            }
        },
    }
}

pub open spec fn ok_no(b: bool) -> Seq<char> {
    if b { "ok"@ } else { "no"@ }
}

/// Point #1, part two, by an explicit workflow run: green when completed
/// with success.
pub fn run_verdict(run_id: u64, status: &str, conclusion: &str) -> (res: (bool, String))
    ensures
        res.0 == (status@ == "completed"@ && conclusion@ == "success"@),
        res.1@ == "run "@ + decimal_text(run_id as nat) + ": status="@ + status@ + " conclusion="@
            + conclusion@ + " -> "@ + ok_no(res.0) + "; "@,
{
    let green = str_eq(status, "completed") && str_eq(conclusion, "success");
    let mut ev = owned("run ");
    push_str(&mut ev, u64_text(run_id).as_str());
    push_str(&mut ev, ": status=");
    push_str(&mut ev, status);
    push_str(&mut ev, " conclusion=");
    push_str(&mut ev, conclusion);
    push_str(&mut ev, " -> ");
    push_str(&mut ev, if green { "ok" } else { "no" });
    push_str(&mut ev, "; ");
    (green, ev)
}

/// A PR check about Understand-Anything: its lowercase name mentions
/// `understand`.
pub open spec fn ua_check(name: Seq<char>) -> bool {
    contains_seq(unicode_str_lower(name), "understand"@)
}

/// Evidence of the Understand-Anything checks among `(name, state)` pairs.
pub open spec fn checks_evidence(checks: Seq<(String, String)>) -> Seq<char>
    decreases checks.len(),
{
    if checks.len() == 0 {
        Seq::empty()
    } else {
        let c = checks.last();
        checks_evidence(checks.drop_last()) + if ua_check(c.0@) {
            "check '"@ + c.0@ + "' state="@ + c.1@ + "; "@
        } else {
            Seq::empty()
        }
    }
}

/// Point #1, part two, by the PR's checks: green when some
/// Understand-Anything check succeeded.
pub fn checks_verdict(checks: &Vec<(String, String)>) -> (res: (bool, String))
    ensures
        res.0 == exists|i: int|
            0 <= i < checks@.len() && ua_check(#[trigger] checks@[i].0@) && ascii_ci_eq(
                checks@[i].1@,
                "success"@,
            ),
        res.1@ == checks_evidence(checks@) + if exists|i: int|
            0 <= i < checks@.len() && ua_check(#[trigger] checks@[i].0@) {
            Seq::empty()
        } else {
            "no PR check mentioning 'understand' found; "@
        },
{
    let mut found = false;
    let mut green = false;
    let mut ev = String::new();
    let mut i: usize = 0;
    while i < checks.len()
        invariant
            i <= checks.len(),
            found == exists|j: int| 0 <= j < i && ua_check(#[trigger] checks@[j].0@),
            green == exists|j: int|
                0 <= j < i && ua_check(#[trigger] checks@[j].0@) && ascii_ci_eq(
                    checks@[j].1@,
                    "success"@,
                ),
            ev@ == checks_evidence(checks@.take(i as int)),
        decreases checks.len() - i,
    {
        let (name, state) = (&checks[i].0, &checks[i].1);
        assert(checks@.take(i + 1).drop_last() =~= checks@.take(i as int));
        let lower = str_to_lowercase(name.as_str());
        if str_contains(lower.as_str(), "understand") {
            found = true;
            if eq_ignore_ascii_case(state.as_str(), "success") {
                green = true;
            }
            push_str(&mut ev, "check '");
            push_str(&mut ev, name.as_str());
            push_str(&mut ev, "' state=");
            push_str(&mut ev, state.as_str());
            push_str(&mut ev, "; ");
        } else {
            assert(ev@ =~= ev@ + Seq::<char>::empty());
        }
        i += 1;
    }
    assert(checks@.take(checks.len() as int) =~= checks@);
    if !found {
        push_str(&mut ev, "no PR check mentioning 'understand' found; ");
    } else {
        assert(ev@ =~= ev@ + Seq::<char>::empty());
    }
    (green, ev)
}

/// Point #1, part three: the PR was merged (and is closed).
pub fn pr_verdict(pr_number: u64, state: &str, merged: bool) -> (res: (bool, String))
    ensures
        res.0 == (merged && ascii_ci_eq(state@, "closed"@)),
        res.1@ == "PR #"@ + decimal_text(pr_number as nat) + ": state="@ + state@ + " merged="@
            + if merged { "true"@ } else { "false"@ } + " -> "@ + ok_no(res.0) + "; "@,
{
    let ok = merged && eq_ignore_ascii_case(state, "closed");
    let mut ev = owned("PR #");
    push_str(&mut ev, u64_text(pr_number).as_str());
    push_str(&mut ev, ": state=");
    push_str(&mut ev, state);
    push_str(&mut ev, " merged=");
    push_str(&mut ev, if merged { "true" } else { "false" });
    push_str(&mut ev, " -> ");
    push_str(&mut ev, if ok { "ok" } else { "no" });
    push_str(&mut ev, "; ");
    (ok, ev)
}

/// The report of `repo.understand.verify`: the three verdicts, their
/// conjunction, and the evidence in order ending with `overall: <bool>`.
pub fn understand_report(
    service_id: String,
    artifact: (bool, String),
    workflow: (bool, String),
    pr: (bool, String),
) -> (out: RepoUnderstandVerifyOutput)
    ensures
        out.service_id == service_id,
        out.artifact_ok == artifact.0,
        out.workflow_run_green == workflow.0,
        out.pr_merged == pr.0,
        out.overall == (artifact.0 && workflow.0 && pr.0),
        out.evidence@ == artifact.1@ + workflow.1@ + pr.1@ + "overall: "@ + if artifact.0 && workflow.0
            && pr.0 {
            "true"@
        } else {
            "false"@
        },
{
    let overall = artifact.0 && workflow.0 && pr.0;
    let mut ev = artifact.1;
    push_str(&mut ev, workflow.1.as_str());
    push_str(&mut ev, pr.1.as_str());
    push_str(&mut ev, "overall: ");
    push_str(&mut ev, if overall { "true" } else { "false" });
    RepoUnderstandVerifyOutput {
        service_id,
        artifact_ok: artifact.0,
        workflow_run_green: workflow.0,
        pr_merged: pr.0,
        overall,
        evidence: ev,
    }
}

pub struct RepoUnderstandVerifyCommand;

impl CommandInfo for RepoUnderstandVerifyCommand {
    fn id(&self) -> (s: &'static str)
        ensures
            s@ == "repo.understand.verify"@,
    {
        "repo.understand.verify"
    }

    fn description(&self) -> (s: &'static str)
        ensures
            s@ == "Verify Point #1 (Understand-Anything): artifact present + Action green + PR merged."@,
    {
        "Verify Point #1 (Understand-Anything): artifact present + Action green + PR merged."
    }
}

} // verus!
