//! Executing one campaign's fuzz budget: the job a runner gets, what it
//! reports while it works and when it is done, and the two runners — the
//! real one, which runs `cargo fuzz run` in a sandbox and reads its output,
//! and a canned one for exercising the rest of the backend without a
//! toolchain.

use vstd::prelude::*;

use crate::output::{crashed, parse, reported_finding, tail_of, ParsedRun};
use crate::store::{FindingStep, RunStatus};
use crate::text::{decimal, push_decimal, push_str, same_text};

verus! {

/// Bytes of output kept as a run's log tail.
pub const LOG_TAIL_CHARS: usize = 4000;

/// Everything a runner needs to execute one campaign's budget.
#[derive(Debug, Clone)]
pub struct RunJob {
    pub run_id: u128,
    pub campaign_id: u128,
    pub fuzz_target_name: String,
    pub invariant_ids: Vec<String>,
    pub time_budget_secs: u32,
}

#[derive(Debug, Clone, Copy, PartialEq, Eq, Structural)]
pub enum RunOutcome {
    Completed,
    Cancelled,
}

/// One reproducible failing case a runner found.
#[derive(Debug)]
pub struct RunFinding {
    pub invariant: String,
    pub message: String,
    pub step_index: i32,
    pub sequence: Vec<FindingStep>,
    pub shrunk_input: Option<Vec<u8>>,
    pub artifact_path: String,
}

impl RunFinding {
    /// The two findings name the same invariant, message, step, step count
    /// and artifact.
    pub open spec fn same_fields(self, other: RunFinding) -> bool {
        &&& self.invariant == other.invariant
        &&& self.message == other.message
        &&& self.step_index == other.step_index
        &&& self.sequence@.len() == other.sequence@.len()
        &&& (self.shrunk_input is Some <==> other.shrunk_input is Some)
        &&& self.artifact_path == other.artifact_path
    }
}

impl Clone for RunFinding {
    fn clone(&self) -> (r: Self)
        ensures
            r.same_fields(*self),
    {
        RunFinding {
            invariant: self.invariant.clone(),
            message: self.message.clone(),
            step_index: self.step_index,
            sequence: self.sequence.clone(),
            shrunk_input: self.shrunk_input.clone(),
            artifact_path: self.artifact_path.clone(),
        }
    }
}

#[derive(Debug)]
pub struct RunResult {
    pub outcome: RunOutcome,
    pub iterations: i64,
    pub findings: Vec<RunFinding>,
    pub log_tail: Option<String>,
}

/// The runner could not execute the job; the text says why.
#[derive(Debug, Clone)]
pub enum RunnerError {
    Failed(String),
}

impl RunnerError {
    pub open spec fn spec_text(&self) -> Seq<char> {
        match self {
            RunnerError::Failed(m) => "runner failed: "@ + m@,
        }
    }

    /// The error's message: `runner failed: {reason}`.
    pub fn to_string(&self) -> (r: String)
        ensures
            r@ == self.spec_text(),
    {
        match self {
            RunnerError::Failed(m) => {
                let mut r = String::from_str("runner failed: ");
                push_str(&mut r, m.as_str());
                r
            },
        }
    }
}

#[derive(Debug, Clone, Copy, PartialEq, Eq, Structural)]
pub enum LogLevel {
    Info,
    Warn,
    Error,
}

/// What a runner reports while it executes a job.
#[derive(Debug, Clone)]
pub enum ProgressEvent {
    Iterations { count: u64, elapsed_secs: u64 },
    Log { line: String, level: LogLevel },
    Finding { invariant: String, step_index: u32 },
    Status(RunStatus),
}

/// What a sandboxed command came to. `exit_code` is `None` when the
/// process never exited on its own (it was killed at the timeout, or the
/// platform reported no code).
#[derive(Debug, Clone, Default)]
pub struct SandboxOutput {
    pub stdout: String,
    pub stderr: String,
    pub exit_code: Option<i32>,
    pub timed_out: bool,
}

/// The sandbox could not even start the command; the text is the system's
/// reason. A nonzero exit or a timeout is not an error: a crash is a
/// successful run from the sandbox's point of view.
#[derive(Debug, Clone)]
pub enum SandboxError {
    Spawn(String),
}

impl SandboxError {
    pub open spec fn spec_text(&self) -> Seq<char> {
        match self {
            SandboxError::Spawn(m) => "failed to spawn subprocess: "@ + m@,
        }
    }

    /// The error's message: `failed to spawn subprocess: {reason}`.
    pub fn to_string(&self) -> (r: String)
        ensures
            r@ == self.spec_text(),
    {
        match self {
            SandboxError::Spawn(m) => {
                let mut r = String::from_str("failed to spawn subprocess: ");
                push_str(&mut r, m.as_str());
                r
            },
        }
    }
}

/// Runs the command directly as a child of the server process.
#[derive(Debug, Clone, Copy)]
pub struct LocalSandbox;

/// Runs the command inside an already-running container via `docker exec`;
/// the working directory is a path inside that container.
#[derive(Debug, Clone)]
pub struct DockerExecSandbox {
    pub container: String,
}

impl DockerExecSandbox {
    /// The arguments `docker` is started with to run `program args` in
    /// `cwd` inside the container: `exec -w <cwd> <container> <program>
    /// <args...>`.
    pub fn docker_args(&self, program: &str, args: &[String], cwd: &str) -> (r: Vec<String>)
        ensures
            r@.len() == 5 + args@.len(),
            r@[0]@ == "exec"@,
            r@[1]@ == "-w"@,
            r@[2]@ == cwd@,
            r@[3]@ == self.container@,
            r@[4]@ == program@,
            forall|i: int| 0 <= i < args@.len() ==> r@[5 + i] == args@[i],
    {
        let mut r: Vec<String> = Vec::new();
        r.push(String::from_str("exec"));
        r.push(String::from_str("-w"));
        r.push(String::from_str(cwd));
        r.push(self.container.clone());
        r.push(String::from_str(program));
        let mut i: usize = 0;
        while i < args.len()
            invariant
                i <= args@.len(),
                r@.len() == 5 + i,
                r@[0]@ == "exec"@,
                r@[1]@ == "-w"@,
                r@[2]@ == cwd@,
                r@[3]@ == self.container@,
                r@[4]@ == program@,
                forall|k: int| 0 <= k < i ==> r@[5 + k] == args@[k],
            decreases args.len() - i,
        {
            r.push(args[i].clone());
            i = i + 1;
        }
        r
    }
}

/// The arguments `cargo` is started with for a job:
/// `+<toolchain> fuzz run [--sanitizer=<sanitizer>] <target> --
/// -max_total_time=<budget>`.
pub open spec fn fuzz_args(toolchain: Seq<char>, sanitizer: Option<Seq<char>>, target: Seq<char>, budget: nat) -> Seq<Seq<char>> {
    let head = seq!["+"@ + toolchain, "fuzz"@, "run"@];
    let with_sanitizer = match sanitizer {
        Some(s) => head.push("--sanitizer="@ + s),
        None => head,
    };
    with_sanitizer.push(target).push("--"@).push("-max_total_time="@ + decimal(budget))
}

/// The view of a list of texts.
pub open spec fn texts(v: Seq<String>) -> Seq<Seq<char>> {
    v.map_values(|s: String| s@)
}

/// Each argument preceded by one space, all run together.
pub open spec fn spaced(args: Seq<Seq<char>>) -> Seq<char>
    decreases args.len(),
{
    if args.len() == 0 {
        Seq::empty()
    } else {
        spaced(args.drop_last()) + " "@ + args.last()
    }
}

/// The `Debug` text of a whole number of seconds as a `Duration`: `{n}s`.
pub open spec fn seconds_text(n: nat) -> Seq<char> {
    decimal(n) + "s"@
}

/// The text a runner reads: stdout and stderr, joined by a line break.
pub open spec fn combined_output(stdout: Seq<char>, stderr: Seq<char>) -> Seq<char> {
    stdout + "\n"@ + stderr
}

/// The real runner's settings: where the `cargo fuzz` workspace is (as the
/// sandbox sees it), which toolchain and sanitizer to use, and the
/// sandbox's hard time limit in seconds. The sandbox itself is held by
/// whoever runs the job.
#[derive(Debug, Clone)]
pub struct SubprocessRunner {
    pub fuzz_workspace_dir: String,
    pub rust_toolchain: String,
    pub fuzz_sanitizer: Option<String>,
    pub job_timeout_secs: u64,
}

impl SubprocessRunner {
    pub fn new(
        fuzz_workspace_dir: String,
        rust_toolchain: String,
        fuzz_sanitizer: Option<String>,
        job_timeout_secs: u64,
    ) -> (r: Self)
        ensures
            r.fuzz_workspace_dir == fuzz_workspace_dir,
            r.rust_toolchain == rust_toolchain,
            r.fuzz_sanitizer == fuzz_sanitizer,
            r.job_timeout_secs == job_timeout_secs,
    {
        SubprocessRunner { fuzz_workspace_dir, rust_toolchain, fuzz_sanitizer, job_timeout_secs }
    }

    /// The arguments `cargo` is started with for `job`.
    pub fn build_args(&self, job: &RunJob) -> (r: Vec<String>)
        ensures
            texts(r@) == fuzz_args(
                self.rust_toolchain@,
                crate::output::opt_string_view(self.fuzz_sanitizer),
                job.fuzz_target_name@,
                job.time_budget_secs as nat,
            ),
    {
        let mut args: Vec<String> = Vec::new();
        let mut toolchain = String::from_str("+");
        push_str(&mut toolchain, self.rust_toolchain.as_str());
        args.push(toolchain);
        args.push(String::from_str("fuzz"));
        args.push(String::from_str("run"));
        match &self.fuzz_sanitizer {
            Some(sanitizer) => {
                let mut flag = String::from_str("--sanitizer=");
                push_str(&mut flag, sanitizer.as_str());
                args.push(flag);
            },
            None => {},
        }
        args.push(job.fuzz_target_name.clone());
        args.push(String::from_str("--"));
        let mut budget = String::from_str("-max_total_time=");
        push_decimal(&mut budget, job.time_budget_secs as u128);
        args.push(budget);
        proof {
            let expected = fuzz_args(
                self.rust_toolchain@,
                crate::output::opt_string_view(self.fuzz_sanitizer),
                job.fuzz_target_name@,
                job.time_budget_secs as nat,
            );
            assert(texts(args@) =~= expected);
        }
        args
    }

    /// The line logged before the command starts: `cargo <args joined by
    /// spaces>`.
    pub fn command_line(&self, args: &[String]) -> (r: String)
        ensures
            r@ == "cargo"@ + spaced(texts(args@)),
    {
        let mut line = String::from_str("cargo");
        let mut i: usize = 0;
        proof {
            reveal_strlit("cargo");
            assert(texts(args@).subrange(0, 0) =~= Seq::<Seq<char>>::empty());
        }
        while i < args.len()
            invariant
                i <= args.len(),
                line@ == "cargo"@ + spaced(texts(args@).subrange(0, i as int)),
            decreases args.len() - i,
        {
            push_str(&mut line, " ");
            push_str(&mut line, args[i].as_str());
            proof {
                reveal_strlit(" ");
                let prev = texts(args@).subrange(0, i as int);
                let next = texts(args@).subrange(0, i + 1);
                assert(next.drop_last() =~= prev);
                assert(next.last() == args@[i as int]@);
            }
            i = i + 1;
        }
        proof {
            assert(texts(args@).subrange(0, args@.len() as int) =~= texts(args@));
        }
        line
    }

    /// Turns what the sandbox reported into the job's result and the
    /// progress events reported after the command finished.
    ///
    /// A sandbox timeout is the runner's own failure, never a finding: the
    /// result is an error naming the limit and the output's tail, with no
    /// events. Otherwise the output is parsed: one iterations event (count
    /// floored at zero, elapsed time the job's budget), one finding event
    /// and one finding when the run crashed, and the output's tail as the
    /// log.
    pub fn complete(&self, job: &RunJob, output: &SandboxOutput) -> (r: (
        Vec<ProgressEvent>,
        Result<RunResult, RunnerError>,
    ))
        ensures
            ({
                let text = combined_output(output.stdout@, output.stderr@);
                let (events, result) = r;
                if output.timed_out {
                    &&& events@.len() == 0
                    &&& result matches Err(RunnerError::Failed(m)) && m@ == "sandbox timeout ("@
                        + seconds_text(self.job_timeout_secs as nat)
                        + ") exceeded before `cargo fuzz run` finished; tail: "@ + tail_of(
                        text,
                        LOG_TAIL_CHARS as int,
                    )
                } else {
                    let is_crash = crashed(output.exit_code, false);
                    &&& result matches Ok(rr) && {
                        &&& rr.outcome == RunOutcome::Completed
                        &&& rr.iterations as int == crate::output::reported_iterations(text)
                        &&& rr.log_tail matches Some(l) && l@ == tail_of(text, LOG_TAIL_CHARS as int)
                        &&& rr.findings@.len() == if is_crash {
                            1int
                        } else {
                            0
                        }
                        &&& is_crash ==> ({
                            let (inv, step, msg) = reported_finding(text);
                            &&& rr.findings@[0].invariant@ == inv
                            &&& rr.findings@[0].step_index as int == step
                            &&& rr.findings@[0].message@ == msg
                            &&& rr.findings@[0].sequence@.len() == 0
                            &&& rr.findings@[0].shrunk_input is None
                            &&& rr.findings@[0].artifact_path@ == match crate::output::reported_artifact(text) {
                                Some(p) => p,
                                None => Seq::<char>::empty(),
                            }
                        })
                    }
                    &&& events@.len() == if is_crash {
                        2int
                    } else {
                        1
                    }
                    &&& events@[0] matches ProgressEvent::Iterations { count, elapsed_secs } && count
                        as int == (if crate::output::reported_iterations(text) < 0 {
                        0
                    } else {
                        crate::output::reported_iterations(text)
                    }) && elapsed_secs == job.time_budget_secs as u64
                    &&& is_crash ==> (events@[1] matches ProgressEvent::Finding { invariant: inv_name, step_index }
                        && inv_name@ == reported_finding(text).0 && step_index as int == (if reported_finding(text).1 < 0 {
                        0
                    } else {
                        reported_finding(text).1
                    }))
                }
            }),
    {
        let mut combined = String::new();
        push_str(&mut combined, output.stdout.as_str());
        push_str(&mut combined, "\n");
        push_str(&mut combined, output.stderr.as_str());
        assert(combined@ =~= combined_output(output.stdout@, output.stderr@));
        if output.timed_out {
            let mut m = String::from_str("sandbox timeout (");
            push_decimal(&mut m, self.job_timeout_secs as u128);
            push_str(&mut m, "s) exceeded before `cargo fuzz run` finished; tail: ");
            let t = crate::output::tail(combined.as_str(), LOG_TAIL_CHARS);
            push_str(&mut m, t.as_str());
            proof {
                reveal_strlit("s) exceeded before `cargo fuzz run` finished; tail: ");
                reveal_strlit("s");
                reveal_strlit(") exceeded before `cargo fuzz run` finished; tail: ");
                assert(m@ =~= "sandbox timeout ("@ + seconds_text(self.job_timeout_secs as nat)
                    + ") exceeded before `cargo fuzz run` finished; tail: "@ + t@);
            }
            return (Vec::new(), Err(RunnerError::Failed(m)));
        }
        let parsed: ParsedRun = parse(combined.as_str(), output.exit_code, false);
        let mut events: Vec<ProgressEvent> = Vec::new();
        let count: u64 = if parsed.iterations < 0 {
            0
        } else {
            parsed.iterations as u64
        };
        events.push(ProgressEvent::Iterations { count, elapsed_secs: job.time_budget_secs as u64 });
        let mut findings: Vec<RunFinding> = Vec::new();
        match parsed.finding {
            Some(violation) => {
                let step: u32 = if violation.step_index < 0 {
                    0
                } else {
                    violation.step_index as u32
                };
                events.push(
                    ProgressEvent::Finding { invariant: violation.invariant.clone(), step_index: step },
                );
                let artifact_path = match parsed.artifact_path {
                    Some(p) => p,
                    None => String::new(),
                };
                findings.push(
                    RunFinding {
                        invariant: violation.invariant,
                        message: violation.message,
                        step_index: violation.step_index,
                        sequence: Vec::new(),
                        shrunk_input: None,
                        artifact_path,
                    },
                );
            },
            None => {},
        }
        let log_tail = crate::output::tail(combined.as_str(), LOG_TAIL_CHARS);
        (
            events,
            Ok(
                RunResult {
                    outcome: RunOutcome::Completed,
                    iterations: parsed.iterations,
                    findings,
                    log_tail: Some(log_tail),
                },
            ),
        )
    }
}

/// What the canned runner does.
#[derive(Debug, Clone)]
enum Behavior {
    Succeed { iterations: i64, findings: Vec<RunFinding> },
    Cancel { iterations: i64 },
    Fail(String),
}

/// A runner that reports a fixed result at once instead of compiling and
/// running anything: it exists to exercise the worker and store end to
/// end, not to simulate fuzzing.
#[derive(Debug, Clone)]
pub struct MockRunner {
    behavior: Behavior,
}

impl MockRunner {
    pub closed spec fn succeeds_with_spec(&self) -> Option<(i64, Seq<RunFinding>)> {
        match self.behavior {
            Behavior::Succeed { iterations, findings } => Some((iterations, findings@)),
            _ => None,
        }
    }

    pub closed spec fn cancels_after_spec(&self) -> Option<i64> {
        match self.behavior {
            Behavior::Cancel { iterations } => Some(iterations),
            _ => None,
        }
    }

    pub closed spec fn fails_with_spec(&self) -> Option<Seq<char>> {
        match self.behavior {
            Behavior::Fail(m) => Some(m@),
            _ => None,
        }
    }

    /// Completes with no iterations and no findings.
    pub fn always_succeeds() -> (r: Self)
        ensures
            r.succeeds_with_spec() == Some((0i64, Seq::<RunFinding>::empty())),
    {
        MockRunner { behavior: Behavior::Succeed { iterations: 0, findings: Vec::new() } }
    }

    /// Completes with the given iteration count and findings.
    pub fn succeeds_with(iterations: i64, findings: Vec<RunFinding>) -> (r: Self)
        ensures
            r.succeeds_with_spec() == Some((iterations, findings@)),
    {
        MockRunner { behavior: Behavior::Succeed { iterations, findings } }
    }

    /// Fails with the given reason.
    pub fn always_fails(message: String) -> (r: Self)
        ensures
            r.fails_with_spec() == Some(message@),
    {
        MockRunner { behavior: Behavior::Fail(message) }
    }

    /// Reports the run cancelled after the given iteration count.
    pub fn cancelled_after(iterations: i64) -> (r: Self)
        ensures
            r.cancels_after_spec() == Some(iterations),
    {
        MockRunner { behavior: Behavior::Cancel { iterations } }
    }

    /// What the runner reports for any job: the events it emits, in order,
    /// and its result. It always first reports the run `Running`; a
    /// succeeding runner then reports its iterations (floored at zero) and
    /// each finding, and completes with them and the log `mock runner:
    /// completed`; a cancelling one is cancelled with its iterations, no
    /// findings and the log `mock runner: cancelled`; a failing one fails
    /// with its reason.
    pub fn run(&self, job: &RunJob) -> (r: (Vec<ProgressEvent>, Result<RunResult, RunnerError>))
        ensures
            r.0@.len() >= 1,
            r.0@[0] == ProgressEvent::Status(RunStatus::Running),
            self.succeeds_with_spec() matches Some((iterations, findings)) ==> {
                &&& r.0@.len() == 2 + findings.len()
                &&& r.0@[1] matches ProgressEvent::Iterations { count, elapsed_secs } && count as int
                    == (if iterations < 0 {
                    0
                } else {
                    iterations as int
                }) && elapsed_secs == 0
                &&& forall|i: int|
                    0 <= i < findings.len() ==> (#[trigger] r.0@[2 + i] matches ProgressEvent::Finding { invariant: inv_name, step_index } && inv_name == findings[i].invariant && step_index as int == (if findings[i].step_index
                        < 0 {
                        0
                    } else {
                        findings[i].step_index as int
                    }))
                &&& r.1 is Ok
                &&& r.1->Ok_0.outcome == RunOutcome::Completed
                &&& r.1->Ok_0.iterations == iterations
                &&& r.1->Ok_0.findings@.len() == findings.len()
                &&& forall|i: int|
                    0 <= i < findings.len() ==> #[trigger] r.1->Ok_0.findings@[i].same_fields(
                        findings[i],
                    )
                &&& r.1->Ok_0.log_tail is Some
                &&& r.1->Ok_0.log_tail->0@ == "mock runner: completed"@
            },
            self.cancels_after_spec() matches Some(iterations) ==> {
                &&& r.0@.len() == 1
                &&& r.1 is Ok
                &&& r.1->Ok_0.outcome == RunOutcome::Cancelled
                &&& r.1->Ok_0.iterations == iterations
                &&& r.1->Ok_0.findings@.len() == 0
                &&& r.1->Ok_0.log_tail is Some
                &&& r.1->Ok_0.log_tail->0@ == "mock runner: cancelled"@
            },
            self.fails_with_spec() matches Some(m) ==> {
                &&& r.0@.len() == 1
                &&& r.1 matches Err(RunnerError::Failed(e)) && e@ == m
            },
    {
        let mut events: Vec<ProgressEvent> = Vec::new();
        events.push(ProgressEvent::Status(RunStatus::Running));
        match &self.behavior {
            Behavior::Succeed { iterations, findings } => {
                let count: u64 = if *iterations < 0 {
                    0
                } else {
                    *iterations as u64
                };
                events.push(ProgressEvent::Iterations { count, elapsed_secs: 0 });
                let mut copies: Vec<RunFinding> = Vec::new();
                let mut i: usize = 0;
                while i < findings.len()
                    invariant
                        i <= findings@.len(),
                        events@.len() == 2 + i,
                        copies@.len() == i,
                        forall|k: int| 0 <= k < i ==> #[trigger] copies@[k].same_fields(findings@[k]),
                        events@[0] == ProgressEvent::Status(RunStatus::Running),
                        events@[1] matches ProgressEvent::Iterations { count: c, elapsed_secs }
                            && c == count && elapsed_secs == 0,
                        forall|k: int|
                            0 <= k < i ==> (#[trigger] events@[2 + k] matches ProgressEvent::Finding { invariant: inv_name, step_index } && inv_name == findings@[k].invariant && step_index as int == (if findings@[k].step_index
                                < 0 {
                                0
                            } else {
                                findings@[k].step_index as int
                            })),
                    decreases findings.len() - i,
                {
                    let f = &findings[i];
                    let step: u32 = if f.step_index < 0 {
                        0
                    } else {
                        f.step_index as u32
                    };
                    events.push(ProgressEvent::Finding { invariant: f.invariant.clone(), step_index: step });
                    copies.push(f.clone());
                    i = i + 1;
                }
                (
                    events,
                    Ok(
                        RunResult {
                            outcome: RunOutcome::Completed,
                            iterations: *iterations,
                            findings: copies,
                            log_tail: Some(String::from_str("mock runner: completed")),
                        },
                    ),
                )
            },
            Behavior::Cancel { iterations } => (
                events,
                Ok(
                    RunResult {
                        outcome: RunOutcome::Cancelled,
                        iterations: *iterations,
                        findings: Vec::new(),
                        log_tail: Some(String::from_str("mock runner: cancelled")),
                    },
                ),
            ),
            Behavior::Fail(message) => (events, Err(RunnerError::Failed(message.clone()))),
        }
    }
}

} // verus!
