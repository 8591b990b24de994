use soro_fuzz::runner::{
    DockerExecSandbox, MockRunner, ProgressEvent, RunFinding, RunJob, RunOutcome, RunnerError,
    SandboxOutput, SubprocessRunner,
};
use soro_fuzz::store::RunStatus;

fn runner(sanitizer: Option<&str>) -> SubprocessRunner {
    SubprocessRunner::new(
        "/fuzz".to_string(),
        "nightly".to_string(),
        sanitizer.map(str::to_string),
        60,
    )
}

fn job() -> RunJob {
    RunJob {
        run_id: 1,
        campaign_id: 2,
        fuzz_target_name: "counter_fuzz".to_string(),
        invariant_ids: vec!["counter-value-matches-model".to_string()],
        time_budget_secs: 30,
    }
}

#[test]
fn builds_the_documented_command_without_a_sanitizer() {
    let args = runner(None).build_args(&job());
    assert_eq!(
        args,
        vec!["+nightly", "fuzz", "run", "counter_fuzz", "--", "-max_total_time=30"]
    );
}

#[test]
fn builds_the_documented_command_with_a_sanitizer() {
    let args = runner(Some("thread")).build_args(&job());
    assert_eq!(
        args,
        vec![
            "+nightly",
            "fuzz",
            "run",
            "--sanitizer=thread",
            "counter_fuzz",
            "--",
            "-max_total_time=30",
        ]
    );
}

#[test]
fn the_logged_command_line_joins_the_arguments() {
    let r = runner(None);
    let args = r.build_args(&job());
    assert_eq!(
        r.command_line(&args),
        "cargo +nightly fuzz run counter_fuzz -- -max_total_time=30"
    );
}

#[test]
fn docker_exec_runs_the_program_in_the_container_workdir() {
    let sandbox = DockerExecSandbox {
        container: "toolchain".to_string(),
    };
    let args = sandbox.docker_args("cargo", &["fuzz".to_string(), "run".to_string()], "/work/fuzz");
    assert_eq!(args, vec!["exec", "-w", "/work/fuzz", "toolchain", "cargo", "fuzz", "run"]);
}

#[test]
fn a_sandbox_timeout_is_a_runner_failure_with_the_output_tail() {
    let output = SandboxOutput {
        stdout: "partial".to_string(),
        stderr: "more".to_string(),
        exit_code: None,
        timed_out: true,
    };
    let (events, result) = runner(None).complete(&job(), &output);
    assert!(events.is_empty());
    match result {
        Err(RunnerError::Failed(m)) => assert_eq!(
            m,
            "sandbox timeout (60s) exceeded before `cargo fuzz run` finished; tail: partial\nmore"
        ),
        Ok(_) => panic!("a timeout must not complete"),
    }
}

#[test]
fn a_crash_becomes_one_finding_and_two_events() {
    let output = SandboxOutput {
        stdout: String::new(),
        stderr: "#8192 NEW\ninvariant `no-negative-balance` violated at step 4: balance of A went negative: -1\nTest unit written to ./artifacts/token_fuzz/crash-1\n".to_string(),
        exit_code: Some(77),
        timed_out: false,
    };
    let (events, result) = runner(None).complete(&job(), &output);
    assert_eq!(events.len(), 2);
    assert!(matches!(events[0], ProgressEvent::Iterations { count: 8192, elapsed_secs: 30 }));
    assert!(matches!(events[1], ProgressEvent::Finding { step_index: 4, .. }));
    let result = result.unwrap();
    assert_eq!(result.outcome, RunOutcome::Completed);
    assert_eq!(result.iterations, 8192);
    assert_eq!(result.findings.len(), 1);
    assert_eq!(result.findings[0].invariant, "no-negative-balance");
    assert_eq!(result.findings[0].artifact_path, "./artifacts/token_fuzz/crash-1");
}

#[test]
fn a_clean_run_reports_iterations_only() {
    let output = SandboxOutput {
        stdout: "Done 500 runs in 30 second(s)".to_string(),
        stderr: String::new(),
        exit_code: Some(0),
        timed_out: false,
    };
    let (events, result) = runner(None).complete(&job(), &output);
    assert_eq!(events.len(), 1);
    let result = result.unwrap();
    assert_eq!(result.iterations, 500);
    assert!(result.findings.is_empty());
    assert_eq!(result.log_tail.as_deref(), Some("Done 500 runs in 30 second(s)"));
}

#[test]
fn mock_runner_reports_running_then_its_findings() {
    let finding = RunFinding {
        invariant: "counter-value-matches-model".to_string(),
        message: "mismatch".to_string(),
        step_index: -3,
        sequence: Vec::new(),
        shrunk_input: None,
        artifact_path: "fuzz/artifacts/counter_fuzz/crash-abc".to_string(),
    };
    let (events, result) = MockRunner::succeeds_with(1234, vec![finding]).run(&job());
    assert_eq!(events.len(), 3);
    assert!(matches!(events[0], ProgressEvent::Status(RunStatus::Running)));
    assert!(matches!(events[1], ProgressEvent::Iterations { count: 1234, elapsed_secs: 0 }));
    assert!(matches!(events[2], ProgressEvent::Finding { step_index: 0, .. }));
    let result = result.unwrap();
    assert_eq!(result.findings.len(), 1);
    assert_eq!(result.log_tail.as_deref(), Some("mock runner: completed"));
}

#[test]
fn mock_runner_failure_and_cancellation() {
    let (events, result) = MockRunner::always_fails("boom".to_string()).run(&job());
    assert_eq!(events.len(), 1);
    match result {
        Err(e) => assert_eq!(e.to_string(), "runner failed: boom"),
        Ok(_) => panic!("should fail"),
    }
    let (_, result) = MockRunner::cancelled_after(5).run(&job());
    let result = result.unwrap();
    assert_eq!(result.outcome, RunOutcome::Cancelled);
    assert_eq!(result.iterations, 5);
    assert_eq!(result.log_tail.as_deref(), Some("mock runner: cancelled"));
}
