use soro_fuzz::output::{parse, tail};

const CLEAN_COMPLETION: &str = r#"
INFO: Seed: 1234567890
INFO: Loaded 1 modules
#2     INITED cov: 12 ft: 12 corp: 1/1b exec/s: 0 rss: 25Mb
#128   NEW    cov: 34 ft: 40 corp: 5/12b exec/s: 0 rss: 26Mb
#4096  pulse  cov: 34 ft: 40 corp: 5/12b exec/s: 4096 rss: 30Mb
Done 100000 runs in 30 second(s)
"#;

const INVARIANT_VIOLATION: &str = r#"
INFO: Seed: 42
#8192  NEW    cov: 50 ft: 55 corp: 9/40b exec/s: 8192 rss: 32Mb
thread '<unnamed>' panicked at fuzz_targets/counter_fuzz.rs:14:13:
invariant `counter-value-matches-model` violated at step 3: on-chain count 5 != model's expected count 4
note: run with `RUST_BACKTRACE=1` environment variable to display a backtrace
==12345== ERROR: libFuzzer: deadly signal
    #0 0x55d0a1 in __sanitizer_print_stack_trace
    #1 0x4f2b33 in fuzzer::PrintStackTrace()
artifact_prefix='./'; Test unit written to ./artifacts/counter_fuzz/crash-2916ff5c0e0028e8b5b8f5b90bbe3025cee01e10
"#;

const UNDECLARED_PANIC: &str = r#"
INFO: Seed: 7
#16    NEW    cov: 10 ft: 10 corp: 2/4b exec/s: 0 rss: 24Mb
thread '<unnamed>' panicked at fuzz_targets/counter_fuzz.rs:14:13:
invariant `no-undeclared-panic` violated at step 0: attempt to add with overflow
==999== ERROR: libFuzzer: deadly signal
artifact_prefix='./'; Test unit written to ./artifacts/counter_fuzz/crash-abcdef0123456789
"#;

const NON_VIOLATION_CRASH: &str = r#"
INFO: Seed: 1
#3     NEW    cov: 3 ft: 3 corp: 2/2b exec/s: 0 rss: 20Mb
==777== ERROR: libFuzzer: out-of-memory (malloc(4294967296))
   To change the out-of-memory limit use -rss_limit_mb=<N>
artifact_prefix='./'; Test unit written to ./artifacts/counter_fuzz/crash-oom0000000000000
"#;

#[test]
fn clean_completion_has_no_finding_and_reads_iterations_from_done_line() {
    let parsed = parse(CLEAN_COMPLETION, Some(0), false);
    assert_eq!(parsed.iterations, 100_000);
    assert!(!parsed.crashed);
    assert!(parsed.finding.is_none());
    assert!(parsed.artifact_path.is_none());
}

#[test]
fn missing_done_line_falls_back_to_the_highest_counter_seen() {
    let text = "#2 INITED\n#128 NEW\n#4096 pulse\n";
    let parsed = parse(text, Some(0), false);
    assert_eq!(parsed.iterations, 4096);
}

#[test]
fn invariant_violation_is_parsed_with_name_step_and_message() {
    let parsed = parse(INVARIANT_VIOLATION, Some(1), false);

    assert!(parsed.crashed);
    let finding = parsed.finding.expect("should have parsed a finding");
    assert_eq!(finding.invariant, "counter-value-matches-model");
    assert_eq!(finding.step_index, 3);
    assert_eq!(finding.message, "on-chain count 5 != model's expected count 4");

    assert_eq!(
        parsed.artifact_path.as_deref(),
        Some("./artifacts/counter_fuzz/crash-2916ff5c0e0028e8b5b8f5b90bbe3025cee01e10")
    );
}

#[test]
fn undeclared_panic_violation_is_parsed_like_any_other_invariant() {
    let parsed = parse(UNDECLARED_PANIC, Some(1), false);
    let finding = parsed.finding.expect("should have parsed a finding");
    assert_eq!(finding.invariant, "no-undeclared-panic");
    assert_eq!(finding.step_index, 0);
    assert_eq!(finding.message, "attempt to add with overflow");
}

#[test]
fn a_crash_with_no_recognizable_violation_text_falls_back_to_undeclared_panic() {
    let parsed = parse(NON_VIOLATION_CRASH, Some(1), false);
    let finding = parsed.finding.expect("should still record a finding");
    assert_eq!(finding.invariant, "undeclared_panic");
    assert!(
        finding.message.contains("out-of-memory"),
        "message was: {:?}",
        finding.message
    );
    assert!(parsed.artifact_path.is_some());
}

#[test]
fn a_timeout_is_never_treated_as_a_crash_even_with_a_nonzero_exit_code() {
    let parsed = parse(INVARIANT_VIOLATION, Some(1), true);
    assert!(!parsed.crashed);
    assert!(parsed.finding.is_none());
}

#[test]
fn a_missing_exit_code_is_not_treated_as_a_crash() {
    let parsed = parse(CLEAN_COMPLETION, None, false);
    assert!(!parsed.crashed);
}

#[test]
fn tail_returns_the_whole_string_when_shorter_than_the_limit() {
    assert_eq!(tail("short", 100), "short");
}

#[test]
fn tail_truncates_to_a_char_boundary_without_panicking() {
    let text = "a".repeat(50) + "🦀🦀🦀" + &"b".repeat(50);
    let truncated = tail(&text, 10);
    assert!(truncated.len() <= 13);
    assert!(truncated.ends_with('b'));
}

#[test]
fn a_violation_written_by_a_fuzz_target_reads_back() {
    let v = soro_fuzz::violation::Violation {
        invariant: "supply-conservation".to_string(),
        message: "sum of balances (3) != total supply (4)".to_string(),
        step_index: 12,
    };
    let text = format!("panicked:\n{}\n", v.to_string());
    let parsed = parse(&text, Some(77), false);
    let finding = parsed.finding.expect("a crash with a violation line");
    assert_eq!(finding.invariant, v.invariant);
    assert_eq!(finding.step_index, 12);
    assert_eq!(finding.message, v.message);
}

#[test]
fn a_zero_exit_code_is_not_a_crash_even_with_violation_text() {
    let parsed = parse(INVARIANT_VIOLATION, Some(0), false);
    assert!(!parsed.crashed);
    assert!(parsed.finding.is_none());
}

#[test]
fn tail_trims_surrounding_whitespace() {
    assert_eq!(tail("  padded line \n", 100), "padded line");
}

#[test]
fn tail_counts_characters_not_bytes() {
    assert_eq!(tail("🦀🦀", 1), "🦀");
    assert_eq!(tail("ab🦀cd", 3), "🦀cd");
    assert_eq!(tail("anything", 0), "");
}

#[test]
fn tail_of_a_tail_is_itself() {
    let text = "  first line\nsecond line  \n\n";
    let once = tail(text, 12);
    assert_eq!(once, "ond line");
    assert_eq!(tail(&once, 12), once);
}
