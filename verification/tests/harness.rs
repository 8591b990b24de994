use soro_fuzz::instant::{nanos_since_epoch, seconds_and_nanos};
use soro_fuzz::auth::AuthSelection;
use soro_fuzz::command::{Outcome, Run, Step};
use soro_fuzz::harness::{
    ledger_time, panic_message, Harness, PanicPayload, Phase, RunProgress,
    DEFAULT_ADDRESS_POOL_SIZE, DEFAULT_COMMANDS_PER_RUN,
};
use soro_fuzz::violation::Violation;

/// A check after each step: given the contract's value and the model's.
type Check = fn(i64, i64, usize) -> Result<(), Violation>;

/// Drives a run the way the engine does: execute each step against a
/// counter that adds `delta`, mirror it in a model that adds one, then run
/// every check.
fn drive(harness: &Harness<Check>, run: Run<i64>, panic_at: Option<usize>) -> Result<(), Violation> {
    let (steps, mut progress) = harness.start(run);
    let mut counter: i64 = 0;
    let mut model: i64 = 0;
    while let Some(n) = progress.next_step() {
        let delta = steps[n].command;
        let outcome = if Some(n) == panic_at {
            Outcome::UndeclaredPanic(panic_message(PanicPayload::Str("attempt to add with overflow".to_string())))
        } else {
            counter += delta;
            Outcome::Success
        };
        if !progress.executed(&outcome) {
            break;
        }
        if outcome.is_ok() {
            model += 1;
        }
        let mut go_on = true;
        for check in harness.invariants() {
            if !progress.checked(check(counter, model, n)) {
                go_on = false;
                break;
            }
        }
        if go_on {
            progress.step_passed();
        }
    }
    progress.result().expect("the run is over").clone()
}

fn count_matches_model(actual: i64, expected: i64, step_index: usize) -> Result<(), Violation> {
    if actual != expected {
        return Err(Violation {
            invariant: "broken-counter-value-matches-model".to_string(),
            message: format!("on-chain count {actual} != model's expected count {expected}"),
            step_index,
        });
    }
    Ok(())
}

fn steps(deltas: &[i64]) -> Run<i64> {
    Run {
        steps: deltas
            .iter()
            .map(|d| Step {
                command: *d,
                authorized: AuthSelection::none(),
                advance_time: None,
            })
            .collect(),
    }
}

#[test]
fn undeclared_panic_is_flagged_as_a_violation() {
    let harness: Harness<Check> = Harness::new();
    let violation = drive(&harness, steps(&[1]), Some(0))
        .expect_err("an undeclared panic must be reported as a Violation, not run clean");
    assert_eq!(violation.invariant, "no-undeclared-panic");
    assert_eq!(violation.message, "attempt to add with overflow");
    assert_eq!(violation.step_index, 0);
}

#[test]
fn broken_increment_diverges_from_model_and_is_caught() {
    let harness: Harness<Check> = Harness::new().with_invariant(count_matches_model as Check);
    let violation = drive(&harness, steps(&[2]), None).expect_err(
        "a contract that increments by 2 instead of 1 must diverge from the shadow model",
    );
    assert_eq!(violation.invariant, "broken-counter-value-matches-model");
    assert_eq!(violation.message, "on-chain count 2 != model's expected count 1");
}

#[test]
fn a_run_with_every_step_passing_succeeds() {
    let harness: Harness<Check> = Harness::new().with_invariant(count_matches_model as Check);
    assert!(drive(&harness, steps(&[1, 1, 1]), None).is_ok());
}

#[test]
fn the_run_stops_at_the_first_failing_step() {
    let harness: Harness<Check> = Harness::new().with_invariant(count_matches_model as Check);
    let violation = drive(&harness, steps(&[1, 1, 5, 1]), None).unwrap_err();
    assert_eq!(violation.step_index, 2);
}

#[test]
fn generated_steps_beyond_the_limit_are_dropped() {
    let harness: Harness<Check> = Harness::new().commands_per_run(2).with_invariant(count_matches_model as Check);
    assert_eq!(harness.steps_limit(), 2);
    let (kept, progress) = harness.start(steps(&[1, 1, 9]));
    assert_eq!(kept.len(), 2);
    assert!(matches!(progress.next_step(), Some(0)));
    assert!(drive(&harness, steps(&[1, 1, 9]), None).is_ok());
}

#[test]
fn settings_default_and_never_drop_below_one() {
    let harness: Harness<Check> = Harness::default();
    assert_eq!(harness.steps_limit(), DEFAULT_COMMANDS_PER_RUN);
    assert_eq!(harness.pool_size(), DEFAULT_ADDRESS_POOL_SIZE);
    let harness = harness.commands_per_run(0).address_pool_size(0);
    assert_eq!(harness.steps_limit(), 1);
    assert_eq!(harness.pool_size(), 1);
}

#[test]
fn an_empty_run_succeeds_at_once() {
    let progress = RunProgress::begin(0);
    assert!(progress.next_step().is_none());
    assert!(matches!(progress.result(), Some(Ok(()))));
}

#[test]
fn out_of_turn_events_change_nothing() {
    let mut progress = RunProgress::begin(1);
    assert!(!progress.checked(Ok(())));
    progress.step_passed();
    assert!(matches!(progress.next_step(), Some(0)));
    assert!(progress.executed(&Outcome::DeclaredError(3)));
    assert!(!progress.executed(&Outcome::Success));
    progress.step_passed();
    assert!(matches!(progress.result(), Some(Ok(()))));
    let _ = Phase::Executing(0);
}

#[test]
fn the_ledger_clock_saturates_and_never_goes_back() {
    assert_eq!(ledger_time(100, None), 100);
    assert_eq!(ledger_time(100, Some(5)), 105);
    assert_eq!(ledger_time(u64::MAX - 1, Some(5)), u64::MAX);
}

#[test]
fn panic_payloads_become_messages() {
    assert_eq!(panic_message(PanicPayload::Owned("boom 7".to_string())), "boom 7");
    assert_eq!(panic_message(PanicPayload::Other), "non-string panic payload");
}

#[test]
fn instants_split_into_seconds_and_nanos() {
    assert_eq!(seconds_and_nanos(1_500_000_000), Some((1, 500_000_000)));
    assert_eq!(seconds_and_nanos(-1), Some((-1, 999_999_999)));
    assert_eq!(nanos_since_epoch(-1, 999_999_999), -1);
    assert_eq!(seconds_and_nanos(i128::MAX), None);
}
