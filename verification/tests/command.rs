use core::convert::Infallible;

use soro_fuzz::command::{InvokeError, Outcome};

type ProbeResult = Result<Result<i64, Infallible>, Result<u32, InvokeError>>;

#[test]
fn success_is_ok() {
    let result: ProbeResult = Ok(Ok(42));
    assert!(Outcome::from_try_result(result, true, |e| e).is_ok());
}

#[test]
fn declared_error_is_declared_error() {
    let result: ProbeResult = Err(Ok(7));
    let outcome = Outcome::from_try_result(result, true, |e| e);
    assert!(matches!(outcome, Outcome::DeclaredError(7)));
}

#[test]
fn abort_with_auth_withheld_is_a_benign_rejection() {
    let result: ProbeResult = Err(Err(InvokeError::Abort));
    let outcome = Outcome::from_try_result(result, false, |e| e);
    assert!(matches!(outcome, Outcome::Rejected(_)));
}

#[test]
fn abort_despite_satisfied_auth_is_an_undeclared_panic() {
    let result: ProbeResult = Err(Err(InvokeError::Abort));
    let outcome = Outcome::from_try_result(result, true, |e| e);
    assert!(matches!(outcome, Outcome::UndeclaredPanic(_)));
}

struct Case {
    name: &'static str,
    required_auth_satisfied: bool,
    result: ProbeResult,
    expect: fn(&Outcome) -> bool,
}

#[test]
fn from_try_result_classifies_every_branch() {
    let cases = [
        Case {
            name: "auth-not-required",
            required_auth_satisfied: true,
            result: Ok(Ok(1)),
            expect: |o| matches!(o, Outcome::Success),
        },
        Case {
            name: "auth-required-and-satisfied",
            required_auth_satisfied: true,
            result: Ok(Ok(2)),
            expect: |o| matches!(o, Outcome::Success),
        },
        Case {
            name: "auth-required-and-withheld",
            required_auth_satisfied: false,
            result: Err(Err(InvokeError::Abort)),
            expect: |o| matches!(o, Outcome::Rejected(_)),
        },
        Case {
            name: "declared-error passthrough",
            required_auth_satisfied: true,
            result: Err(Ok(7)),
            expect: |o| matches!(o, Outcome::DeclaredError(7)),
        },
        Case {
            name: "undeclared panic despite auth satisfied",
            required_auth_satisfied: true,
            result: Err(Err(InvokeError::Abort)),
            expect: |o| matches!(o, Outcome::UndeclaredPanic(_)),
        },
    ];

    for case in cases {
        let outcome = Outcome::from_try_result(case.result, case.required_auth_satisfied, |e| e);
        assert!(
            (case.expect)(&outcome),
            "case {}: unexpected outcome {outcome:?}",
            case.name,
        );
    }
}

#[test]
fn rejected_message_is_the_invoke_error_text() {
    let result: ProbeResult = Err(Err(InvokeError::Contract(12)));
    match Outcome::from_try_result(result, false, |e| e) {
        Outcome::Rejected(m) => assert_eq!(m, "Contract(12)"),
        other => panic!("unexpected outcome {other:?}"),
    }
}

#[test]
fn undeclared_abort_message_names_the_error_and_the_reason() {
    let result: ProbeResult = Err(Err(InvokeError::Abort));
    match Outcome::from_try_result(result, true, |e| e) {
        Outcome::UndeclaredPanic(m) => {
            assert!(m.starts_with("host aborted the call (Abort) despite every required address being authorized"));
            assert!(m.ends_with("so this can only be the latter"));
        }
        other => panic!("unexpected outcome {other:?}"),
    }
}

#[test]
fn declared_error_code_goes_through_the_conversion() {
    let result: ProbeResult = Err(Ok(3));
    let outcome = Outcome::from_try_result(result, true, |e| e * 10);
    assert!(matches!(outcome, Outcome::DeclaredError(30)));
}
