use soro_fuzz::invariants::sums_fit_check;
use soro_fuzz::command::Outcome;
use soro_fuzz::invariants::{
    AuthRequiredForMutation, HolderBalance, NoNegativeBalance, RequiredAuthorizer,
    SupplyConservation,
};

fn holder(name: &str, balance: i128) -> HolderBalance {
    HolderBalance {
        holder: name.to_string(),
        balance,
    }
}

#[test]
fn flags_negative_balance() {
    let balances = vec![holder("Address(A)", -1)];
    assert!(NoNegativeBalance.check(&balances, 0).is_err());
}

#[test]
fn allows_zero_and_positive_balances() {
    let balances = vec![holder("Address(A)", 0), holder("Address(B)", 100)];
    assert!(NoNegativeBalance.check(&balances, 0).is_ok());
}

#[test]
fn negative_balance_message_names_the_first_offender() {
    let balances = vec![holder("A", 3), holder("B", -7), holder("C", -1)];
    let v = NoNegativeBalance.check(&balances, 5).unwrap_err();
    assert_eq!(v.invariant, "no-negative-balance");
    assert_eq!(v.step_index, 5);
    assert_eq!(v.message, "balance of B went negative: -7");
    assert_eq!(NoNegativeBalance.name(), "no-negative-balance");
}

#[test]
fn flags_mismatched_supply() {
    assert!(SupplyConservation.check(&[100], 50, 0).is_err());
}

#[test]
fn allows_matching_supply() {
    assert!(SupplyConservation.check(&[40, 60], 100, 0).is_ok());
}

#[test]
fn supply_message_gives_both_sides() {
    let v = SupplyConservation.check(&[40, 60, -5], 100, 2).unwrap_err();
    assert_eq!(v.invariant, "supply-conservation");
    assert_eq!(v.message, "sum of balances (95) != total supply (100)");
    assert_eq!(v.step_index, 2);
}

fn required(address: u32) -> RequiredAuthorizer<u32> {
    RequiredAuthorizer {
        address,
        label: format!("Address({address})"),
    }
}

#[test]
fn flags_success_without_required_authorizer() {
    let admin = required(1);
    let r = AuthRequiredForMutation.check(&Outcome::Success, Some(&admin), &[], 0);
    assert!(r.is_err());
}

#[test]
fn allows_success_with_required_authorizer_present() {
    let admin = required(1);
    let r = AuthRequiredForMutation.check(&Outcome::Success, Some(&admin), &[1], 0);
    assert!(r.is_ok());
}

#[test]
fn allows_commands_that_dont_require_auth() {
    let r = AuthRequiredForMutation.check::<u32>(&Outcome::Success, None, &[], 0);
    assert!(r.is_ok());
}

#[test]
fn a_failed_call_needs_no_authorizer() {
    let admin = required(1);
    let r = AuthRequiredForMutation.check(&Outcome::Rejected("Abort".to_string()), Some(&admin), &[], 0);
    assert!(r.is_ok());
}

#[test]
fn auth_message_names_the_required_address() {
    let admin = required(9);
    let v = AuthRequiredForMutation
        .check(&Outcome::Success, Some(&admin), &[1, 2], 4)
        .unwrap_err();
    assert_eq!(v.invariant, "auth-required-for-mutation");
    assert_eq!(
        v.message,
        "command succeeded without authorization from required address Address(9)"
    );
    assert_eq!(v.step_index, 4);
}

#[test]
fn running_sums_are_checked_for_overflow() {
    assert!(sums_fit_check(&[1, 2, 3]));
    assert!(sums_fit_check(&[i128::MAX, -1, 1]));
    assert!(!sums_fit_check(&[i128::MAX, 1, -5]));
    assert!(!sums_fit_check(&[i128::MIN, -1]));
}
