//! Ready-made checks that run after every step of a run, over what the
//! shadow model (and the step itself) expose: no balance goes negative,
//! balances add up to the total supply, and a call that needs an address's
//! authorization only succeeds with it.
//!
//! The harness's own guarantee, that no call panics undeclared, is not one
//! of these: it is enforced on every run (see `harness`).

use vstd::prelude::*;
use vstd::std_specs::cmp::PartialEqSpec;

use crate::command::Outcome;
use crate::text::{push_signed_decimal, push_str, signed_decimal};
use crate::violation::Violation;

verus! {

/// What a shadow model with a total supply tells a check.
pub trait HasTotalSupply {
    fn total_supply(&self) -> i128;
}

/// One balance the model tracks: the holder, as its `Debug` text, and the
/// amount.
#[derive(Debug, Clone)]
pub struct HolderBalance {
    pub holder: String,
    pub balance: i128,
}

/// The first of the balances that is negative.
pub open spec fn first_negative(bs: Seq<HolderBalance>, k: int) -> Option<int>
    decreases bs.len() - k,
{
    if k < 0 || k >= bs.len() {
        None
    } else if bs[k].balance < 0 {
        Some(k)
    } else {
        first_negative(bs, k + 1)
    }
}

/// No tracked balance may ever go negative.
#[derive(Debug, Clone, Copy)]
pub struct NoNegativeBalance;

impl NoNegativeBalance {
    /// `no-negative-balance`.
    pub fn name(&self) -> (r: &'static str)
        ensures
            r@ == "no-negative-balance"@,
    {
        "no-negative-balance"
    }

    /// Fails at the first negative balance, in the order the model lists
    /// them: "balance of {holder} went negative: {balance}".
    pub fn check(&self, balances: &[HolderBalance], step_index: usize) -> (r: Result<(), Violation>)
        ensures
            match first_negative(balances@, 0) {
                None => r is Ok,
                Some(k) => r is Err && ({
                    let v = r->Err_0;
                    &&& v.invariant@ == "no-negative-balance"@
                    &&& v.step_index == step_index
                    &&& v.message@ == "balance of "@ + balances@[k].holder@ + " went negative: "@
                        + signed_decimal(balances@[k].balance as int)
                }),
            },
    {
        let mut k: usize = 0;
        while k < balances.len()
            invariant
                k <= balances@.len(),
                first_negative(balances@, 0) == first_negative(balances@, k as int),
            decreases balances.len() - k,
        {
            if balances[k].balance < 0 {
                let mut m = String::from_str("balance of ");
                push_str(&mut m, balances[k].holder.as_str());
                push_str(&mut m, " went negative: ");
                push_signed_decimal(&mut m, balances[k].balance);
                return Err(
                    Violation {
                        invariant: String::from_str("no-negative-balance"),
                        message: m,
                        step_index,
                    },
                );
            }
            k = k + 1;
        }
        Ok(())
    }
}

/// The sum of the first `n` amounts.
pub open spec fn sum_of(xs: Seq<i128>, n: int) -> int
    decreases n,
{
    if n <= 0 {
        0
    } else {
        sum_of(xs, n - 1) + xs[n - 1]
    }
}

/// Every running sum of the amounts fits in an `i128`.
pub open spec fn sums_fit(xs: Seq<i128>) -> bool {
    forall|n: int| 0 <= n <= xs.len() ==> i128::MIN <= #[trigger] sum_of(xs, n) <= i128::MAX
}

/// Whether every running sum of the amounts fits in an `i128`: what adding
/// them up in order needs.
pub fn sums_fit_check(xs: &[i128]) -> (r: bool)
    ensures
        r == sums_fit(xs@),
{
    let mut sum: i128 = 0;
    let mut k: usize = 0;
    while k < xs.len()
        invariant
            k <= xs@.len(),
            sum == sum_of(xs@, k as int),
            forall|n: int| 0 <= n <= k ==> i128::MIN <= #[trigger] sum_of(xs@, n) <= i128::MAX,
        decreases xs.len() - k,
    {
        match sum.checked_add(xs[k]) {
            Some(next) => {
                sum = next;
                k = k + 1;
            },
            None => {
                assert(!(i128::MIN <= sum_of(xs@, k + 1) <= i128::MAX));
                return false;
            },
        }
    }
    true
}

/// The sum of every tracked balance must equal the tracked total supply.
#[derive(Debug, Clone, Copy)]
pub struct SupplyConservation;

impl SupplyConservation {
    /// `supply-conservation`.
    pub fn name(&self) -> (r: &'static str)
        ensures
            r@ == "supply-conservation"@,
    {
        "supply-conservation"
    }

    /// Fails unless the balances add up to the total supply: "sum of
    /// balances ({sum}) != total supply ({total})". The balances are added
    /// in order, and every running sum must fit in an `i128` (an overflow
    /// is a panic, not a finding).
    pub fn check(&self, balances: &[i128], total_supply: i128, step_index: usize) -> (r: Result<
        (),
        Violation,
    >)
        requires
            sums_fit(balances@),
        ensures
            sum_of(balances@, balances@.len() as int) == total_supply <==> r is Ok,
            r is Err ==> ({
                let v = r->Err_0;
                &&& v.invariant@ == "supply-conservation"@
                &&& v.step_index == step_index
                &&& v.message@ == "sum of balances ("@ + signed_decimal(
                    sum_of(balances@, balances@.len() as int),
                ) + ") != total supply ("@ + signed_decimal(total_supply as int) + ")"@
            }),
    {
        let mut sum: i128 = 0;
        let mut k: usize = 0;
        while k < balances.len()
            invariant
                k <= balances@.len(),
                sums_fit(balances@),
                sum == sum_of(balances@, k as int),
            decreases balances.len() - k,
        {
            assert(i128::MIN <= sum_of(balances@, k + 1) <= i128::MAX);
            sum = sum + balances[k];
            k = k + 1;
        }
        if sum != total_supply {
            let mut m = String::from_str("sum of balances (");
            push_signed_decimal(&mut m, sum);
            push_str(&mut m, ") != total supply (");
            push_signed_decimal(&mut m, total_supply);
            push_str(&mut m, ")");
            return Err(
                Violation { invariant: String::from_str("supply-conservation"), message: m, step_index },
            );
        }
        Ok(())
    }
}

/// The address a step's command needed the authorization of, and its
/// `Debug` text.
#[derive(Debug, Clone)]
pub struct RequiredAuthorizer<A> {
    pub address: A,
    pub label: String,
}

/// If a command that names an address it needs the authorization of
/// nonetheless succeeded, that address must be among the step's
/// authorizers. A backstop behind the contract's own `require_auth` calls:
/// it fires only when a bug lets a call through that should have been
/// refused.
#[derive(Debug, Clone, Copy)]
pub struct AuthRequiredForMutation;

impl AuthRequiredForMutation {
    /// `auth-required-for-mutation`.
    pub fn name(&self) -> (r: &'static str)
        ensures
            r@ == "auth-required-for-mutation"@,
    {
        "auth-required-for-mutation"
    }

    /// Passes when the step did not succeed, when its command needs nobody,
    /// or when the needed address is among the authorizers; otherwise
    /// fails: "command succeeded without authorization from required address
    /// {label}". Membership is decided by `A`'s `==`; when that obeys its
    /// specification, the result is exactly as said.
    pub fn check<A: PartialEq>(
        &self,
        last_outcome: &Outcome,
        required: Option<&RequiredAuthorizer<A>>,
        authorizers: &[A],
        step_index: usize,
    ) -> (r: Result<(), Violation>)
        ensures
            !last_outcome.spec_is_ok() ==> r is Ok,
            required is None ==> r is Ok,
            r is Err ==> ({
                let v = r->Err_0;
                &&& v.invariant@ == "auth-required-for-mutation"@
                &&& v.step_index == step_index
                &&& v.message@ == "command succeeded without authorization from required address "@
                    + required->0.label@
            }),
            A::obeys_eq_spec() && last_outcome.spec_is_ok() && required is Some ==> (r is Ok <==> exists|
                i: int,
            |
                0 <= i < authorizers@.len() && (#[trigger] authorizers@[i]).eq_spec(
                    &required->0.address,
                )),
    {
        if !last_outcome.is_ok() {
            return Ok(());
        }
        match required {
            None => Ok(()),
            Some(req) => {
                let mut i: usize = 0;
                while i < authorizers.len()
                    invariant
                        i <= authorizers@.len(),
                        required == Some(req),
                        last_outcome.spec_is_ok(),
                        A::obeys_eq_spec() ==> forall|j: int|
                            0 <= j < i ==> !(#[trigger] authorizers@[j]).eq_spec(&req.address),
                    decreases authorizers.len() - i,
                {
                    if authorizers[i] == req.address {
                        assert(A::obeys_eq_spec() ==> authorizers@[i as int].eq_spec(&req.address));
                        return Ok(());
                    }
                    i = i + 1;
                }
                let mut m = String::from_str(
                    "command succeeded without authorization from required address ",
                );
                push_str(&mut m, req.label.as_str());
                Err(
                    Violation {
                        invariant: String::from_str("auth-required-for-mutation"),
                        message: m,
                        step_index,
                    },
                )
            },
        }
    }
}

} // verus!
