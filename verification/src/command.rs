//! The generated action model: what executing one command against the
//! contract came to ([`Outcome`]), a command bundled with an arbitrary auth
//! subset and an optional time advance ([`Step`]), and a sequence of steps
//! ([`Run`]).

use vstd::prelude::*;

use crate::auth::AuthSelection;
use crate::text::{decimal, push_decimal, push_str};

verus! {

/// Why the host failed a contract call other than through the contract's
/// declared error type: the shape of `soroban_sdk::InvokeError`, which the
/// harness converts into this one.
#[derive(Debug, Clone, Copy, PartialEq, Eq)]
pub enum InvokeError {
    /// The contract panicked, a host function failed, or a runtime error
    /// occurred. A failed `require_auth` looks exactly like this too.
    Abort,
    /// The contract returned an error code that did not convert into its
    /// declared error type.
    Contract(u32),
}

/// The `Debug` text of an [`InvokeError`]: `Abort`, or `Contract(N)`.
pub open spec fn invoke_error_text(e: InvokeError) -> Seq<char> {
    match e {
        InvokeError::Abort => "Abort"@,
        InvokeError::Contract(code) => "Contract("@ + decimal(code as nat) + ")"@,
    }
}

/// The message of the finding an abort becomes when every address the call
/// needed had authorized it.
pub open spec fn undeclared_abort_text(e: InvokeError) -> Seq<char> {
    "host aborted the call ("@ + invoke_error_text(e)
        + ") despite every required address being authorized \u{2014} soroban-sdk represents both a failed require_auth and an undeclared contract panic as InvokeError::Abort, and auth was satisfied here, so this can only be the latter"@
}

/// Appends `invoke_error_text(e)` to `out`.
pub fn push_invoke_error_text(out: &mut String, e: InvokeError)
    ensures
        final(out)@ == old(out)@ + invoke_error_text(e),
{
    match e {
        InvokeError::Abort => push_str(out, "Abort"),
        InvokeError::Contract(code) => {
            push_str(out, "Contract(");
            push_decimal(out, code as u128);
            push_str(out, ")");
            assert(out@ =~= old(out)@ + invoke_error_text(e));
        },
    }
}

/// What happened when a command was executed.
#[derive(Debug, Clone)]
pub enum Outcome {
    /// The call succeeded.
    Success,
    /// The call failed with an error the contract declares: expected,
    /// well-behaved failure, not a finding.
    DeclaredError(u32),
    /// The host rejected the call, and the harness had deliberately withheld
    /// auth the call required: the benign shape of a failed `require_auth`.
    /// Only [`Outcome::from_try_result`] (or a command that likewise knows
    /// auth was withheld) builds this.
    Rejected(String),
    /// The call panicked outside the contract's declared errors, or the host
    /// aborted it although auth was satisfied. Always a finding.
    UndeclaredPanic(String),
}

impl Outcome {
    pub open spec fn spec_is_ok(&self) -> bool {
        self is Success
    }

    #[verifier::when_used_as_spec(spec_is_ok)]
    pub fn is_ok(&self) -> (r: bool)
        ensures
            r == self is Success,
    {
        match self {
            Outcome::Success => true,
            _ => false,
        }
    }

    /// Classifies the result of a generated client's `try_*` call.
    ///
    /// The host reports a failed `require_auth` and an undeclared contract
    /// panic identically, as `InvokeError::Abort`; the caller supplies what
    /// tells them apart: `required_auth_satisfied`, whether this call needed
    /// no auth or had every required address authorize it. When it did, a
    /// host failure cannot be an auth rejection and is an
    /// [`Outcome::UndeclaredPanic`]; otherwise it is [`Outcome::Rejected`].
    /// A declared error becomes its code through `code_of`. A value that
    /// fails to convert (`Ok(Err(_))`) is a panic, so it is left out.
    pub fn from_try_result<T, ConvErr, E, F: FnOnce(E) -> u32>(
        result: Result<Result<T, ConvErr>, Result<E, InvokeError>>,
        required_auth_satisfied: bool,
        code_of: F,
    ) -> (r: Outcome)
        requires
            !(result matches Ok(Err(_))),
            result matches Err(Ok(e)) ==> code_of.requires((e,)),
        ensures
            result matches Ok(Ok(_)) ==> r is Success,
            result matches Err(Ok(e)) ==> (r matches Outcome::DeclaredError(code) && code_of.ensures(
                (e,),
                code,
            )),
            result matches Err(Err(ie)) ==> if required_auth_satisfied {
                r matches Outcome::UndeclaredPanic(m) && m@ == undeclared_abort_text(ie)
            } else {
                r matches Outcome::Rejected(m) && m@ == invoke_error_text(ie)
            },
    {
        match result {
            Ok(Ok(_)) => Outcome::Success,
            Ok(Err(_)) => {
                assert(false);
                Outcome::Success
            },
            Err(Ok(e)) => Outcome::DeclaredError(code_of(e)),
            Err(Err(invoke_err)) => {
                if required_auth_satisfied {
                    let mut m = String::new();
                    push_str(&mut m, "host aborted the call (");
                    push_invoke_error_text(&mut m, invoke_err);
                    push_str(
                        &mut m,
                        ") despite every required address being authorized \u{2014} soroban-sdk represents both a failed require_auth and an undeclared contract panic as InvokeError::Abort, and auth was satisfied here, so this can only be the latter",
                    );
                    assert(m@ =~= undeclared_abort_text(invoke_err));
                    Outcome::UndeclaredPanic(m)
                } else {
                    let mut m = String::new();
                    push_invoke_error_text(&mut m, invoke_err);
                    assert(m@ =~= invoke_error_text(invoke_err));
                    Outcome::Rejected(m)
                }
            },
        }
    }
}

/// One generated step of a run: a command, who authorizes it, and how many
/// seconds to advance the ledger's clock before executing it.
#[derive(Debug, Clone)]
pub struct Step<C> {
    pub command: C,
    pub authorized: AuthSelection,
    pub advance_time: Option<u32>,
}

/// A sequence of steps to execute against one fresh contract instance. Its
/// length is generated freely and cut to the harness's `commands_per_run`
/// when it runs.
#[derive(Debug, Clone)]
pub struct Run<C> {
    pub steps: Vec<Step<C>>,
}

} // verus!
