//! What a failed run reports.

use vstd::prelude::*;

use crate::text::{decimal, push_decimal, push_str};

verus! {

/// A single invariant failure, reported with enough context to reproduce it.
#[derive(Debug, Clone)]
pub struct Violation {
    /// The name of the invariant that failed (`no-undeclared-panic` for the
    /// harness's own guarantee).
    pub invariant: String,
    pub message: String,
    pub step_index: usize,
}

/// The text a violation is reported as:
/// ``invariant `{invariant}` violated at step {step_index}: {message}``.
pub open spec fn violation_text(invariant: Seq<char>, step_index: nat, message: Seq<char>) -> Seq<char> {
    "invariant `"@ + invariant + "` violated at step "@ + decimal(step_index) + ": "@ + message
}

impl Violation {
    pub open spec fn text(&self) -> Seq<char> {
        violation_text(self.invariant@, self.step_index as nat, self.message@)
    }

    /// Renders the violation the way a fuzz target reports it when it
    /// panics: ``invariant `{invariant}` violated at step {step_index}:
    /// {message}``.
    pub fn to_string(&self) -> (r: String)
        ensures
            r@ == self.text(),
    {
        let mut r = String::new();
        push_str(&mut r, "invariant `");
        push_str(&mut r, self.invariant.as_str());
        push_str(&mut r, "` violated at step ");
        push_decimal(&mut r, self.step_index as u128);
        push_str(&mut r, ": ");
        push_str(&mut r, self.message.as_str());
        assert(r@ =~= self.text());
        r
    }
}

} // verus!
