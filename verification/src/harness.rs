//! The run loop's decisions: how many generated steps run, where the
//! ledger's clock goes, and when a run stops and with what result.
//!
//! A run executes each step in turn against a fresh contract: advance the
//! clock, execute the command, update the shadow model, then check every
//! registered invariant. It stops at the first step whose call panicked
//! undeclared (always a finding, named `no-undeclared-panic`) or whose
//! checks fail, and succeeds once every step has passed. Executing calls,
//! updating the model and running the checks is the caller's part; this
//! module tells it, after each, what comes next.

use vstd::prelude::*;

use crate::command::{Outcome, Run, Step};
use crate::violation::Violation;

verus! {

/// How many generated steps a run executes unless told otherwise.
pub const DEFAULT_COMMANDS_PER_RUN: usize = 32;

/// How many addresses a run's pool holds unless told otherwise.
pub const DEFAULT_ADDRESS_POOL_SIZE: usize = 4;

/// A contract's shadow state: a plain value the commands update alongside
/// the contract and the invariants read.
pub trait ReferenceModel: Clone + core::fmt::Debug {
}

/// What a panic carried, as far as a finding's message goes.
#[derive(Debug, Clone)]
pub enum PanicPayload {
    /// A `&str` payload, as `panic!("literal")` makes.
    Str(String),
    /// A `String` payload, as a formatted `panic!` makes.
    Owned(String),
    /// Anything else.
    Other,
}

/// The message of an undeclared panic: the payload's text, or `non-string
/// panic payload`.
pub fn panic_message(payload: PanicPayload) -> (r: String)
    ensures
        match payload {
            PanicPayload::Str(s) => r == s,
            PanicPayload::Owned(s) => r == s,
            PanicPayload::Other => r@ == "non-string panic payload"@,
        },
{
    match payload {
        PanicPayload::Str(s) => s,
        PanicPayload::Owned(s) => s,
        PanicPayload::Other => String::from_str("non-string panic payload"),
    }
}

/// The ledger's clock after a step's advance: `now` plus the advance,
/// stopping at the clock's greatest value.
pub open spec fn advanced_time(now: u64, advance: Option<u32>) -> u64 {
    match advance {
        None => now,
        Some(secs) => if now + secs > u64::MAX {
            u64::MAX
        } else {
            (now + secs) as u64
        },
    }
}

/// Where the ledger's clock goes for a step (see `advanced_time`). It never
/// goes back.
pub fn ledger_time(now: u64, advance: Option<u32>) -> (r: u64)
    ensures
        r == advanced_time(now, advance),
        r >= now,
{
    match advance {
        None => now,
        Some(secs) => {
            let s: u64 = secs as u64;
            if now > u64::MAX - s {
                u64::MAX
            } else {
                now + s
            }
        },
    }
}

/// Builds and runs property-testing sessions: how many generated steps a
/// run executes, how many addresses its pool holds, and the invariants
/// checked after every step, in the order they were added.
#[derive(Debug)]
pub struct Harness<I> {
    commands_per_run: usize,
    address_pool_size: usize,
    invariants: Vec<I>,
}

impl<I> Harness<I> {
    #[verifier::type_invariant]
    spec fn settings_positive(self) -> bool {
        self.commands_per_run >= 1 && self.address_pool_size >= 1
    }

    pub closed spec fn spec_commands_per_run(self) -> usize {
        self.commands_per_run
    }

    pub closed spec fn spec_address_pool_size(self) -> usize {
        self.address_pool_size
    }

    pub closed spec fn spec_invariants(self) -> Seq<I> {
        self.invariants@
    }

    /// Runs of 32 steps over a pool of 4 addresses, with no invariants.
    pub fn new() -> (r: Self)
        ensures
            r.spec_commands_per_run() == DEFAULT_COMMANDS_PER_RUN,
            r.spec_address_pool_size() == DEFAULT_ADDRESS_POOL_SIZE,
            r.spec_invariants().len() == 0,
    {
        Harness {
            commands_per_run: DEFAULT_COMMANDS_PER_RUN,
            address_pool_size: DEFAULT_ADDRESS_POOL_SIZE,
            invariants: Vec::new(),
        }
    }

    /// At most `n` steps of a generated run execute (at least one); the rest
    /// are dropped.
    pub fn commands_per_run(self, n: usize) -> (r: Self)
        ensures
            r.spec_commands_per_run() == if n < 1 {
                1
            } else {
                n
            },
            r.spec_address_pool_size() == self.spec_address_pool_size(),
            r.spec_invariants() == self.spec_invariants(),
    {
        proof {
            use_type_invariant(&self);
        }
        let Harness { commands_per_run: _, address_pool_size, invariants } = self;
        Harness { commands_per_run: if n < 1 {
            1
        } else {
            n
        }, address_pool_size, invariants }
    }

    /// Each run's pool holds `n` addresses (at least one).
    pub fn address_pool_size(self, n: usize) -> (r: Self)
        ensures
            r.spec_address_pool_size() == if n < 1 {
                1
            } else {
                n
            },
            r.spec_commands_per_run() == self.spec_commands_per_run(),
            r.spec_invariants() == self.spec_invariants(),
    {
        proof {
            use_type_invariant(&self);
        }
        let Harness { commands_per_run, address_pool_size: _, invariants } = self;
        Harness { commands_per_run, address_pool_size: if n < 1 {
            1
        } else {
            n
        }, invariants }
    }

    /// Adds an invariant, checked after every step after those added
    /// before it.
    pub fn with_invariant(self, invariant_check: I) -> (r: Self)
        ensures
            r.spec_invariants() == self.spec_invariants().push(invariant_check),
            r.spec_commands_per_run() == self.spec_commands_per_run(),
            r.spec_address_pool_size() == self.spec_address_pool_size(),
    {
        proof {
            use_type_invariant(&self);
        }
        let Harness { commands_per_run, address_pool_size, invariants } = self;
        let mut invariants = invariants;
        invariants.push(invariant_check);
        Harness { commands_per_run, address_pool_size, invariants }
    }

    /// How many generated steps a run executes at most.
    pub fn steps_limit(&self) -> (r: usize)
        ensures
            r == self.spec_commands_per_run(),
            r >= 1,
    {
        proof {
            use_type_invariant(self);
        }
        self.commands_per_run
    }

    /// How many addresses each run's pool holds.
    pub fn pool_size(&self) -> (r: usize)
        ensures
            r == self.spec_address_pool_size(),
            r >= 1,
    {
        proof {
            use_type_invariant(self);
        }
        self.address_pool_size
    }

    /// The invariants, in the order they are checked.
    pub fn invariants(&self) -> (r: &Vec<I>)
        ensures
            r@ == self.spec_invariants(),
    {
        &self.invariants
    }

    /// The start of a generated run: the steps that execute (the first
    /// `commands_per_run` of them, in order) and the run's progress before
    /// its first step.
    pub fn start<C>(&self, run: Run<C>) -> (r: (Vec<Step<C>>, RunProgress))
        ensures
            r.0@ == run.steps@.take(
                if run.steps@.len() < self.spec_commands_per_run() {
                    run.steps@.len() as int
                } else {
                    self.spec_commands_per_run() as int
                },
            ),
            r.1.wf(),
            r.1.spec_total() == r.0@.len(),
            r.1.spec_total() <= self.spec_commands_per_run(),
            r.1.spec_passed() == 0,
            r.0@.len() == 0 ==> r.1.spec_phase() == Phase::Finished(Ok(())),
            r.0@.len() > 0 ==> r.1.spec_phase() == Phase::Executing(0),
    {
        proof {
            use_type_invariant(self);
        }
        let mut steps = run.steps;
        let ghost generated = steps@;
        if steps.len() > self.commands_per_run {
            steps.truncate(self.commands_per_run);
        }
        proof {
            if generated.len() <= self.commands_per_run {
                assert(generated.take(generated.len() as int) =~= generated);
            }
        }
        let total = steps.len();
        let progress = RunProgress::begin(total);
        (steps, progress)
    }
}

impl<I> Default for Harness<I> {
    fn default() -> (r: Self)
        ensures
            r.spec_commands_per_run() == DEFAULT_COMMANDS_PER_RUN,
            r.spec_address_pool_size() == DEFAULT_ADDRESS_POOL_SIZE,
            r.spec_invariants().len() == 0,
    {
        Harness::new()
    }
}

/// Where a run is.
#[derive(Debug)]
pub enum Phase {
    /// Step `n` is to be executed next (after its clock advance).
    Executing(usize),
    /// Step `n` executed; its model update and checks are under way.
    Checking(usize),
    /// The run is over, with this result.
    Finished(Result<(), Violation>),
}

/// A run's progress through its steps.
#[derive(Debug)]
pub struct RunProgress {
    phase: Phase,
    total: usize,
    passed: usize,
}

/// The violation an undeclared panic at `step` is reported as.
pub open spec fn undeclared_panic_violation(v: Violation, step: usize, message: String) -> bool {
    &&& v.invariant@ == "no-undeclared-panic"@
    &&& v.message == message
    &&& v.step_index == step
}

impl RunProgress {
    pub closed spec fn spec_phase(self) -> Phase {
        self.phase
    }

    /// How many steps the run executes, if none fails.
    pub closed spec fn spec_total(self) -> usize {
        self.total
    }

    /// How many steps passed all their checks.
    pub closed spec fn spec_passed(self) -> usize {
        self.passed
    }

    /// Every step before the current one passed; the current one is one of
    /// the run's; a run succeeded only once every step passed.
    pub open spec fn wf(self) -> bool {
        match self.spec_phase() {
            Phase::Executing(n) => n == self.spec_passed() && n < self.spec_total(),
            Phase::Checking(n) => n == self.spec_passed() && n < self.spec_total(),
            Phase::Finished(result) => {
                &&& self.spec_passed() <= self.spec_total()
                &&& (result is Ok ==> self.spec_passed() == self.spec_total())
                &&& (result is Err ==> self.spec_passed() < self.spec_total())
            },
        }
    }

    /// The progress of a run of `total` steps before its first: a run with
    /// no steps has already succeeded.
    pub fn begin(total: usize) -> (r: Self)
        ensures
            r.wf(),
            r.spec_total() == total,
            r.spec_passed() == 0,
            total == 0 ==> r.spec_phase() == Phase::Finished(Ok(())),
            total > 0 ==> r.spec_phase() == Phase::Executing(0),
    {
        if total == 0 {
            RunProgress { phase: Phase::Finished(Ok(())), total, passed: 0 }
        } else {
            RunProgress { phase: Phase::Executing(0), total, passed: 0 }
        }
    }

    /// The step to execute next, if one is due.
    pub fn next_step(&self) -> (r: Option<usize>)
        ensures
            match self.spec_phase() {
                Phase::Executing(n) => r == Some(n),
                _ => r is None,
            },
    {
        match &self.phase {
            Phase::Executing(n) => Some(*n),
            _ => None,
        }
    }

    /// Records how the current step's call came out. An undeclared panic
    /// ends the run then and there with a `no-undeclared-panic` violation
    /// at that step, carrying the panic's message, whatever invariants are
    /// registered; any other outcome moves on to the model update and
    /// checks. Returns whether to go on with them. Out of turn it changes
    /// nothing.
    pub fn executed(&mut self, outcome: &Outcome) -> (r: bool)
        requires
            old(self).wf(),
        ensures
            final(self).wf(),
            final(self).spec_total() == old(self).spec_total(),
            final(self).spec_passed() == old(self).spec_passed(),
            match old(self).spec_phase() {
                Phase::Executing(n) => match outcome {
                    Outcome::UndeclaredPanic(m) => {
                        &&& !r
                        &&& final(self).spec_phase() matches Phase::Finished(Err(v))
                        &&& undeclared_panic_violation(v, n, *m)
                    },
                    _ => r && final(self).spec_phase() == Phase::Checking(n),
                },
                _ => !r && final(self).spec_phase() == old(self).spec_phase(),
            },
    {
        match &self.phase {
            Phase::Executing(n) => {
                let n = *n;
                match outcome {
                    Outcome::UndeclaredPanic(m) => {
                        self.phase = Phase::Finished(
                            Err(
                                Violation {
                                    invariant: String::from_str("no-undeclared-panic"),
                                    message: m.clone(),
                                    step_index: n,
                                },
                            ),
                        );
                        false
                    },
                    _ => {
                        self.phase = Phase::Checking(n);
                        true
                    },
                }
            },
            _ => false,
        }
    }

    /// Records one invariant's verdict on the current step. A failure ends
    /// the run with that violation; a pass changes nothing. Returns whether
    /// to go on checking. Out of turn it changes nothing.
    pub fn checked(&mut self, verdict: Result<(), Violation>) -> (r: bool)
        requires
            old(self).wf(),
        ensures
            final(self).wf(),
            final(self).spec_total() == old(self).spec_total(),
            final(self).spec_passed() == old(self).spec_passed(),
            match old(self).spec_phase() {
                Phase::Checking(n) => match verdict {
                    Err(v) => !r && final(self).spec_phase() == Phase::Finished(Err(v)),
                    Ok(()) => r && final(self).spec_phase() == old(self).spec_phase(),
                },
                _ => !r && final(self).spec_phase() == old(self).spec_phase(),
            },
    {
        match &self.phase {
            Phase::Checking(_) => match verdict {
                Err(v) => {
                    self.phase = Phase::Finished(Err(v));
                    false
                },
                Ok(()) => true,
            },
            _ => false,
        }
    }

    /// Records that every invariant passed the current step: the run moves
    /// to the next step, or succeeds if that was the last. Out of turn it
    /// changes nothing.
    pub fn step_passed(&mut self)
        requires
            old(self).wf(),
        ensures
            final(self).wf(),
            final(self).spec_total() == old(self).spec_total(),
            match old(self).spec_phase() {
                Phase::Checking(n) => {
                    &&& final(self).spec_passed() == n + 1
                    &&& if n + 1 == old(self).spec_total() {
                        final(self).spec_phase() == Phase::Finished(Ok(()))
                    } else {
                        final(self).spec_phase() == Phase::Executing((n + 1) as usize)
                    }
                },
                _ => final(self).spec_phase() == old(self).spec_phase() && final(self).spec_passed()
                    == old(self).spec_passed(),
            },
    {
        match &self.phase {
            Phase::Checking(n) => {
                let next = *n + 1;
                self.passed = next;
                if next == self.total {
                    self.phase = Phase::Finished(Ok(()));
                } else {
                    self.phase = Phase::Executing(next);
                }
            },
            _ => {},
        }
    }

    /// The run's result, once it is over.
    pub fn result(&self) -> (r: Option<&Result<(), Violation>>)
        ensures
            match self.spec_phase() {
                Phase::Finished(res) => r == Some(&res),
                _ => r is None,
            },
    {
        match &self.phase {
            Phase::Finished(res) => Some(res),
            _ => None,
        }
    }
}

} // verus!
