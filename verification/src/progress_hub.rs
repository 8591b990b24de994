//! Which runs have a live progress channel: one per run being worked on,
//! opened when its worker starts publishing and dropped when the run is
//! done, so the registry does not grow by a run forever.
//!
//! The channel itself (a broadcast sender) is whatever the caller makes;
//! this module only keeps them by run.

use std::collections::HashMap;

use vstd::prelude::*;

verus! {

broadcast use vstd::std_specs::hash::group_hash_axioms;

/// The open channels, by run id.
#[derive(Debug)]
pub struct ProgressHub<S> {
    channels: HashMap<u128, S>,
}

impl<S> View for ProgressHub<S> {
    type V = Map<u128, S>;

    closed spec fn view(&self) -> Map<u128, S> {
        self.channels@
    }
}

impl<S> ProgressHub<S> {
    /// No open channels.
    pub fn new() -> (r: Self)
        ensures
            r@ == Map::<u128, S>::empty(),
    {
        ProgressHub { channels: HashMap::new() }
    }

    /// The channel of run `run_id`, if it is open.
    pub fn channel(&self, run_id: u128) -> (r: Option<&S>)
        ensures
            r is Some <==> self@.contains_key(run_id),
            r matches Some(s) ==> *s == self@[run_id],
    {
        self.channels.get(&run_id)
    }

    /// A handle on run `run_id`'s channel: a clone of the open one, or of a
    /// new one made by `open` (which is then kept) if there is none.
    pub fn publisher<F: FnOnce() -> S>(&mut self, run_id: u128, open: F) -> (r: S) where S: Clone
        requires
            open.requires(()),
        ensures
            old(self)@.contains_key(run_id) ==> final(self)@ == old(self)@ && cloned::<S>(
                old(self)@[run_id],
                r,
            ),
            !old(self)@.contains_key(run_id) ==> exists|made: S|
                open.ensures((), made) && final(self)@ == old(self)@.insert(run_id, made) && cloned::<S>(
                    made,
                    r,
                ),
    {
        match self.channels.get(&run_id) {
            Some(s) => s.clone(),
            None => {
                let made = open();
                let handle = made.clone();
                let ghost kept = made;
                self.channels.insert(run_id, made);
                assert(open.ensures((), kept) && cloned::<S>(kept, handle));
                handle
            },
        }
    }

    /// Drops run `run_id`'s channel, if it is open.
    pub fn close(&mut self, run_id: u128)
        ensures
            final(self)@ == old(self)@.remove(run_id),
    {
        self.channels.remove(&run_id);
    }
}

} // verus!
