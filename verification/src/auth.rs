//! The run's address pool and the arbitrary subsets of it that authorize a
//! step.
//!
//! The harness makes a fixed-size pool of addresses once per run, and every
//! step picks an arbitrary subset of that pool to have "signed" it. A
//! subset is kept as raw indices, resolved against the pool (modulo its
//! size) only when the step runs, so generating one never needs to know the
//! pool's size.

use vstd::prelude::*;
use vstd::std_specs::cmp::PartialEqSpec;

verus! {

/// An arbitrary subset of the run's [`AddressPool`], as raw indices that
/// [`AddressPool::resolve`] maps onto the pool modulo its size.
///
/// This is deliberately the only auth-generation primitive: building the
/// actual authorization tree for a contract call is specific to that call,
/// so it lives with each command.
#[derive(Debug, Clone, Default)]
pub struct AuthSelection {
    indices: Vec<u8>,
}

impl View for AuthSelection {
    type V = Seq<u8>;

    closed spec fn view(&self) -> Seq<u8> {
        self.indices@
    }
}

impl AuthSelection {
    /// The empty selection: nobody authorizes the step.
    pub fn none() -> (r: Self)
        ensures
            r@ == Seq::<u8>::empty(),
    {
        AuthSelection { indices: Vec::new() }
    }

    /// A selection of explicit raw pool indices.
    pub fn from_indices(indices: Vec<u8>) -> (r: Self)
        ensures
            r@ == indices@,
    {
        AuthSelection { indices }
    }

    /// The raw indices, in the order they were generated.
    pub fn indices(&self) -> (r: &[u8])
        ensures
            r@ == self@,
    {
        self.indices.as_slice()
    }
}

/// The number of addresses a pool asked for `size` holds: `size`, but at
/// least one.
pub open spec fn pool_size_for(size: usize) -> usize {
    if size == 0 {
        1
    } else {
        size
    }
}

/// Computes `pool_size_for`.
pub fn pool_size(size: usize) -> (r: usize)
    ensures
        r == pool_size_for(size),
{
    if size == 0 {
        1
    } else {
        size
    }
}

/// A fixed, non-empty set of addresses shared by every step of a run.
/// Contract adapters assign roles out of it (by convention, the address at
/// index 0 is the admin).
#[derive(Debug)]
pub struct AddressPool<A> {
    addresses: Vec<A>,
}

/// The pool slot that the raw index `raw` refers to.
pub open spec fn slot_of(raw: u8, len: nat) -> int {
    (raw as int) % (len as int)
}

/// The pool slots that the selection `idx` resolves to, deduplicated by
/// `==` on the addresses they hold, each kept where it first appears.
pub open spec fn resolved_slots<A: PartialEq>(pool: Seq<A>, idx: Seq<u8>) -> Seq<int>
    decreases idx.len(),
{
    if idx.len() == 0 {
        Seq::empty()
    } else {
        let before = resolved_slots(pool, idx.drop_last());
        let k = slot_of(idx.last(), pool.len());
        if exists|j: int| 0 <= j < before.len() && pool[before[j]].eq_spec(&pool[k]) {
            before
        } else {
            before.push(k)
        }
    }
}

/// What resolving a selection yields: pool slots, each one a selected index
/// taken modulo the pool's size, no two holding addresses equal by `==`
/// (the earlier compared with the later), none past the number of indices,
/// and every selected slot either kept or represented by an earlier slot
/// whose address equals its own.
pub proof fn lemma_resolved_slots_are_the_deduplicated_selection<A: PartialEq>(
    pool: Seq<A>,
    idx: Seq<u8>,
)
    requires
        pool.len() >= 1,
    ensures
        resolved_slots(pool, idx).len() <= idx.len(),
        forall|i: int|
            #![trigger resolved_slots(pool, idx)[i]]
            0 <= i < resolved_slots(pool, idx).len() ==> 0 <= resolved_slots(pool, idx)[i] < pool.len()
                && exists|m: int|
                0 <= m < idx.len() && resolved_slots(pool, idx)[i] == (#[trigger] idx[m] as int) % (
                pool.len() as int),
        forall|i: int, j: int|
            0 <= i < j < resolved_slots(pool, idx).len() ==> !pool[#[trigger] resolved_slots(
                pool,
                idx,
            )[i]].eq_spec(&pool[#[trigger] resolved_slots(pool, idx)[j]]),
        forall|m: int|
            0 <= m < idx.len() ==> exists|i: int|
                0 <= i < resolved_slots(pool, idx).len() && (resolved_slots(pool, idx)[i] == (
                #[trigger] idx[m] as int) % (pool.len() as int) || pool[resolved_slots(
                    pool,
                    idx,
                )[i]].eq_spec(&pool[(idx[m] as int) % (pool.len() as int)])),
    decreases idx.len(),
{
    if idx.len() > 0 {
        let rest = idx.drop_last();
        lemma_resolved_slots_are_the_deduplicated_selection(pool, rest);
        let before = resolved_slots(pool, rest);
        let k = slot_of(idx.last(), pool.len());
        let res = resolved_slots(pool, idx);
        assert forall|m: int| 0 <= m < rest.len() implies #[trigger] idx[m] == rest[m] by {}
        if exists|j: int| 0 <= j < before.len() && pool[before[j]].eq_spec(&pool[k]) {
            assert(res == before);
            assert forall|i: int|
                #![trigger res[i]]
                0 <= i < res.len() implies 0 <= res[i] < pool.len() && exists|m: int|
                0 <= m < idx.len() && res[i] == (#[trigger] idx[m] as int) % (pool.len() as int) by {
                let m = choose|m: int|
                    0 <= m < rest.len() && before[i] == (#[trigger] rest[m] as int) % (pool.len() as int);
                assert(idx[m] == rest[m]);
            }
            assert forall|m: int| 0 <= m < idx.len() implies exists|i: int|
                0 <= i < res.len() && (res[i] == (#[trigger] idx[m] as int) % (pool.len() as int)
                    || pool[res[i]].eq_spec(&pool[(idx[m] as int) % (pool.len() as int)])) by {
                if m == idx.len() - 1 {
                    let j = choose|j: int| 0 <= j < before.len() && pool[before[j]].eq_spec(&pool[k]);
                    assert(idx[m] == idx.last());
                } else {
                    assert(idx[m] == rest[m]);
                }
            }
        } else {
            assert(res == before.push(k));
            assert forall|i: int|
                #![trigger res[i]]
                0 <= i < res.len() implies 0 <= res[i] < pool.len() && exists|m: int|
                0 <= m < idx.len() && res[i] == (#[trigger] idx[m] as int) % (pool.len() as int) by {
                if i < before.len() {
                    assert(res[i] == before[i]);
                    let m = choose|m: int|
                        0 <= m < rest.len() && before[i] == (#[trigger] rest[m] as int) % (pool.len() as int);
                    assert(idx[m] == rest[m]);
                } else {
                    assert(res[i] == k);
                    assert(idx[idx.len() - 1] == idx.last());
                }
            }
            assert forall|i: int, j: int|
                0 <= i < j < res.len() implies !pool[#[trigger] res[i]].eq_spec(&pool[#[trigger] res[j]]) by {
                assert(res[i] == before[i]);
                if j < before.len() {
                    assert(res[j] == before[j]);
                } else {
                    assert(res[j] == k);
                }
            }
            assert forall|m: int| 0 <= m < idx.len() implies exists|i: int|
                0 <= i < res.len() && (res[i] == (#[trigger] idx[m] as int) % (pool.len() as int)
                    || pool[res[i]].eq_spec(&pool[(idx[m] as int) % (pool.len() as int)])) by {
                if m == idx.len() - 1 {
                    assert(idx[m] == idx.last());
                    assert(res[before.len() as int] == k);
                } else {
                    assert(idx[m] == rest[m]);
                    let i = choose|i: int|
                        0 <= i < before.len() && (before[i] == (#[trigger] rest[m] as int) % (
                        pool.len() as int) || pool[before[i]].eq_spec(
                            &pool[(rest[m] as int) % (pool.len() as int)],
                        ));
                    assert(res[i] == before[i]);
                }
            }
        }
    }
}

/// `x` is a clone of the pool entry that one of the selection's indices
/// refers to.
pub open spec fn clone_of_selected<A: Clone>(pool: Seq<A>, idx: Seq<u8>, x: A) -> bool {
    exists|m: int| #![trigger idx[m]] 0 <= m < idx.len() && cloned::<A>(pool[slot_of(idx[m], pool.len())], x)
}

impl<A> View for AddressPool<A> {
    type V = Seq<A>;

    closed spec fn view(&self) -> Seq<A> {
        self.addresses@
    }
}

impl<A> AddressPool<A> {
    #[verifier::type_invariant]
    spec fn non_empty(self) -> bool {
        self.addresses.len() >= 1
    }

    /// A pool of the given addresses; the harness generates them fresh, as
    /// many as [`pool_size`] says.
    pub fn from_addresses(addresses: Vec<A>) -> (r: Self)
        requires
            addresses.len() >= 1,
        ensures
            r@ == addresses@,
    {
        AddressPool { addresses }
    }

    pub fn addresses(&self) -> (r: &[A])
        ensures
            r@ == self@,
    {
        self.addresses.as_slice()
    }

    /// The address at `index`, wrapping around modulo the pool's size.
    pub fn get(&self, index: usize) -> (r: &A)
        ensures
            self@.len() >= 1,
            *r == self@[(index as int) % (self@.len() as int)],
    {
        proof {
            use_type_invariant(self);
        }
        &self.addresses[index % self.addresses.len()]
    }

    pub fn len(&self) -> (r: usize)
        ensures
            r == self@.len(),
            r >= 1,
    {
        proof {
            use_type_invariant(self);
        }
        self.addresses.len()
    }

    /// Always `false`: a pool holds at least one address.
    pub fn is_empty(&self) -> (r: bool)
        ensures
            r == (self@.len() == 0),
            !r,
    {
        proof {
            use_type_invariant(self);
        }
        self.addresses.len() == 0
    }
}

impl<A: Clone + PartialEq> AddressPool<A> {
    /// Resolves a selection into the addresses it refers to, each raw index
    /// taken modulo the pool's size, deduplicated with `==`, in the order
    /// they first appear. Every address returned is a clone of a selected
    /// pool entry, and there are never more than the selection has indices;
    /// when `A`'s `==` obeys its specification the result is exactly the
    /// clones of `resolved_slots`.
    pub fn resolve(&self, selection: &AuthSelection) -> (r: Vec<A>)
        ensures
            r@.len() <= selection@.len(),
            forall|i: int| 0 <= i < r@.len() ==> clone_of_selected(self@, selection@, #[trigger] r@[i]),
            A::obeys_eq_spec() ==> ({
                let slots = resolved_slots(self@, selection@);
                &&& r@.len() == slots.len()
                &&& forall|i: int| 0 <= i < slots.len() ==> cloned::<A>(self@[slots[i]], #[trigger] r@[i])
            }),
    {
        proof {
            use_type_invariant(self);
        }
        let n = self.addresses.len();
        let idx = selection.indices.as_slice();
        let mut slots: Vec<usize> = Vec::new();
        let mut out: Vec<A> = Vec::new();
        let mut i: usize = 0;
        while i < idx.len()
            invariant
                n == self@.len(),
                n >= 1,
                idx@ == selection@,
                i <= idx@.len(),
                slots@.len() == out@.len(),
                out@.len() <= i,
                forall|j: int| 0 <= j < slots@.len() ==> #[trigger] slots@[j] < n,
                forall|j: int|
                    #![trigger slots@[j]]
                    0 <= j < out@.len() ==> exists|m: int|
                        #![trigger idx@[m]]
                        0 <= m < i && slots@[j] == slot_of(idx@[m], n as nat),
                forall|j: int| 0 <= j < out@.len() ==> cloned::<A>(self@[slots@[j] as int], #[trigger] out@[j]),
                forall|j: int|
                    #![trigger out@[j]]
                    0 <= j < out@.len() ==> exists|m: int|
                        #![trigger idx@[m]]
                        0 <= m < i && cloned::<A>(self@[slot_of(idx@[m], n as nat)], out@[j]),
                A::obeys_eq_spec() ==> slots@.map_values(|s: usize| s as int) == resolved_slots(
                    self@,
                    idx@.take(i as int),
                ),
            decreases idx.len() - i,
        {
            let k = (idx[i] as usize) % n;
            let ghost before = slots@;
            let mut seen = false;
            let mut j: usize = 0;
            while j < slots.len()
                invariant
                    n == self@.len(),
                    k < n,
                    slots@ == before,
                    forall|q: int| 0 <= q < slots@.len() ==> #[trigger] slots@[q] < n,
                    j <= slots@.len(),
                    A::obeys_eq_spec() ==> (seen <==> exists|q: int|
                        0 <= q < j && self@[slots@[q] as int].eq_spec(&self@[k as int])),
                decreases slots.len() - j,
            {
                let same = self.addresses[slots[j]] == self.addresses[k];
                if same {
                    seen = true;
                }
                j = j + 1;
            }
            proof {
                let taken = idx@.take(i + 1);
                assert(taken.drop_last() =~= idx@.take(i as int));
                assert(taken.last() == idx@[i as int]);
                assert(slot_of(idx@[i as int], n as nat) == k as int);
                if A::obeys_eq_spec() {
                    let mapped = slots@.map_values(|s: usize| s as int);
                    assert(seen <==> exists|q: int|
                        0 <= q < mapped.len() && self@[mapped[q]].eq_spec(&self@[k as int])) by {
                        if seen {
                            let q = choose|q: int|
                                0 <= q < slots@.len() && self@[slots@[q] as int].eq_spec(&self@[k as int]);
                            assert(mapped[q] == slots@[q] as int);
                        }
                        if exists|q: int| 0 <= q < mapped.len() && self@[mapped[q]].eq_spec(&self@[k as int]) {
                            let q = choose|q: int|
                                0 <= q < mapped.len() && self@[mapped[q]].eq_spec(&self@[k as int]);
                            assert(mapped[q] == slots@[q] as int);
                        }
                    }
                }
            }
            if !seen {
                let a = self.addresses[k].clone();
                out.push(a);
                slots.push(k);
                assert(cloned::<A>(self@[slot_of(idx@[i as int], n as nat)], out@[out@.len() - 1]));
                proof {
                    if A::obeys_eq_spec() {
                        assert(slots@.map_values(|s: usize| s as int) =~= before.map_values(
                            |s: usize| s as int,
                        ).push(k as int));
                    }
                }
            }
            i = i + 1;
        }
        assert(idx@.take(idx@.len() as int) =~= idx@);
        assert forall|q: int| #![trigger out@[q]] 0 <= q < out@.len() implies exists|m: int|
            #![trigger selection@[m]]
            0 <= m < selection@.len() && cloned::<A>(
                self@[slot_of(selection@[m], self@.len())],
                out@[q],
            ) by {
            let m = choose|m: int| #![trigger idx@[m]] 0 <= m < i && cloned::<A>(self@[slot_of(idx@[m], n as nat)], out@[q]);
            assert(selection@[m] == idx@[m]);
            assert(cloned::<A>(self@[slot_of(selection@[m], self@.len())], out@[q]));
        }
        assert forall|q: int| 0 <= q < out@.len() implies clone_of_selected(self@, selection@, #[trigger] out@[q]) by {
            assert(out@[q] == out@[q]);
        }
        out
    }
}

impl<A: Clone> Clone for AddressPool<A> {
    fn clone(&self) -> (r: Self)
        ensures
            r@.len() == self@.len(),
            forall|i: int| 0 <= i < self@.len() ==> cloned::<A>(self@[i], #[trigger] r@[i]),
    {
        proof {
            use_type_invariant(self);
        }
        AddressPool { addresses: self.addresses.clone() }
    }
}

} // verus!
