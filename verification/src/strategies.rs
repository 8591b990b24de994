//! Generation strategies for common contract argument shapes: bounded
//! amounts, references to pool addresses, 32-byte values, capped entry
//! lists and ledger-time advances.
//!
//! Each draws from a fuzzer's raw input (`arbitrary::Unstructured`) and is
//! biased toward the edges of its range about a quarter of the time:
//! off-by-one, overflow and deadline bugs cluster there, and uniform draws
//! over a wide range rarely land on them.

use vstd::prelude::*;

verus! {

#[verifier::external_type_specification]
#[verifier::external_body]
pub struct ExUnstructured<'a>(arbitrary::Unstructured<'a>);

/// The input bytes an `Unstructured` has not handed out yet, front first
/// (its `data` slice).
pub uninterp spec fn unstructured_data(u: arbitrary::Unstructured) -> Seq<u8>;

/// The value `Unstructured::int_in_range(lo..=hi)` draws from these input
/// bytes, and how many bytes from the front it takes to do so.
pub uninterp spec fn int_in_range_draw(data: Seq<u8>, lo: int, hi: int) -> (int, nat);

/// The first `n` bytes of the input, zero-filled past its end: what
/// `fill_buffer` copies into an `n`-byte buffer.
pub open spec fn padded(data: Seq<u8>, n: nat) -> Seq<u8> {
    Seq::new(n, |i: int| if i < data.len() { data[i] } else { 0u8 })
}

/// The input left after `n` bytes are taken from its front (all of it taken
/// when there are fewer).
pub open spec fn rest_after(data: Seq<u8>, n: nat) -> Seq<u8> {
    if n <= data.len() {
        data.skip(n as int)
    } else {
        Seq::empty()
    }
}

/// The `u32` four bytes spell, least significant first.
pub open spec fn le_u32(b: Seq<u8>) -> int {
    b[0] + 256 * b[1] + 65536 * b[2] + 16777216 * b[3]
}

/// `Unstructured::ratio(numerator, denominator)`, which draws
/// `int_in_range(1..=denominator)` and answers whether the draw is at most
/// `numerator`. It never fails; it panics unless
/// `0 < numerator <= denominator`.
#[verifier::external_body]
fn draw_ratio(u: &mut arbitrary::Unstructured, numerator: u32, denominator: u32) -> (r: bool)
    requires
        0 < numerator <= denominator,
    ensures
        r == (int_in_range_draw(unstructured_data(*old(u)), 1, denominator as int).0
            <= numerator),
        ({
            let k = int_in_range_draw(unstructured_data(*old(u)), 1, denominator as int).1;
            k <= unstructured_data(*old(u)).len() && unstructured_data(*final(u))
                == unstructured_data(*old(u)).skip(k as int)
        }),
{
    u.ratio(numerator, denominator).unwrap()
}

/// `Unstructured::int_in_range(lo..=hi)` on `u8`: the named draw, a value
/// in the range, taking its bytes from the front of the input. It never
/// fails; it panics on an empty range.
#[verifier::external_body]
fn draw_u8_in(u: &mut arbitrary::Unstructured, lo: u8, hi: u8) -> (r: u8)
    requires
        lo <= hi,
    ensures
        r == int_in_range_draw(unstructured_data(*old(u)), lo as int, hi as int).0,
        lo <= r <= hi,
        ({
            let k = int_in_range_draw(unstructured_data(*old(u)), lo as int, hi as int).1;
            k <= unstructured_data(*old(u)).len() && unstructured_data(*final(u))
                == unstructured_data(*old(u)).skip(k as int)
        }),
{
    u.int_in_range(lo..=hi).unwrap()
}

/// `Unstructured::int_in_range(lo..=hi)` on `usize`, as `draw_u8_in` says.
#[verifier::external_body]
fn draw_usize_in(u: &mut arbitrary::Unstructured, lo: usize, hi: usize) -> (r: usize)
    requires
        lo <= hi,
    ensures
        r == int_in_range_draw(unstructured_data(*old(u)), lo as int, hi as int).0,
        lo <= r <= hi,
        ({
            let k = int_in_range_draw(unstructured_data(*old(u)), lo as int, hi as int).1;
            k <= unstructured_data(*old(u)).len() && unstructured_data(*final(u))
                == unstructured_data(*old(u)).skip(k as int)
        }),
{
    u.int_in_range(lo..=hi).unwrap()
}

/// `Unstructured::int_in_range(lo..=hi)` on `i128`, as `draw_u8_in` says.
#[verifier::external_body]
fn draw_i128_in(u: &mut arbitrary::Unstructured, lo: i128, hi: i128) -> (r: i128)
    requires
        lo <= hi,
    ensures
        r == int_in_range_draw(unstructured_data(*old(u)), lo as int, hi as int).0,
        lo <= r <= hi,
        ({
            let k = int_in_range_draw(unstructured_data(*old(u)), lo as int, hi as int).1;
            k <= unstructured_data(*old(u)).len() && unstructured_data(*final(u))
                == unstructured_data(*old(u)).skip(k as int)
        }),
{
    u.int_in_range(lo..=hi).unwrap()
}

/// `Unstructured::fill_buffer`: copies the next input bytes into `buf`,
/// zero-filling what the input cannot cover, and takes them from the
/// input. It never fails.
#[verifier::external_body]
fn draw_bytes(u: &mut arbitrary::Unstructured, buf: &mut [u8; 32])
    ensures
        final(buf)@ == padded(unstructured_data(*old(u)), 32),
        unstructured_data(*final(u)) == rest_after(unstructured_data(*old(u)), 32),
{
    u.fill_buffer(buf).unwrap()
}

/// `u32`'s `Arbitrary` impl: four bytes filled as `fill_buffer` does, read
/// little-endian. It never fails.
#[verifier::external_body]
fn draw_u32(u: &mut arbitrary::Unstructured) -> (r: u32)
    ensures
        r == le_u32(padded(unstructured_data(*old(u)), 4)),
        unstructured_data(*final(u)) == rest_after(unstructured_data(*old(u)), 4),
{
    u.arbitrary::<u32>().unwrap()
}

/// `u8`'s `Arbitrary` impl: the next input byte, or zero when there is
/// none. It never fails.
#[verifier::external_body]
fn draw_u8(u: &mut arbitrary::Unstructured) -> (r: u8)
    ensures
        r == padded(unstructured_data(*old(u)), 1)[0],
        unstructured_data(*final(u)) == rest_after(unstructured_data(*old(u)), 1),
{
    u.arbitrary::<u8>().unwrap()
}

/// An index into the run's address pool, resolved against the pool modulo
/// its length (see `AddressPool::get`).
#[derive(Debug, Clone, Copy, Default, PartialEq, Eq, Structural)]
pub struct AddressIndex(pub u8);

impl AddressIndex {
    /// Any index, drawn as a plain byte: the next input byte, or zero when
    /// the input is used up.
    pub fn arbitrary(u: &mut arbitrary::Unstructured) -> (r: Self)
        ensures
            r.0 == padded(unstructured_data(*old(u)), 1)[0],
            unstructured_data(*final(u)) == rest_after(unstructured_data(*old(u)), 1),
    {
        AddressIndex(draw_u8(u))
    }
}

/// An `i128` within `[min, max]`, inclusive.
#[derive(Debug, Clone, Copy, PartialEq, Eq, Structural)]
pub struct BoundedI128 {
    min: i128,
    max: i128,
    value: i128,
}

/// The value an edge-biased draw of `[min, max]` makes from this input, and
/// the input left: a draw of `1..=4` that comes out at most 1 (about a
/// quarter of the time) picks an edge value (see `edge_value_spec`) by a draw
/// of `0..=4`; otherwise a draw of `min..=max`.
pub open spec fn bounded_draw(data: Seq<u8>, min: i128, max: i128) -> (i128, Seq<u8>) {
    let first = int_in_range_draw(data, 1, 4);
    let d = data.skip(first.1 as int);
    if first.0 <= 1 {
        let choice = int_in_range_draw(d, 0, 4);
        (edge_value_spec(min, max, choice.0 as u8), d.skip(choice.1 as int))
    } else {
        let v = int_in_range_draw(d, min as int, max as int);
        (v.0 as i128, d.skip(v.1 as int))
    }
}

/// The edge value for a choice of the five: the least value, the greatest,
/// zero brought into range, one above the least, one below the greatest.
/// The last two stay in the range: in a range of one value they are that
/// value.
pub open spec fn edge_value_spec(min: i128, max: i128, choice: u8) -> i128 {
    if choice == 0 {
        min
    } else if choice == 1 {
        max
    } else if choice == 2 {
        if 0 < min {
            min
        } else if 0 > max {
            max
        } else {
            0
        }
    } else if choice == 3 {
        if min < max {
            (min + 1) as i128
        } else {
            min
        }
    } else {
        if min < max {
            (max - 1) as i128
        } else {
            max
        }
    }
}

/// The edge value for `choice` (see `edge_value_spec`).
pub fn edge_value(min: i128, max: i128, choice: u8) -> (r: i128)
    requires
        min <= max,
    ensures
        r == edge_value_spec(min, max, choice),
{
    if choice == 0 {
        min
    } else if choice == 1 {
        max
    } else if choice == 2 {
        if 0 < min {
            min
        } else if 0 > max {
            max
        } else {
            0
        }
    } else if choice == 3 {
        if min < max {
            min + 1
        } else {
            min
        }
    } else {
        if min < max {
            max - 1
        } else {
            max
        }
    }
}

/// Every edge value of a range lies in it.
pub proof fn lemma_edge_values_in_range(min: i128, max: i128, choice: u8)
    requires
        min <= max,
    ensures
        min <= edge_value_spec(min, max, choice) <= max,
{
}

impl BoundedI128 {
    pub closed spec fn spec_min(self) -> i128 {
        self.min
    }

    pub closed spec fn spec_max(self) -> i128 {
        self.max
    }

    pub closed spec fn spec_value(self) -> i128 {
        self.value
    }

    /// The value lies in the range.
    #[verifier::type_invariant]
    spec fn in_range(self) -> bool {
        self.min <= self.value <= self.max
    }

    /// The value, which lies in the range.
    pub fn get(self) -> (r: i128)
        ensures
            r == self.spec_value(),
            self.spec_min() <= r <= self.spec_max(),
    {
        proof {
            use_type_invariant(&self);
        }
        self.value
    }

    /// The range's least value.
    pub fn min(self) -> (r: i128)
        ensures
            r == self.spec_min(),
    {
        self.min
    }

    /// The range's greatest value.
    pub fn max(self) -> (r: i128)
        ensures
            r == self.spec_max(),
    {
        self.max
    }

    /// A given value of the range, for tests and hand-built cases. The value
    /// must lie in the range.
    pub fn new(min: i128, max: i128, value: i128) -> (r: Self)
        requires
            min <= value <= max,
        ensures
            r.spec_min() == min,
            r.spec_max() == max,
            r.spec_value() == value,
    {
        BoundedI128 { min, max, value }
    }

    /// A given value of `[0, i128::MAX]`, the range of an amount that is
    /// never negative.
    pub fn non_negative(value: i128) -> (r: Self)
        requires
            value >= 0,
        ensures
            r.spec_min() == 0,
            r.spec_max() == i128::MAX,
            r.spec_value() == value,
    {
        BoundedI128 { min: 0, max: i128::MAX, value }
    }

    /// A value of `[min, max]` drawn from the input: about a quarter of the
    /// time one of the five edge values, otherwise any value of the range
    /// (see `bounded_draw`). The draw always lies in the range.
    pub fn arbitrary(u: &mut arbitrary::Unstructured, min: i128, max: i128) -> (r: Self)
        requires
            min <= max,
        ensures
            r.spec_min() == min,
            r.spec_max() == max,
            r.spec_value() == bounded_draw(unstructured_data(*old(u)), min, max).0,
            unstructured_data(*final(u)) == bounded_draw(unstructured_data(*old(u)), min, max).1,
            min <= r.spec_value() <= max,
    {
        if draw_ratio(u, 1, 4) {
            let choice = draw_u8_in(u, 0, 4);
            let value = edge_value(min, max, choice);
            proof {
                lemma_edge_values_in_range(min, max, choice);
            }
            BoundedI128 { min, max, value }
        } else {
            BoundedI128 { min, max, value: draw_i128_in(u, min, max) }
        }
    }
}

impl From<BoundedI128> for i128 {
    fn from(v: BoundedI128) -> (r: i128) {
        v.value
    }
}

impl vstd::std_specs::convert::FromSpecImpl<BoundedI128> for i128 {
    open spec fn obeys_from_spec() -> bool {
        true
    }

    open spec fn from_spec(v: BoundedI128) -> i128 {
        v.spec_value()
    }
}

/// 32 bytes.
#[derive(Debug, Clone, Copy, PartialEq, Eq)]
pub struct Bytes32(pub [u8; 32]);

/// The 32 bytes drawn from this input, and the input left: a draw of
/// `1..=4` that comes out at most 1 (about a quarter of the time) picks
/// all zero or all `0xFF` by a draw of `0..=1`; otherwise the next 32 input
/// bytes, zero-filled.
pub open spec fn bytes32_draw(data: Seq<u8>) -> (Seq<u8>, Seq<u8>) {
    let first = int_in_range_draw(data, 1, 4);
    let d = data.skip(first.1 as int);
    if first.0 <= 1 {
        let choice = int_in_range_draw(d, 0, 1);
        (Seq::new(32, |i: int| if choice.0 == 0 { 0u8 } else { 0xFFu8 }), d.skip(choice.1 as int))
    } else {
        (padded(d, 32), rest_after(d, 32))
    }
}

impl Bytes32 {
    /// 32 bytes drawn from the input: about a quarter of the time all zero
    /// or all `0xFF`, otherwise the next input bytes (see `bytes32_draw`).
    pub fn arbitrary(u: &mut arbitrary::Unstructured) -> (r: Self)
        ensures
            r.0@ == bytes32_draw(unstructured_data(*old(u))).0,
            unstructured_data(*final(u)) == bytes32_draw(unstructured_data(*old(u))).1,
    {
        if draw_ratio(u, 1, 4) {
            let choice = draw_u8_in(u, 0, 1);
            if choice == 0 {
                Bytes32([0u8; 32])
            } else {
                Bytes32([0xFFu8; 32])
            }
        } else {
            let mut bytes = [0u8; 32];
            draw_bytes(u, &mut bytes);
            Bytes32(bytes)
        }
    }
}

/// The most entries a generated entry list has.
pub const MAX_MAP_ENTRIES: usize = 8;

/// Key/value pairs for a map argument, at most `MAX_MAP_ENTRIES` of them
/// when generated.
#[derive(Debug, Clone)]
pub struct BoundedEntries<K, V> {
    pub entries: Vec<(K, V)>,
}

impl<K, V> BoundedEntries<K, V> {
    /// How many entries a generated list has: drawn from 0 to
    /// `MAX_MAP_ENTRIES`. The entries themselves are drawn by their own
    /// types' generators.
    pub fn arbitrary_len(u: &mut arbitrary::Unstructured) -> (r: usize)
        ensures
            r == int_in_range_draw(unstructured_data(*old(u)), 0, MAX_MAP_ENTRIES as int).0,
            r <= MAX_MAP_ENTRIES,
            ({
                let k = int_in_range_draw(unstructured_data(*old(u)), 0, MAX_MAP_ENTRIES as int).1;
                unstructured_data(*final(u)) == unstructured_data(*old(u)).skip(k as int)
            }),
    {
        draw_usize_in(u, 0, MAX_MAP_ENTRIES)
    }
}

/// Seconds to advance the ledger's clock by.
#[derive(Debug, Clone, Copy, PartialEq, Eq, Structural)]
pub struct TimeAdvance(pub u32);

/// About five years in seconds: far past any reasonable contract deadline.
pub const LARGE_JUMP_SECS: u32 = 157_680_000;

/// The advance for a choice of the three edges: none, one second, or the
/// large jump.
pub open spec fn time_edge(choice: u8) -> u32 {
    if choice == 0 {
        0
    } else if choice == 1 {
        1
    } else {
        LARGE_JUMP_SECS
    }
}

/// The advance drawn from this input, and the input left: a draw of `1..=4`
/// that comes out at most 1 (about a quarter of the time) picks an edge by
/// a draw of `0..=2`; otherwise the next four input bytes, zero-filled,
/// little-endian.
pub open spec fn time_advance_draw(data: Seq<u8>) -> (u32, Seq<u8>) {
    let first = int_in_range_draw(data, 1, 4);
    let d = data.skip(first.1 as int);
    if first.0 <= 1 {
        let choice = int_in_range_draw(d, 0, 2);
        (time_edge(choice.0 as u8), d.skip(choice.1 as int))
    } else {
        (le_u32(padded(d, 4)) as u32, rest_after(d, 4))
    }
}

impl TimeAdvance {
    /// An advance drawn from the input: about a quarter of the time none,
    /// one second or the large jump; otherwise any number of seconds (see
    /// `time_advance_draw`).
    pub fn arbitrary(u: &mut arbitrary::Unstructured) -> (r: Self)
        ensures
            r.0 == time_advance_draw(unstructured_data(*old(u))).0,
            unstructured_data(*final(u)) == time_advance_draw(unstructured_data(*old(u))).1,
    {
        if draw_ratio(u, 1, 4) {
            let choice = draw_u8_in(u, 0, 2);
            let secs: u32 = if choice == 0 {
                0
            } else if choice == 1 {
                1
            } else {
                LARGE_JUMP_SECS
            };
            TimeAdvance(secs)
        } else {
            TimeAdvance(draw_u32(u))
        }
    }
}

} // verus!
