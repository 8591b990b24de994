use arbitrary::Unstructured;
use soro_fuzz::strategies::{
    edge_value, AddressIndex, BoundedEntries, BoundedI128, Bytes32, TimeAdvance, LARGE_JUMP_SECS,
    MAX_MAP_ENTRIES,
};

#[test]
fn stays_within_bounds() {
    let raw = [0u8; 64];
    let mut u = Unstructured::new(&raw);
    for _ in 0..16 {
        let v = BoundedI128::arbitrary(&mut u, -10, 10);
        assert!((-10..=10).contains(&v.get()));
    }
}

#[test]
fn full_range_edge_cases_dont_overflow() {
    let raw = [255u8; 64];
    let mut u = Unstructured::new(&raw);
    let v = BoundedI128::arbitrary(&mut u, i128::MIN, i128::MAX);
    assert!(v.get() >= i128::MIN && v.get() <= i128::MAX);
}

#[test]
fn edge_values_are_produced() {
    let mut saw_all_zero = false;
    let mut saw_all_ones = false;
    for seed in 0u32..256 {
        let mixed = seed.wrapping_mul(2654435761).wrapping_add(0x9E3779B9);
        let raw: Vec<u8> = (0..64u32)
            .map(|i| (mixed.wrapping_add(i.wrapping_mul(2246822519)) >> 8) as u8)
            .collect();
        let mut u = Unstructured::new(&raw);
        let bytes = Bytes32::arbitrary(&mut u).0;
        if bytes == [0u8; 32] {
            saw_all_zero = true;
        } else if bytes == [0xFFu8; 32] {
            saw_all_ones = true;
        }
    }
    assert!(saw_all_zero, "expected an all-zero draw across 256 samples");
    assert!(saw_all_ones, "expected an all-ones draw across 256 samples");
}

#[test]
fn caps_entry_count() {
    let raw = [1u8; 512];
    let mut u = Unstructured::new(&raw);
    for _ in 0..16 {
        let len = BoundedEntries::<u32, i64>::arbitrary_len(&mut u);
        assert!(len <= MAX_MAP_ENTRIES);
    }
}

#[test]
fn generates_without_error() {
    let raw = [7u8; 64];
    let mut u = Unstructured::new(&raw);
    for _ in 0..16 {
        let _ = TimeAdvance::arbitrary(&mut u);
    }
}

#[test]
fn edge_values_are_the_ends_zero_and_their_neighbours() {
    assert_eq!(edge_value(-10, 10, 0), -10);
    assert_eq!(edge_value(-10, 10, 1), 10);
    assert_eq!(edge_value(-10, 10, 2), 0);
    assert_eq!(edge_value(5, 10, 2), 5);
    assert_eq!(edge_value(-10, -5, 2), -5);
    assert_eq!(edge_value(-10, 10, 3), -9);
    assert_eq!(edge_value(-10, 10, 4), 9);
    assert_eq!(edge_value(i128::MIN, i128::MAX, 4), i128::MAX - 1);
}

#[test]
fn edge_values_of_a_wider_range_stay_in_it() {
    for choice in 0u8..=4 {
        let v = edge_value(3, 4, choice);
        assert!((3..=4).contains(&v));
    }
}

#[test]
fn hand_built_values_keep_their_bounds() {
    let v = BoundedI128::new(-5, 5, 2);
    assert_eq!((v.min(), v.max(), v.get()), (-5, 5, 2));
    assert_eq!(i128::from(v), 2);
    let n = BoundedI128::non_negative(7);
    assert_eq!((n.min(), n.max(), n.get()), (0, i128::MAX, 7));
}

#[test]
fn large_jump_is_five_years() {
    assert_eq!(LARGE_JUMP_SECS, 60 * 60 * 24 * 365 * 5);
}

#[test]
fn address_index_draws_a_byte() {
    let raw = [9u8; 4];
    let mut u = Unstructured::new(&raw);
    assert_eq!(AddressIndex::arbitrary(&mut u), AddressIndex(9));
}

#[test]
fn address_index_takes_one_byte_then_zero() {
    let raw = [9u8, 4];
    let mut u = Unstructured::new(&raw);
    assert_eq!(AddressIndex::arbitrary(&mut u), AddressIndex(9));
    assert_eq!(AddressIndex::arbitrary(&mut u), AddressIndex(4));
    assert_eq!(AddressIndex::arbitrary(&mut u), AddressIndex(0));
}

#[test]
fn time_advance_reads_little_endian_seconds() {
    let raw = [3u8, 5, 6, 7, 8];
    let mut u = Unstructured::new(&raw);
    assert_eq!(TimeAdvance::arbitrary(&mut u), TimeAdvance(134_678_021));
    assert!(u.is_empty());
}

#[test]
fn time_advance_edges_follow_the_choice_byte() {
    let raw = [0u8, 0, 0, 1, 0, 2];
    let mut u = Unstructured::new(&raw);
    assert_eq!(TimeAdvance::arbitrary(&mut u), TimeAdvance(0));
    assert_eq!(TimeAdvance::arbitrary(&mut u), TimeAdvance(1));
    assert_eq!(TimeAdvance::arbitrary(&mut u), TimeAdvance(LARGE_JUMP_SECS));
}

#[test]
fn bytes32_copies_the_next_bytes_or_picks_an_edge() {
    let mut raw = vec![3u8];
    raw.extend(1u8..=40);
    let mut u = Unstructured::new(&raw);
    let expected: Vec<u8> = (1u8..=32).collect();
    assert_eq!(Bytes32::arbitrary(&mut u).0.to_vec(), expected);
    assert_eq!(u.len(), 8);

    let raw = [0u8, 1];
    let mut u = Unstructured::new(&raw);
    assert_eq!(Bytes32::arbitrary(&mut u), Bytes32([0xFF; 32]));
}

#[test]
fn entry_count_is_the_next_byte_modulo_nine() {
    let raw = [20u8, 8, 9];
    let mut u = Unstructured::new(&raw);
    assert_eq!(BoundedEntries::<u32, i64>::arbitrary_len(&mut u), 2);
    assert_eq!(BoundedEntries::<u32, i64>::arbitrary_len(&mut u), 8);
    assert_eq!(BoundedEntries::<u32, i64>::arbitrary_len(&mut u), 0);
    assert!(u.is_empty());
}

#[test]
fn a_one_value_range_only_ever_gives_that_value() {
    for choice in 0u8..=4 {
        assert_eq!(edge_value(5, 5, choice), 5);
    }
    // A first byte of 0 takes the edge branch; 3 and 4 pick the neighbour
    // edges, which in a one-value range are the value itself.
    let raw = [0u8, 3, 0, 4];
    let mut u = Unstructured::new(&raw);
    assert_eq!(BoundedI128::arbitrary(&mut u, 5, 5).get(), 5);
    assert_eq!(BoundedI128::arbitrary(&mut u, 5, 5).get(), 5);
}

#[test]
fn bounded_draw_picks_edges_or_a_value_of_the_range() {
    // First byte 0: edge branch; choice byte 3: one above the least.
    let raw = [0u8, 3];
    let mut u = Unstructured::new(&raw);
    assert_eq!(BoundedI128::arbitrary(&mut u, -10, 10).get(), -9);
    // First byte 3: plain branch; one byte 25 gives -10 + 25 % 21 = -6.
    let raw = [3u8, 25];
    let mut u = Unstructured::new(&raw);
    assert_eq!(BoundedI128::arbitrary(&mut u, -10, 10).get(), -6);
    assert!(u.is_empty());
}
