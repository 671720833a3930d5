use rust_storage_bench::keys::{flat_key, format_decimal, map_key, scramble, text_key, unscramble};
use std::collections::HashSet;

#[test]
fn scramble_is_deterministic() {
    for n in [0u32, 1, 42, 9999, u32::MAX] {
        assert_eq!(scramble(n), scramble(n));
    }
}

#[test]
fn scramble_known_values() {
    assert_eq!(scramble(0), 0);
    assert_eq!(scramble(1), 1364076727);
    assert_eq!(scramble(42), 142593372);
    assert_eq!(scramble(123456), 2524076747);
}

#[test]
fn scramble_round_trips_through_inverse() {
    for n in 0u32..10_000 {
        assert_eq!(unscramble(scramble(n)), n);
        assert_eq!(scramble(unscramble(n)), n);
    }
}

#[test]
fn scramble_has_no_collisions_on_sample() {
    let mut seen: HashSet<u32> = HashSet::new();
    for n in 0u32..10_000 {
        assert!(seen.insert(scramble(n)), "two record numbers collided");
    }
    assert_eq!(seen.len(), 10_000);
}

#[test]
fn map_key_monotonic_mode_is_identity() {
    for n in [0u32, 7, 1000, u32::MAX] {
        assert_eq!(map_key(n, false), n);
        assert_eq!(map_key(n, true), scramble(n));
    }
}

#[test]
fn format_decimal_zero_pads() {
    assert_eq!(format_decimal(7, 3), b"007".to_vec());
    assert_eq!(format_decimal(0, 2), b"00".to_vec());
    assert_eq!(format_decimal(99, 2), b"99".to_vec());
    assert_eq!(format_decimal(4294967295, 10), b"4294967295".to_vec());
}

#[test]
fn text_key_matches_layout() {
    assert_eq!(text_key(5, 42), b"user05:0000000042".to_vec());
    assert_eq!(text_key(0, 0), b"user00:0000000000".to_vec());
    assert_eq!(text_key(99, 4294967295), b"user99:4294967295".to_vec());
}

#[test]
fn text_keys_order_like_record_numbers() {
    let mut prev = text_key(3, 0);
    for idx in [1u32, 9, 10, 99, 100, 5000, 4294967295] {
        let cur = text_key(3, idx);
        assert!(prev < cur, "zero-padded keys must sort numerically");
        prev = cur;
    }
}

#[test]
fn flat_key_is_big_endian() {
    assert_eq!(flat_key(0x0102), vec![0, 0, 0, 0, 0, 0, 1, 2]);
    assert_eq!(flat_key(0), vec![0; 8]);
    assert_eq!(flat_key(u32::MAX), vec![0, 0, 0, 0, 255, 255, 255, 255]);
    assert!(flat_key(1) < flat_key(2));
    assert!(flat_key(255) < flat_key(256));
}
