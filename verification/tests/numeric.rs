//! Tests for the numeric helpers: signed offsets, differences, sign
//! extension and hashing.

use zutil::{abs_diff, checked_signed_offset, hash_of, saturating_signed_offset, sign_extend_un, signed_offset};

#[test]
fn abs_diff_both_directions() {
    assert_eq!(abs_diff(10, 3), 7);
    assert_eq!(abs_diff(3, 10), -7);
    assert_eq!(abs_diff(5, 5), 0);
    assert_eq!(abs_diff(u64::MAX, u64::MAX - 1), 1);
    assert_eq!(abs_diff(0, i64::MAX as u64), -i64::MAX);
}

#[test]
fn saturating_offset_clamps() {
    assert_eq!(saturating_signed_offset(10, 5), 15);
    assert_eq!(saturating_signed_offset(10, -5), 5);
    assert_eq!(saturating_signed_offset(3, -10), 0);
    assert_eq!(saturating_signed_offset(u64::MAX, 1), u64::MAX);
    assert_eq!(saturating_signed_offset(0, i64::MIN), 0);
    assert_eq!(saturating_signed_offset(u64::MAX, i64::MIN), u64::MAX - 0x8000_0000_0000_0000);
}

#[test]
fn checked_offset_detects_overflow() {
    assert_eq!(checked_signed_offset(10, 5), Some(15));
    assert_eq!(checked_signed_offset(10, -10), Some(0));
    assert_eq!(checked_signed_offset(3, -4), None);
    assert_eq!(checked_signed_offset(u64::MAX, 1), None);
    assert_eq!(checked_signed_offset(u64::MAX, i64::MIN), Some(u64::MAX - 0x8000_0000_0000_0000));
    assert_eq!(checked_signed_offset(0, i64::MIN), None);
}

#[test]
fn signed_offset_in_range() {
    assert_eq!(signed_offset(10, 5), 15);
    assert_eq!(signed_offset(10, -10), 0);
    assert_eq!(signed_offset(0x8000_0000_0000_0000, i64::MIN), 0);
}

#[test]
fn sign_extension_of_small_widths() {
    assert_eq!(sign_extend_un(0x7F, 8), 0x7F);
    assert_eq!(sign_extend_un(0xFF, 8), u128::MAX);
    assert_eq!(sign_extend_un(0x80, 8), u128::MAX - 0x7F);
    assert_eq!(sign_extend_un(1, 1), u128::MAX);
    assert_eq!(sign_extend_un(0, 1), 0);
    // Bits above the width are ignored.
    assert_eq!(sign_extend_un(0x100, 8), 0);
    assert_eq!(sign_extend_un(42, 128), 42);
    assert_eq!(sign_extend_un(u128::MAX, 128), u128::MAX);
    assert_eq!(sign_extend_un(0xFFFF_FFFF, 32), u128::MAX);
    assert_eq!(sign_extend_un(0x7FFF_FFFF, 32), 0x7FFF_FFFF);
}

#[test]
fn hash_is_deterministic_within_a_process() {
    let a = hash_of(&12345u64);
    let b = hash_of(&12345u64);
    assert_eq!(a, b);
    let s1 = hash_of(&"hello".to_owned());
    let s2 = hash_of(&"hello".to_owned());
    assert_eq!(s1, s2);
}
