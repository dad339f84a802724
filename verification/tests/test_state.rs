//! Tests of the conversions for stored state.
use track_rename::state::{i64_to_u64, i64_to_usize, u64_to_i64};

#[test]
fn u64_to_i64_zero_returns_zero() {
    assert_eq!(u64_to_i64(0), 0);
}

#[test]
fn u64_to_i64_small_value_returns_same() {
    assert_eq!(u64_to_i64(100), 100);
}

#[test]
fn u64_to_i64_max_i64_returns_max_i64() {
    assert_eq!(u64_to_i64(i64::MAX as u64), i64::MAX);
}

#[test]
fn u64_to_i64_u64_max_clamps_to_i64_max() {
    assert_eq!(u64_to_i64(u64::MAX), i64::MAX);
}

#[test]
fn u64_to_i64_overflow_clamps_to_i64_max() {
    assert_eq!(u64_to_i64(i64::MAX as u64 + 1), i64::MAX);
}

#[test]
fn i64_to_u64_zero_returns_zero() {
    assert_eq!(i64_to_u64(0), 0);
}

#[test]
fn i64_to_u64_small_value_returns_same() {
    assert_eq!(i64_to_u64(100), 100);
}

#[test]
fn i64_to_u64_negative_returns_zero() {
    assert_eq!(i64_to_u64(-1), 0);
}

#[test]
fn i64_to_u64_min_returns_zero() {
    assert_eq!(i64_to_u64(i64::MIN), 0);
}

#[test]
fn i64_to_usize_zero_returns_zero() {
    assert_eq!(i64_to_usize(0), 0);
}

#[test]
fn i64_to_usize_small_value_returns_same() {
    assert_eq!(i64_to_usize(100), 100);
}

#[test]
fn i64_to_usize_negative_returns_zero() {
    assert_eq!(i64_to_usize(-1), 0);
}

#[test]
fn i64_to_usize_min_returns_zero() {
    assert_eq!(i64_to_usize(i64::MIN), 0);
}
