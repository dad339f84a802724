//! Conversions between the unsigned values of the track state and `SQLite`'s signed integers.
use vstd::prelude::*;

verus! {

/// `i64::try_from(value).unwrap_or(i64::MAX)`.
pub open spec fn stored_i64(value: u64) -> i64 {
    if value <= i64::MAX {
        value as i64
    } else {
        i64::MAX
    }
}

/// `u64::try_from(value).unwrap_or(0)`.
pub open spec fn read_u64(value: i64) -> u64 {
    if value >= 0 {
        value as u64
    } else {
        0
    }
}

/// `usize::try_from(value).unwrap_or(0)`.
pub open spec fn read_usize(value: i64) -> usize {
    if 0 <= value <= usize::MAX {
        value as usize
    } else {
        0
    }
}

/// A `u64` as an `i64` for storage; values above `i64::MAX` are clamped to it.
pub fn u64_to_i64(value: u64) -> (r: i64)
    ensures
        r == stored_i64(value),
{
    if value <= i64::MAX as u64 {
        value as i64
    } else {
        i64::MAX
    }
}

/// An `i64` read back as a `u64`; negative values become `0`.
pub fn i64_to_u64(value: i64) -> (r: u64)
    ensures
        r == read_u64(value),
{
    if value >= 0 {
        value as u64
    } else {
        0
    }
}

/// An `i64` count as a `usize`; values that do not fit, negative ones among them, become `0`.
pub fn i64_to_usize(value: i64) -> (r: usize)
    ensures
        r == read_usize(value),
{
    if value < 0 {
        0
    } else if (value as u64) <= (usize::MAX as u64) {
        value as usize
    } else {
        0
    }
}

/// A timestamp stored and read back is the timestamp itself, up to `i64::MAX`; larger ones
/// come back as `i64::MAX`.
pub proof fn law_timestamp_roundtrip(value: u64)
    ensures
        value <= i64::MAX ==> read_u64(stored_i64(value)) == value,
        value > i64::MAX ==> read_u64(stored_i64(value)) == i64::MAX,
{
}

} // verus!
