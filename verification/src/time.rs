//! Durations and points in time as counts of nanoseconds.

use vstd::prelude::*;

verus! {

/// Nanoseconds: a duration, or the time since some fixed point.
pub type Nanos = u128;

pub const NANOS_PER_MILLI: u128 = 1_000_000;

pub const NANOS_PER_SEC: u128 = 1_000_000_000;

/// The longest duration: `u64::MAX` seconds and one nanosecond less than a
/// further second.
pub const MAX_DURATION: u128 = 18_446_744_073_709_551_615_999_999_999;

/// The sum of two durations, cut off at the longest one.
pub fn saturating_add(a: Nanos, b: Nanos) -> (res: Nanos)
    ensures
        res == (if a + b <= MAX_DURATION {
            a + b
        } else {
            MAX_DURATION as int
        }),
{
    match a.checked_add(b) {
        Some(sum) => {
            if sum <= MAX_DURATION {
                sum
            } else {
                MAX_DURATION
            }
        },
        None => MAX_DURATION,
    }
}

} // verus!
