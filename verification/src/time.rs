//! What the driver relies on of `core::time::Duration`.

use core::time::Duration;
use vstd::prelude::*;

verus! {

/// The length of a duration in nanoseconds: what `Duration::as_nanos`
/// reports. A duration is its whole length in nanoseconds.
pub uninterp spec fn duration_nanos(d: Duration) -> nat;

/// The whole milliseconds in a duration: what `Duration::as_millis` reports.
pub open spec fn duration_millis(d: Duration) -> nat {
    duration_nanos(d) / 1_000_000
}

/// `Duration::from_millis`: the duration of `millis` milliseconds.
pub assume_specification[ core::time::Duration::from_millis ](millis: u64) -> (d: Duration)
    ensures
        duration_nanos(d) == millis * 1_000_000,
;

/// `Duration::from_secs`: the duration of `secs` whole seconds.
pub assume_specification[ core::time::Duration::from_secs ](secs: u64) -> (d: Duration)
    ensures
        duration_nanos(d) == secs * 1_000_000_000,
;

/// `Duration::as_nanos`: the length of `d` in nanoseconds.
#[verifier::external_body]
pub(crate) fn duration_as_nanos(d: Duration) -> (ns: u128)
    ensures
        ns == duration_nanos(d),
{
    d.as_nanos()
}

/// The whole milliseconds in `d`, saturated at `u64::MAX`.
pub open spec fn millis_u64(d: Duration) -> u64 {
    if duration_millis(d) > u64::MAX {
        u64::MAX
    } else {
        duration_millis(d) as u64
    }
}

/// The whole milliseconds in `d`, saturated at `u64::MAX`.
pub fn saturating_millis(d: Duration) -> (ms: u64)
    ensures
        ms == millis_u64(d),
{
    let full = duration_as_nanos(d) / 1_000_000;
    if full > u64::MAX as u128 {
        u64::MAX
    } else {
        full as u64
    }
}

} // verus!
