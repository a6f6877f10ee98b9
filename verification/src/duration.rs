//! Timeouts: minutes turned into seconds, and the `Duration` of a number of
//! seconds.

use vstd::prelude::*;

verus! {

/// A timeout of `minutes` minutes, in seconds.
pub open spec fn spec_minutes_to_seconds(minutes: int) -> int {
    minutes * 60
}

/// A timeout in seconds is exactly sixty times the timeout in minutes.
pub proof fn law_minutes_to_seconds(minutes: int)
    ensures
        spec_minutes_to_seconds(minutes) == minutes * 60,
        minutes >= 0 ==> spec_minutes_to_seconds(minutes) >= minutes,
        spec_minutes_to_seconds(minutes + 1) == spec_minutes_to_seconds(minutes) + 60,
{
}

/// The `Duration` that `Duration::from_secs` makes of `secs` seconds.
pub uninterp spec fn duration_of_secs(secs: u64) -> std::time::Duration;

/// Calls `std::time::Duration::from_secs`, which makes a `Duration` of
/// exactly `secs` whole seconds. The contract names that result
/// `duration_of_secs(secs)`; what a `Duration` holds is not visible here, so
/// the number of seconds in it is left unsaid.
#[verifier::external_body]
pub(crate) fn duration_from_secs(secs: u64) -> (d: std::time::Duration)
    ensures
        d == duration_of_secs(secs),
{
    std::time::Duration::from_secs(secs)
}

} // verus!
