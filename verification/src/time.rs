//! Time arithmetic through `concordium_std`'s `Timestamp` and `Duration`.
//! The library keeps times and durations as plain milliseconds; each
//! function here converts them, makes one call, and converts back.
use vstd::prelude::*;
use concordium_std::{Duration, Timestamp};

verus! {

/// Milliseconds in a day.
pub const MILLIS_PER_DAY: u64 = 86400000;

/// Calls `Duration::from_days` and reads the result's milliseconds.
/// Claimed: the duration holds `days` times the milliseconds of a day (its
/// source multiplies without a check, so larger inputs are left out).
#[verifier::external_body]
pub(crate) fn days_to_millis(days: u64) -> (ms: u64)
    requires
        days * MILLIS_PER_DAY <= u64::MAX,
    ensures
        ms == days * MILLIS_PER_DAY,
{
    Duration::from_days(days).millis()
}

/// Calls `Timestamp::checked_add` on a timestamp and a duration given in
/// milliseconds. Claimed: the sum of the two, or `None` where it does not fit
/// in a `u64`.
#[verifier::external_body]
pub(crate) fn timestamp_checked_add(at: u64, duration_ms: u64) -> (r: Option<u64>)
    ensures
        r == (if at + duration_ms <= u64::MAX {
            Some((at + duration_ms) as u64)
        } else {
            None::<u64>
        }),
{
    Timestamp::from_timestamp_millis(at).checked_add(Duration::from_millis(duration_ms)).map(
        |t: Timestamp| t.timestamp_millis(),
    )
}

/// Calls `Timestamp::duration_between` and reads the result's milliseconds.
/// Claimed: the distance between the two timestamps, whichever is later.
#[verifier::external_body]
pub(crate) fn timestamp_duration_between(a: u64, b: u64) -> (ms: u64)
    ensures
        ms == (if a >= b {
            a - b
        } else {
            b - a
        }),
{
    Timestamp::from_timestamp_millis(a).duration_between(Timestamp::from_timestamp_millis(b)).millis()
}

/// Calls `Duration::days` on a duration given in milliseconds. Claimed: the
/// number of whole days in it.
#[verifier::external_body]
pub(crate) fn duration_days(ms: u64) -> (days: u64)
    ensures
        days == ms / MILLIS_PER_DAY,
{
    Duration::from_millis(ms).days()
}

} // verus!
