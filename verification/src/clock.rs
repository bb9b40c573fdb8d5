//! Local time, as the store sees it: seconds of local civil time since the
//! epoch. Schedules and row timestamps are compared on this scale, and a
//! calendar day is a block of 86400 such seconds.

use vstd::prelude::*;

verus! {

pub const SECONDS_PER_DAY: u64 = 86400;

/// Relies on chrono's `Local::now` (read through `NaiveDateTime`): the local
/// civil time of the machine clock as seconds since the epoch. The value
/// depends on the clock and the configured time zone, so nothing is stated
/// of it.
#[verifier::external_body]
fn local_now_raw() -> i64 {
    chrono::Local::now().naive_local().and_utc().timestamp()
}

/// The current local time in seconds; a clock set before the epoch reads as
/// zero, so that every timestamp the store holds is non-negative.
pub fn now_seconds() -> u64 {
    let t = local_now_raw();
    if t < 0 {
        0
    } else {
        t as u64
    }
}

/// The local calendar day a timestamp falls on.
pub open spec fn day_of_spec(t: u64) -> u64 {
    t / 86400
}

pub fn day_of(t: u64) -> (r: u64)
    ensures
        r == day_of_spec(t),
{
    t / SECONDS_PER_DAY
}

} // verus!
