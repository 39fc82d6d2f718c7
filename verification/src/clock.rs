//! The wall clock.

use vstd::prelude::*;

verus! {

/// The last millisecond of the calendar that `chrono` counts in: the end of the
/// year 262142.
pub const LAST_MILLI: i64 = 8_210_266_876_799_999;

/// `chrono::Utc::now` and `DateTime::timestamp_millis`: the milliseconds since the
/// epoch. A time before the epoch makes the call panic, and a time behind the
/// calendar cannot be held.
#[verifier::external_body]
pub(crate) fn now_millis() -> (r: i64)
    ensures
        0 <= r <= LAST_MILLI,
{
    chrono::Utc::now().timestamp_millis()
}

/// The milliseconds of a day.
pub const DAY_MILLIS: i64 = 86_400_000;

/// The time `days` days before `now`.
pub fn days_before(now: i64, days: u32) -> (r: i64)
    requires
        0 <= now,
    ensures
        r == now - days * 86_400_000,
{
    now - days as i64 * DAY_MILLIS
}

} // verus!
