//! The time of day.

use vstd::prelude::*;

verus! {

/// `chrono::Utc::now().timestamp()`: the seconds since 1970 by the machine's
/// clock, of which nothing is claimed. A clock that stands before 1970 makes the
/// call panic.
#[verifier::external_body]
pub(crate) fn now_ts() -> (res: i64) {
    chrono::Utc::now().timestamp()
}

/// `chrono::Utc::now().timestamp_millis()`: the milliseconds since 1970 by the
/// machine's clock, of which nothing is claimed. A clock that stands before 1970
/// makes the call panic.
#[verifier::external_body]
pub(crate) fn now_ms() -> (res: i64) {
    chrono::Utc::now().timestamp_millis()
}

/// Whether `time` is one that the clock showed, in seconds since 1970.
pub closed spec fn is_time(time: i64) -> bool {
    call_ensures(now_ts, (), time)
}

/// Whether `time` is one that the clock showed, in milliseconds since 1970.
pub closed spec fn is_time_in_millis(time: i64) -> bool {
    call_ensures(now_ms, (), time)
}

fn shown<F: Fn() -> i64>(clock: F) -> (res: i64)
    requires
        clock.requires(()),
    ensures
        clock.ensures((), res),
{
    clock()
}

/// The time that the clock shows, in seconds since 1970.
pub(crate) fn time_of_day() -> (res: i64)
    ensures
        is_time(res),
{
    shown(now_ts)
}

/// The time that the clock shows, in milliseconds since 1970.
pub(crate) fn time_of_day_in_millis() -> (res: i64)
    ensures
        is_time_in_millis(res),
{
    shown(now_ms)
}

}
