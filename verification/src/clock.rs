//! Monotonic time as plain numbers.
//!
//! A point in time is a count of nanoseconds since an origin that the program
//! picks at start; a duration is a count of nanoseconds.

use vstd::prelude::*;

verus! {

/// Nanoseconds, either of a point in time or of a duration.
pub type Nanos = u128;

/// Nanoseconds in one millisecond.
pub const NANOS_PER_MILLI: u128 = 1_000_000;

/// Nanoseconds in one second.
pub const NANOS_PER_SEC: u128 = 1_000_000_000;

/// The time that has passed at `now` since `since`; zero if `since` lies ahead.
pub open spec fn elapsed(since: Nanos, now: Nanos) -> int {
    if now >= since {
        now - since
    } else {
        0
    }
}

/// The time that has passed at `now` since `since`; zero if `since` lies ahead.
pub fn elapsed_since(since: Nanos, now: Nanos) -> (d: Nanos)
    ensures
        d == elapsed(since, now),
{
    if now >= since {
        now - since
    } else {
        0
    }
}

/// The point in time `d` after `t`, or the last representable one.
pub open spec fn later(t: Nanos, d: Nanos) -> Nanos {
    if t + d <= u128::MAX {
        (t + d) as u128
    } else {
        u128::MAX
    }
}

/// The point in time `d` after `t`, or the last representable one.
pub fn after(t: Nanos, d: Nanos) -> (res: Nanos)
    ensures
        res == later(t, d),
{
    if t <= u128::MAX - d {
        t + d
    } else {
        u128::MAX
    }
}

/// Time passes and is added up as on a clock: what has passed since a point leads
/// from there to now, a point that lies ahead has seen none, and a deadline is
/// reached exactly when the time to it has passed.
pub proof fn law_time_adds_up(t: Nanos, d: Nanos, now: Nanos)
    ensures
        t <= now ==> t + elapsed(t, now) == now,
        t >= now ==> elapsed(t, now) == 0,
        t + d <= u128::MAX ==> later(t, d) == t + d,
        t + d > u128::MAX ==> later(t, d) == u128::MAX,
        t + d <= u128::MAX && t <= now ==> (now >= later(t, d) <==> elapsed(t, now) >= d),
{
}

} // verus!
