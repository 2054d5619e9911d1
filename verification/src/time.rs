//! Instants as plain numbers, and whole seconds between two of them.

use vstd::prelude::*;

verus! {

/// A point in time: seconds since the Unix epoch and the nanoseconds past
/// that second.
#[derive(Debug, Clone, Copy, PartialEq, Eq, Structural)]
pub struct Timestamp {
    pub secs: i64,
    pub nanos: u32,
}

pub open spec fn nanos_per_sec() -> int {
    1_000_000_000
}

impl Timestamp {
    /// Nanoseconds since the epoch.
    pub open spec fn total_nanos(self) -> int {
        self.secs * nanos_per_sec() + self.nanos
    }
}

/// `a / b` rounded toward zero, for positive `b`.
pub open spec fn div_toward_zero(a: int, b: int) -> int
    recommends
        b > 0,
{
    if a >= 0 {
        a / b
    } else {
        -((-a) / b)
    }
}

/// The whole seconds that passed from `then` to `now`, rounded toward zero;
/// negative where `then` lies ahead of `now`.
pub open spec fn elapsed_seconds(then: Timestamp, now: Timestamp) -> int {
    div_toward_zero(now.total_nanos() - then.total_nanos(), nanos_per_sec())
}

/// `x` held to the range of `i64`.
pub open spec fn saturated(x: int) -> int {
    if x < i64::MIN {
        i64::MIN as int
    } else if x > i64::MAX {
        i64::MAX as int
    } else {
        x
    }
}

/// The whole seconds from `then` to `now`, held to the range of `i64`.
pub fn whole_seconds_between(then: Timestamp, now: Timestamp) -> (secs: i64)
    ensures
        secs == saturated(elapsed_seconds(then, now)),
{
    let billion: i128 = 1_000_000_000;
    let a: i128 = (now.secs as i128) * billion + (now.nanos as i128);
    let b: i128 = (then.secs as i128) * billion + (then.nanos as i128);
    let diff: i128 = a - b;
    let q: i128 = if diff >= 0 {
        diff / billion
    } else {
        -((-diff) / billion)
    };
    assert(q == elapsed_seconds(then, now));
    if q < i64::MIN as i128 {
        i64::MIN
    } else if q > i64::MAX as i128 {
        i64::MAX
    } else {
        q as i64
    }
}

} // verus!
