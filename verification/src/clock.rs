//! Readings of a monotonic clock and spans of time, as plain numbers.

use vstd::prelude::*;

verus! {

/// A reading of a monotonic clock: nanoseconds since that clock's own epoch.
pub type Instant = u128;

/// A span of time in nanoseconds.
pub type Duration = u128;

pub const MILLISECOND: Duration = 1_000_000;

pub const SECOND: Duration = 1_000_000_000;

/// The time that has passed from `since` to `now`, zero when `since` is the
/// later of the two: a clock reading that raced another never counts backwards.
pub open spec fn spec_elapsed(since: Instant, now: Instant) -> int {
    if now >= since {
        now - since
    } else {
        0
    }
}

pub fn elapsed(since: Instant, now: Instant) -> (span: Duration)
    ensures
        span == spec_elapsed(since, now),
{
    if now >= since {
        now - since
    } else {
        0
    }
}

/// The span to a later reading leads back to it, and no time passes backwards: two spans in
/// a row add up.
pub proof fn spans_add_up(start: Instant, middle: Instant, end: Instant)
    requires
        start <= middle <= end,
    ensures
        start + spec_elapsed(start, end) == end,
        spec_elapsed(start, middle) + spec_elapsed(middle, end) == spec_elapsed(start, end),
        spec_elapsed(end, start) == 0,
{
}

} // verus!
