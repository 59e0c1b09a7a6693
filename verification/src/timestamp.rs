//! Minute-granular timestamps.
//!
//! Facts are recorded at most once per site per minute, so the store only
//! ever holds instants that lie exactly on a minute boundary.  An instant
//! is a count of whole seconds since the Unix epoch plus a sub-second
//! nanosecond part; truncation drops the seconds-within-the-minute and the
//! sub-second part.

use vstd::prelude::*;

verus! {

/// Length of one probing cycle, and of the truncation granularity.
pub const SECONDS_PER_MINUTE: u64 = 60;

/// Length of the trailing aggregation window.
pub const SECONDS_PER_DAY: u64 = 86400;

/// A point in time: whole seconds since the Unix epoch and a nanosecond
/// remainder below one second.
#[derive(Clone, Copy, PartialEq, Eq, Structural, Debug, Hash)]
pub struct Timestamp {
    pub secs: u64,
    pub nanos: u32,
}

impl Timestamp {
    /// The instant lies exactly on a minute boundary: no seconds within
    /// the minute and no sub-second component.
    pub open spec fn minute_truncated(self) -> bool {
        self.secs % 60 == 0 && self.nanos == 0
    }

    /// Strict chronological order.
    pub open spec fn lt(self, other: Timestamp) -> bool {
        self.secs < other.secs || (self.secs == other.secs && self.nanos < other.nanos)
    }

    /// Chronological order, equality allowed.
    pub open spec fn le(self, other: Timestamp) -> bool {
        self.secs < other.secs || (self.secs == other.secs && self.nanos <= other.nanos)
    }

    /// The instant falls within the trailing 24-hour window ending at
    /// `now`.  Sub-second parts are ignored: the store only holds
    /// minute-truncated instants.
    pub open spec fn in_trailing_day(self, now: Timestamp) -> bool {
        self.secs as int >= now.secs as int - 86400
    }

    /// Drops the seconds-within-the-minute and the sub-second component of
    /// a raw clock reading.
    pub fn truncate_to_minute(secs: u64, nanos: u32) -> (r: Timestamp)
        ensures
            r.minute_truncated(),
            r.secs == secs - secs % 60,
            r.nanos == 0,
            r.secs <= secs,
    {
        Timestamp { secs: secs - secs % 60, nanos: 0 }
    }

    /// Strict chronological comparison.
    pub fn is_before(&self, other: &Timestamp) -> (r: bool)
        ensures
            r == self.lt(*other),
    {
        self.secs < other.secs || (self.secs == other.secs && self.nanos < other.nanos)
    }

    /// Membership in the trailing 24-hour window ending at `now`.
    pub fn is_in_trailing_day(&self, now: &Timestamp) -> (r: bool)
        ensures
            r == self.in_trailing_day(*now),
    {
        let start: u64 = if now.secs >= SECONDS_PER_DAY {
            now.secs - SECONDS_PER_DAY
        } else {
            0
        };
        self.secs >= start
    }
}

} // verus!
