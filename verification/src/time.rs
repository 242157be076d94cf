//! Spans of time, counted in whole nanoseconds.
use vstd::prelude::*;

verus! {

/// A span of time, or a point on a clock as the span since that clock started.
#[derive(Clone, Copy, Debug, PartialEq, Eq, Structural)]
pub struct Duration {
    pub nanos: u128,
}

impl Duration {
    pub fn zero() -> (span: Duration)
        ensures
            span.nanos == 0,
    {
        Duration { nanos: 0 }
    }

    /// The span of that many milliseconds.
    pub open spec fn millis(millis: u64) -> Duration {
        Duration { nanos: (millis * 1_000_000) as u128 }
    }

    pub fn from_secs(secs: u64) -> (span: Duration)
        ensures
            span.nanos == secs * 1_000_000_000,
    {
        Duration { nanos: secs as u128 * 1_000_000_000 }
    }

    pub fn from_millis(millis: u64) -> (span: Duration)
        ensures
            span.nanos == millis * 1_000_000,
    {
        Duration { nanos: millis as u128 * 1_000_000 }
    }

    pub fn from_micros(micros: u64) -> (span: Duration)
        ensures
            span.nanos == micros * 1_000,
    {
        Duration { nanos: micros as u128 * 1_000 }
    }

    /// The span left after taking `other` away, never below zero.
    pub open spec fn minus(self, other: Duration) -> int {
        if self.nanos >= other.nanos {
            self.nanos - other.nanos
        } else {
            0
        }
    }

    pub fn saturating_sub(self, other: Duration) -> (left: Duration)
        ensures
            left.nanos == self.minus(other),
    {
        if self.nanos >= other.nanos {
            Duration { nanos: self.nanos - other.nanos }
        } else {
            Duration { nanos: 0 }
        }
    }

    /// The sum of both spans. The caller keeps it on the clock's range.
    pub fn plus(self, other: Duration) -> (sum: Duration)
        requires
            self.nanos + other.nanos <= u128::MAX,
        ensures
            sum.nanos == self.nanos + other.nanos,
    {
        Duration { nanos: self.nanos + other.nanos }
    }

    pub fn is_zero(self) -> (zero: bool)
        ensures
            zero == (self.nanos == 0),
    {
        self.nanos == 0
    }

    /// Whole milliseconds, rounded down.
    pub fn as_millis(self) -> (millis: u128)
        ensures
            millis == self.nanos as int / 1_000_000,
    {
        self.nanos / 1_000_000
    }
}

impl Default for Duration {
    fn default() -> (span: Duration)
        ensures
            span.nanos == 0,
    {
        Duration::zero()
    }
}

} // verus!
