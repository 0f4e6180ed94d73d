//! Spans of time.

use vstd::prelude::*;

verus! {

/// A span of time in whole nanoseconds.
#[derive(Clone, Copy, Debug, PartialEq, Eq, Structural)]
pub struct Duration {
    pub nanos: u128,
}

impl Duration {
    pub fn zero() -> (d: Self)
        ensures
            d.nanos == 0,
    {
        Duration { nanos: 0 }
    }

    pub fn from_secs(secs: u64) -> (d: Self)
        ensures
            d.nanos == secs * 1_000_000_000,
    {
        Duration { nanos: secs as u128 * 1_000_000_000 }
    }

    pub fn from_micros(micros: u64) -> (d: Self)
        ensures
            d.nanos == micros * 1_000,
    {
        Duration { nanos: micros as u128 * 1_000 }
    }

    /// Whole microseconds; the rest is dropped.
    pub fn as_micros(&self) -> (us: u128)
        ensures
            us == self.nanos / 1_000,
    {
        self.nanos / 1_000
    }

    /// Whole seconds; the rest is dropped.
    pub fn as_secs(&self) -> (secs: u128)
        ensures
            secs == self.nanos / 1_000_000_000,
    {
        self.nanos / 1_000_000_000
    }

    /// `self - other`, or nothing at all where `other` is the longer one.
    pub fn saturating_sub(&self, other: Duration) -> (d: Self)
        ensures
            d.nanos == if self.nanos >= other.nanos {
                self.nanos - other.nanos
            } else {
                0
            },
    {
        if self.nanos >= other.nanos {
            Duration { nanos: self.nanos - other.nanos }
        } else {
            Duration { nanos: 0 }
        }
    }

    /// The microseconds of the span as a signed timeline position.
    pub open spec fn us(self) -> i64 {
        (self.nanos / 1_000) as i64
    }

    /// Whether the span fits a signed timeline position: it is shorter than
    /// 292 thousand years.
    pub open spec fn fits_timeline(self) -> bool {
        self.nanos / 1_000 <= i64::MAX
    }

    pub fn as_timeline_us(&self) -> (us: i64)
        ensures
            us == self.us(),
    {
        (self.nanos / 1_000) as i64
    }
}

} // verus!
