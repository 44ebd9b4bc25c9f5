//! Points in time and spans of time, in whole nanoseconds.
use vstd::prelude::*;
use vstd::std_specs::ops::AddSpecImpl;

verus! {

/// A span of time.
#[derive(Debug, Clone, Copy, PartialEq, Eq, PartialOrd, Ord, Hash, Structural)]
pub struct Duration {
    /// Number of nanoseconds in the span.
    pub nanos: u128,
}

impl Duration {
    /// A span of whole seconds.
    pub fn from_secs(secs: u64) -> (r: Duration)
        ensures
            r.nanos == secs * 1_000_000_000,
    {
        Duration { nanos: secs as u128 * 1_000_000_000 }
    }

    /// A span of whole milliseconds.
    pub fn from_millis(millis: u64) -> (r: Duration)
        ensures
            r.nanos == millis * 1_000_000,
    {
        Duration { nanos: millis as u128 * 1_000_000 }
    }

    /// A span of nanoseconds.
    pub fn from_nanos(nanos: u128) -> (r: Duration)
        ensures
            r.nanos == nanos,
    {
        Duration { nanos }
    }

    /// The number of nanoseconds in the span.
    pub fn as_nanos(&self) -> (r: u128)
        ensures
            r == self.nanos,
    {
        self.nanos
    }
}

/// An absolute point in time: nanoseconds after an arbitrary zero point that
/// the user of the crate picks, negative before it.
#[derive(Debug, Clone, Copy, PartialEq, Eq, PartialOrd, Ord, Hash, Structural)]
pub struct Instant {
    /// Number of nanoseconds after the zero point.
    pub nanos: i64,
}

/// Whether the point in time that lies `duration` after `instant` can be
/// computed: the span and the result have to be in the range of an instant.
pub open spec fn reaches(instant: Instant, duration: Duration) -> bool {
    duration.nanos <= i64::MAX && instant.nanos + duration.nanos <= i64::MAX
}

/// The point in time that lies `duration` after `instant`.
pub open spec fn later(instant: Instant, duration: Duration) -> Instant {
    Instant { nanos: (instant.nanos + duration.nanos) as i64 }
}

impl Instant {
    /// The zero point.
    pub fn zero() -> (r: Instant)
        ensures
            r.nanos == 0,
    {
        Instant { nanos: 0 }
    }

    /// The point that lies `nanos` nanoseconds after the zero point.
    pub fn from_nanos(nanos: i64) -> (r: Instant)
        ensures
            r.nanos == nanos,
    {
        Instant { nanos }
    }

    /// The number of nanoseconds after the zero point.
    pub fn as_nanos(&self) -> (r: i64)
        ensures
            r == self.nanos,
    {
        self.nanos
    }

    /// The point in time that lies `duration` later, or `None` if that cannot
    /// be computed.
    pub fn checked_add(&self, duration: Duration) -> (r: Option<Instant>)
        ensures
            r == if reaches(*self, duration) {
                Some(later(*self, duration))
            } else {
                None
            },
    {
        if duration.nanos > i64::MAX as u128 {
            return None;
        }
        let nanos: i128 = self.nanos as i128 + duration.nanos as i128;
        if nanos <= i64::MAX as i128 {
            Some(Instant { nanos: nanos as i64 })
        } else {
            None
        }
    }
}

impl core::ops::Add<Duration> for Instant {
    type Output = Instant;

    fn add(self, rhs: Duration) -> (r: Instant) {
        self.checked_add(rhs).unwrap()
    }
}

impl AddSpecImpl<Duration> for Instant {
    open spec fn obeys_add_spec() -> bool {
        true
    }

    open spec fn add_req(self, rhs: Duration) -> bool {
        reaches(self, rhs)
    }

    open spec fn add_spec(self, rhs: Duration) -> Instant {
        later(self, rhs)
    }
}

} // verus!
