//! Instants and lengths of time, both counted in whole microseconds, the
//! resolution at which the queue's tables keep them.

use vstd::prelude::*;

verus! {

/// Microseconds in one millisecond, one second and one minute.
pub const MICROS_PER_MILLI: u64 = 1_000;

pub const MICROS_PER_SEC: u64 = 1_000_000;

pub const MICROS_PER_MIN: u64 = 60_000_000;

/// A non-negative length of time in microseconds.
#[derive(Clone, Copy, Debug, PartialEq, Eq, PartialOrd, Ord, Structural)]
pub struct Duration {
    pub micros: u64,
}

impl Duration {
    /// The empty duration.
    pub fn zero() -> (d: Duration)
        ensures
            d.micros == 0,
    {
        Duration { micros: 0 }
    }

    /// A duration of `micros` microseconds.
    pub fn from_micros(micros: u64) -> (d: Duration)
        ensures
            d.micros == micros,
    {
        Duration { micros }
    }

    /// A duration of `millis` milliseconds.
    pub fn from_millis(millis: u64) -> (d: Duration)
        requires
            millis * MICROS_PER_MILLI <= u64::MAX,
        ensures
            d.micros == millis * MICROS_PER_MILLI,
    {
        Duration { micros: millis * MICROS_PER_MILLI }
    }

    /// A duration of `secs` seconds.
    pub fn from_secs(secs: u64) -> (d: Duration)
        requires
            secs * MICROS_PER_SEC <= u64::MAX,
        ensures
            d.micros == secs * MICROS_PER_SEC,
    {
        Duration { micros: secs * MICROS_PER_SEC }
    }

    /// A duration of `mins` minutes.
    pub fn from_mins(mins: u64) -> (d: Duration)
        requires
            mins * MICROS_PER_MIN <= u64::MAX,
        ensures
            d.micros == mins * MICROS_PER_MIN,
    {
        Duration { micros: mins * MICROS_PER_MIN }
    }

    /// The length in microseconds.
    pub fn as_micros(&self) -> (micros: u64)
        ensures
            micros == self.micros,
    {
        self.micros
    }
}

/// An instant on the UTC time line: microseconds since 1970-01-01T00:00:00Z,
/// negative before it.
#[derive(Clone, Copy, Debug, PartialEq, Eq, PartialOrd, Ord, Structural)]
pub struct Timestamp {
    pub micros: i64,
}

impl Timestamp {
    /// The instant `micros` microseconds after the epoch.
    pub fn from_micros(micros: i64) -> (t: Timestamp)
        ensures
            t.micros == micros,
    {
        Timestamp { micros }
    }

    /// Microseconds since the epoch.
    pub fn as_micros(&self) -> (micros: i64)
        ensures
            micros == self.micros,
    {
        self.micros
    }

    /// Whether `self + d` is still a representable instant.
    pub open spec fn can_add(self, d: Duration) -> bool {
        self.micros + d.micros <= i64::MAX
    }

    /// The instant `d` after `self`.
    pub open spec fn spec_plus(self, d: Duration) -> Timestamp {
        Timestamp { micros: (self.micros + d.micros) as i64 }
    }

    /// `self + d`, or `None` when that instant lies beyond the representable range.
    pub fn checked_add(self, d: Duration) -> (r: Option<Timestamp>)
        ensures
            self.can_add(d) ==> r == Some(self.spec_plus(d)),
            !self.can_add(d) ==> r.is_none(),
    {
        let sum: i128 = self.micros as i128 + d.micros as i128;
        if sum <= i64::MAX as i128 {
            Some(Timestamp { micros: sum as i64 })
        } else {
            None
        }
    }

    /// `self + d`.
    pub fn plus(self, d: Duration) -> (t: Timestamp)
        requires
            self.can_add(d),
        ensures
            t == self.spec_plus(d),
    {
        let sum: i128 = self.micros as i128 + d.micros as i128;
        Timestamp { micros: sum as i64 }
    }

    /// The time from `earlier` up to `self`; zero when `earlier` is not earlier.
    pub fn saturating_duration_since(self, earlier: Timestamp) -> (d: Duration)
        ensures
            self.micros >= earlier.micros ==> d.micros == self.micros - earlier.micros,
            self.micros < earlier.micros ==> d.micros == 0,
    {
        if self.micros >= earlier.micros {
            let diff: i128 = self.micros as i128 - earlier.micros as i128;
            Duration { micros: diff as u64 }
        } else {
            Duration { micros: 0 }
        }
    }

    /// Reads the system clock through `chrono::Utc::now` and keeps the
    /// microseconds since the epoch that `DateTime::timestamp_micros` reports.
    /// Nothing is claimed of the instant that comes back.
    #[verifier::external_body]
    pub(crate) fn now() -> (t: Timestamp) {
        Timestamp { micros: chrono::Utc::now().timestamp_micros() }
    }
}

} // verus!
