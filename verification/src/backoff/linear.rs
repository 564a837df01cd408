use crate::time::{Duration, Timestamp};
use vstd::prelude::*;

verus! {

/// Waits one more base delay with every attempt.
#[derive(Debug, Clone, Copy)]
pub struct LinearBackoff {
    pub base_delay: Duration,
}

impl LinearBackoff {
    /// A linear backoff with the given parameters.
    pub fn new(base_delay: Duration) -> (backoff: Self)
        ensures
            backoff.base_delay == base_delay,
    {
        Self { base_delay }
    }

    /// Microseconds since the epoch of the next attempt:
    /// `from + base_delay * attempt`.
    pub open spec fn spec_try_at(&self, attempt: int, from: Timestamp) -> int {
        from.micros + self.base_delay.micros * attempt
    }

    /// Whether the next attempt's instant is representable.
    pub open spec fn in_range(&self, attempt: int, from: Timestamp) -> bool {
        i64::MIN <= self.spec_try_at(attempt, from) <= i64::MAX
    }

    /// The next attempt's instant, or `None` when it is not representable.
    pub fn checked_try_at(&self, attempt: i32, from: Timestamp) -> (r: Option<Timestamp>)
        ensures
            match r {
                Some(t) => t.micros == self.spec_try_at(attempt as int, from),
                None => !self.in_range(attempt as int, from),
            },
    {
        let delay: i128 = self.base_delay.micros as i128;
        let count: i128 = attempt as i128;
        assert(-0x8000_0000_0000_0000_0000_0000 <= delay * count <= 0x8000_0000_0000_0000_0000_0000)
            by (nonlinear_arith)
            requires
                0 <= delay <= 0xffff_ffff_ffff_ffff,
                -0x8000_0000 <= count <= 0x7fff_ffff,
        ;
        let at: i128 = from.micros as i128 + delay * count;
        if i64::MIN as i128 <= at && at <= i64::MAX as i128 {
            Some(Timestamp { micros: at as i64 })
        } else {
            None
        }
    }

    /// The next attempt's instant.
    pub fn try_at(&self, attempt: i32, from: Timestamp) -> (t: Timestamp)
        requires
            self.in_range(attempt as int, from),
        ensures
            t.micros == self.spec_try_at(attempt as int, from),
    {
        match self.checked_try_at(attempt, from) {
            Some(t) => t,
            None => from,
        }
    }
}

} // verus!
