use crate::time::{Duration, Timestamp};
use vstd::prelude::*;

verus! {

/// Waits the same delay after every attempt.
#[derive(Debug, Clone, Copy)]
pub struct ConstantBackoff {
    pub base_delay: Duration,
}

impl ConstantBackoff {
    /// A constant backoff with the given parameters.
    pub fn new(base_delay: Duration) -> (backoff: Self)
        ensures
            backoff.base_delay == base_delay,
    {
        Self { base_delay }
    }

    /// Microseconds since the epoch of the next attempt: `from + base_delay`,
    /// whatever the attempt count.
    pub open spec fn spec_try_at(&self, attempt: int, from: Timestamp) -> int {
        from.micros + self.base_delay.micros
    }

    /// The next attempt's instant, or `None` when it is not representable.
    pub fn checked_try_at(&self, attempt: i32, from: Timestamp) -> (r: Option<Timestamp>)
        ensures
            match r {
                Some(t) => t.micros == self.spec_try_at(attempt as int, from),
                None => self.spec_try_at(attempt as int, from) > i64::MAX,
            },
    {
        from.checked_add(self.base_delay)
    }

    /// The next attempt's instant.
    pub fn try_at(&self, attempt: i32, from: Timestamp) -> (t: Timestamp)
        requires
            self.spec_try_at(attempt as int, from) <= i64::MAX,
        ensures
            t.micros == self.spec_try_at(attempt as int, from),
    {
        from.plus(self.base_delay)
    }
}

} // verus!
