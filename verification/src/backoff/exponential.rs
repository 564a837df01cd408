use crate::time::{Duration, Timestamp};
use vstd::arithmetic::power::{
    lemma0_pow, lemma1_pow, lemma_pow0, lemma_pow_increases, lemma_pow_positive, pow,
};
use vstd::prelude::*;

verus! {

/// Multiplies the delay by `base` with every attempt after the first.
#[derive(Debug, Clone, Copy)]
pub struct ExponentialBackoff {
    pub base: u32,
    pub base_delay: Duration,
}

impl ExponentialBackoff {
    /// A exponential backoff with the given parameters.
    pub fn new(base: u32, base_delay: Duration) -> (backoff: Self)
        ensures
            backoff.base == base,
            backoff.base_delay == base_delay,
    {
        Self { base, base_delay }
    }

    /// The wait in microseconds before attempt number `attempt`: none for a
    /// count of zero or less, else `base_delay * base^(attempt - 1)`.
    pub open spec fn spec_delay(&self, attempt: int) -> int {
        if attempt <= 0 {
            0
        } else {
            self.base_delay.micros * pow(self.base as int, (attempt - 1) as nat)
        }
    }

    /// Microseconds since the epoch of the next attempt: `from` plus the wait.
    pub open spec fn spec_try_at(&self, attempt: int, from: Timestamp) -> int {
        from.micros + self.spec_delay(attempt)
    }

    /// The next attempt's instant, or `None` when it is not representable.
    pub fn checked_try_at(&self, attempt: i32, from: Timestamp) -> (r: Option<Timestamp>)
        ensures
            match r {
                Some(t) => t.micros == self.spec_try_at(attempt as int, from),
                None => self.spec_try_at(attempt as int, from) > i64::MAX,
            },
            attempt <= 0 ==> r == Some(from),
    {
        if attempt <= 0 {
            return Some(from);
        }
        let steps: u32 = (attempt - 1) as u32;
        let delay: u64 = self.base_delay.micros;
        let ghost b = self.base as int;
        if delay == 0 {
            assert(0 * pow(b, steps as nat) == 0) by (nonlinear_arith);
            return Some(from);
        }
        if self.base == 0 && steps > 0 {
            proof {
                lemma0_pow(steps as nat);
            }
            return Some(from);
        }
        if self.base <= 1 || steps == 0 {
            proof {
                if steps == 0 {
                    lemma_pow0(b);
                } else {
                    lemma1_pow(steps as nat);
                }
            }
            return from.checked_add(self.base_delay);
        }
        let limit: i128 = i64::MAX as i128 - from.micros as i128;
        let mut acc: i128 = delay as i128;
        let mut k: u32 = 0;
        proof {
            lemma_pow0(b);
        }
        while k < steps
            invariant
                k <= steps,
                attempt >= 1,
                steps == attempt - 1,
                delay == self.base_delay.micros,
                limit == i64::MAX - from.micros,
                b == self.base,
                b >= 2,
                delay >= 1,
                0 <= limit <= 0xffff_ffff_ffff_ffff,
                acc == delay * pow(b, k as nat),
                acc >= 1,
            decreases steps - k,
        {
            if acc > limit {
                proof {
                    lemma_pow_increases(b as nat, k as nat, steps as nat);
                    lemma_pow_positive(b, k as nat);
                    assert(delay * pow(b, k as nat) <= delay * pow(b, steps as nat))
                        by (nonlinear_arith)
                        requires
                            delay >= 1,
                            pow(b, k as nat) <= pow(b, steps as nat),
                    ;
                }
                return None;
            }
            proof {
                reveal(pow);
                assert(pow(b, (k + 1) as nat) == b * pow(b, k as nat));
                assert(acc * b == delay * (b * pow(b, k as nat))) by (nonlinear_arith)
                    requires
                        acc == delay * pow(b, k as nat),
                ;
                assert(1 <= acc * b <= 0xffff_ffff_ffff_ffff * 0xffff_ffff) by (nonlinear_arith)
                    requires
                        1 <= acc <= 0xffff_ffff_ffff_ffff,
                        2 <= b <= 0xffff_ffff,
                ;
            }
            acc = acc * (self.base as i128);
            k = k + 1;
        }
        if acc > limit {
            None
        } else {
            Some(Timestamp { micros: (from.micros as i128 + acc) as i64 })
        }
    }

    /// The next attempt's instant.
    pub fn try_at(&self, attempt: i32, from: Timestamp) -> (t: Timestamp)
        requires
            self.spec_try_at(attempt as int, from) <= i64::MAX,
        ensures
            t.micros == self.spec_try_at(attempt as int, from),
            attempt <= 0 ==> t == from,
    {
        match self.checked_try_at(attempt, from) {
            Some(t) => t,
            None => from,
        }
    }
}

/// Without a failed attempt there is nothing to wait for: a count of zero
/// gives the reference instant back.
pub proof fn lemma_zero_attempts_no_delay(backoff: ExponentialBackoff, from: Timestamp)
    ensures
        backoff.spec_try_at(0, from) == from.micros,
{
}

/// The first attempt waits exactly the base delay, whatever the base.
pub proof fn lemma_first_attempt_waits_base_delay(backoff: ExponentialBackoff, from: Timestamp)
    ensures
        backoff.spec_try_at(1, from) == from.micros + backoff.base_delay.micros,
{
    lemma_pow0(backoff.base as int);
}

/// Each further attempt multiplies the wait by the base.
pub proof fn lemma_next_attempt_multiplies(backoff: ExponentialBackoff, attempt: int)
    requires
        attempt >= 1,
    ensures
        backoff.spec_delay(attempt + 1) == backoff.base * backoff.spec_delay(attempt),
{
    let b = backoff.base as int;
    let d = backoff.base_delay.micros as int;
    let p = pow(b, (attempt - 1) as nat);
    assert(pow(b, attempt as nat) == b * p) by {
        reveal(pow);
    }
    assert(d * (b * p) == b * (d * p)) by (nonlinear_arith);
}

} // verus!
