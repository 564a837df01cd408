//! The decisions of the poll-control stream: when a worker is told to poll.
//!
//! The stream itself runs where timers and the notification upstream live;
//! it hands each event to the state kept here and does what comes back.

use crate::backoff::ExponentialBackoff;
use crate::time::{Duration, Timestamp};
use vstd::arithmetic::power::{lemma_pow0, lemma_pow1, pow};
use vstd::prelude::*;

verus! {

/// What the notification upstream answered when it was polled.
#[derive(Debug, Clone, Copy, PartialEq, Eq, Structural)]
pub enum UpstreamPoll {
    /// A notification arrived; what it carries is ignored.
    Notification,
    /// The upstream failed.
    Error,
    /// The upstream has ended.
    Ended,
    /// Nothing yet; the upstream will wake the consumer itself.
    Pending,
}

/// What the stream does next.
#[derive(Debug, Clone, Copy, PartialEq, Eq, Structural)]
pub enum PollStep {
    /// Yield a "poll now" token.
    Emit,
    /// Yield the upstream's error.
    ForwardError,
    /// Not ready: arm a timer that wakes the consumer after this delay.
    WakeIn(Duration),
    /// Poll the notification upstream and come back with its answer.
    AskUpstream,
}

/// The state of a poll-control stream.
#[derive(Debug)]
pub struct PollControlStream {
    /// Whether a notification upstream is attached.
    pub has_pg_stream: bool,
    /// How many polls in a row have failed.
    pub failed_attempts: i32,
    /// The instant of the last emit, from which delays are counted.
    pub reference_time: Timestamp,
    pub backoff: ExponentialBackoff,
    /// Whether the next emit is forced to be immediate.
    pub poll: bool,
}

impl PollControlStream {
    /// A stream that starts at `now` and emits at once when first polled.
    pub open spec fn started(backoff: ExponentialBackoff, now: Timestamp) -> PollControlStream {
        PollControlStream {
            has_pg_stream: false,
            failed_attempts: 0,
            reference_time: now,
            backoff,
            poll: true,
        }
    }

    /// A new stream; the clock gives its reference instant.
    pub fn new(backoff: ExponentialBackoff) -> (stream: Self)
        ensures
            exists|now: Timestamp| stream == Self::started(backoff, now),
    {
        let now = Timestamp::now();
        let stream = Self {
            has_pg_stream: false,
            failed_attempts: 0,
            reference_time: now,
            backoff,
            poll: true,
        };
        assert(stream == Self::started(backoff, now));
        stream
    }

    /// Records that a notification upstream was attached, or replaced.
    pub fn with_pg_stream(&mut self)
        ensures
            *final(self) == (PollControlStream { has_pg_stream: true, ..*old(self) }),
    {
        self.has_pg_stream = true;
    }

    /// Counts one more failed poll.
    pub fn increment_failed_attempts(&mut self)
        requires
            old(self).failed_attempts < i32::MAX,
        ensures
            *final(self) == (PollControlStream {
                failed_attempts: (old(self).failed_attempts + 1) as i32,
                ..*old(self)
            }),
    {
        self.failed_attempts = self.failed_attempts + 1;
    }

    /// Forgets the failed polls: back to the regular interval.
    pub fn reset_failed_attempts(&mut self)
        ensures
            *final(self) == (PollControlStream { failed_attempts: 0, ..*old(self) }),
    {
        self.failed_attempts = 0;
    }

    /// Forces the next emit to be immediate.
    pub fn set_poll(&mut self)
        ensures
            *final(self) == (PollControlStream { poll: true, ..*old(self) }),
    {
        self.poll = true;
    }

    /// The instant before which the backoff allows no emit, in microseconds
    /// since the epoch, for `attempts` failed polls.
    pub open spec fn deadline(self, attempts: int) -> int {
        self.backoff.spec_try_at(attempts, self.reference_time)
    }

    /// Whether the deadline that a poll consults is representable. While
    /// failed polls are counted that is their deadline; a forced poll and a
    /// poll that asks the upstream consult none; else it is the deadline of
    /// the regular interval.
    pub open spec fn poll_fits(self) -> bool {
        if self.failed_attempts > 0 {
            self.deadline(self.failed_attempts as int) <= i64::MAX
        } else if self.poll || self.has_pg_stream {
            true
        } else {
            self.deadline(1) <= i64::MAX
        }
    }

    /// Whether the deadline that a poll consults is representable.
    pub fn can_poll(&self) -> (fits: bool)
        ensures
            fits == self.poll_fits(),
    {
        if self.failed_attempts > 0 {
            self.backoff.checked_try_at(self.failed_attempts, self.reference_time).is_some()
        } else if self.poll || self.has_pg_stream {
            true
        } else {
            self.backoff.checked_try_at(1, self.reference_time).is_some()
        }
    }

    /// Whether the deadline that the poll consults after the upstream's
    /// answer is representable: a notification and an error consult none, the
    /// other answers that of the regular interval.
    pub open spec fn resume_fits(self, answer: UpstreamPoll) -> bool {
        match answer {
            UpstreamPoll::Notification => true,
            UpstreamPoll::Error => true,
            UpstreamPoll::Ended => self.deadline(1) <= i64::MAX,
            UpstreamPoll::Pending => self.deadline(1) <= i64::MAX,
        }
    }

    /// Whether the deadline that the poll consults after the upstream's
    /// answer is representable.
    pub fn can_resume(&self, answer: UpstreamPoll) -> (fits: bool)
        ensures
            fits == self.resume_fits(answer),
    {
        match answer {
            UpstreamPoll::Notification => true,
            UpstreamPoll::Error => true,
            UpstreamPoll::Ended => self.backoff.checked_try_at(1, self.reference_time).is_some(),
            UpstreamPoll::Pending => self.backoff.checked_try_at(1, self.reference_time).is_some(),
        }
    }

    /// The state and the step after the backoff for `attempts` failed polls
    /// was consulted at `now`: from the deadline on, an emit that moves the
    /// reference instant to `now`; before it, a timer for the time left.
    pub open spec fn after_backoff_timing(self, now: Timestamp, attempts: int) -> (
        PollControlStream,
        PollStep,
    ) {
        if now.micros >= self.deadline(attempts) {
            (PollControlStream { reference_time: now, ..self }, PollStep::Emit)
        } else {
            (
                self,
                PollStep::WakeIn(Duration { micros: (self.deadline(attempts) - now.micros) as u64 }),
            )
        }
    }

    /// Decides by the backoff for `attempts` failed polls whether enough time
    /// has passed at `now`.
    pub fn handle_backoff_timing(&mut self, now: Timestamp, attempts: i32) -> (step: PollStep)
        requires
            old(self).deadline(attempts as int) <= i64::MAX,
        ensures
            (*final(self), step) == old(self).after_backoff_timing(now, attempts as int),
    {
        let try_at = self.backoff.try_at(attempts, self.reference_time);
        if now.micros >= try_at.micros {
            self.reference_time = now;
            PollStep::Emit
        } else {
            PollStep::WakeIn(try_at.saturating_duration_since(now))
        }
    }

    /// The state and the step after a poll at `now`. Failed polls come
    /// first: while any is counted, only their backoff decides. Then a forced
    /// poll emits at once and is used up. Then an attached upstream is asked.
    /// Else the regular interval decides, one base delay from the last emit.
    pub open spec fn after_poll(self, now: Timestamp) -> (PollControlStream, PollStep) {
        if self.failed_attempts > 0 {
            self.after_backoff_timing(now, self.failed_attempts as int)
        } else if self.poll {
            (PollControlStream { poll: false, reference_time: now, ..self }, PollStep::Emit)
        } else if self.has_pg_stream {
            (self, PollStep::AskUpstream)
        } else {
            self.after_backoff_timing(now, 1)
        }
    }

    /// Decides what a poll at `now` does.
    pub fn poll_next(&mut self, now: Timestamp) -> (step: PollStep)
        requires
            old(self).poll_fits(),
        ensures
            (*final(self), step) == old(self).after_poll(now),
    {
        if self.failed_attempts > 0 {
            let attempts = self.failed_attempts;
            return self.handle_backoff_timing(now, attempts);
        }
        if self.poll {
            self.poll = false;
            self.reference_time = now;
            return PollStep::Emit;
        }
        if self.has_pg_stream {
            return PollStep::AskUpstream;
        }
        self.handle_backoff_timing(now, 1)
    }

    /// The state and the step after the upstream answered a poll at `now`: a
    /// notification emits and moves the reference instant; an error is
    /// forwarded; an upstream that ended or has nothing yet leaves the
    /// decision to the regular interval.
    pub open spec fn after_upstream(self, now: Timestamp, answer: UpstreamPoll) -> (
        PollControlStream,
        PollStep,
    ) {
        match answer {
            UpstreamPoll::Notification => (
                PollControlStream { reference_time: now, ..self },
                PollStep::Emit,
            ),
            UpstreamPoll::Error => (self, PollStep::ForwardError),
            UpstreamPoll::Ended => self.after_backoff_timing(now, 1),
            UpstreamPoll::Pending => self.after_backoff_timing(now, 1),
        }
    }

    /// Decides what the poll at `now` does once the upstream has answered.
    pub fn resume_poll(&mut self, now: Timestamp, answer: UpstreamPoll) -> (step: PollStep)
        requires
            old(self).resume_fits(answer),
        ensures
            (*final(self), step) == old(self).after_upstream(now, answer),
            step != PollStep::AskUpstream,
    {
        match answer {
            UpstreamPoll::Notification => {
                self.reference_time = now;
                PollStep::Emit
            },
            UpstreamPoll::Error => PollStep::ForwardError,
            UpstreamPoll::Ended => self.handle_backoff_timing(now, 1),
            UpstreamPoll::Pending => self.handle_backoff_timing(now, 1),
        }
    }
}

/// The first poll of a new stream emits at once, whatever the instant.
pub proof fn lemma_first_poll_emits(backoff: ExponentialBackoff, started_at: Timestamp, now: Timestamp)
    ensures
        PollControlStream::started(backoff, started_at).after_poll(now).1 == PollStep::Emit,
{
}

/// A forced poll emits at once, unless failed polls are counted.
pub proof fn lemma_forced_poll_emits(stream: PollControlStream, now: Timestamp)
    requires
        stream.poll,
        stream.failed_attempts <= 0,
    ensures
        stream.after_poll(now).1 == PollStep::Emit,
        !stream.after_poll(now).0.poll,
{
}

/// While failed polls are counted the stream is paced by their backoff
/// alone: it never asks the upstream, it emits exactly from the deadline on,
/// and a forced poll stays pending.
pub proof fn lemma_failed_polls_pace_the_stream(stream: PollControlStream, now: Timestamp)
    requires
        stream.failed_attempts > 0,
    ensures
        stream.after_poll(now).1 != PollStep::AskUpstream,
        stream.after_poll(now).1 == PollStep::Emit <==> now.micros >= stream.deadline(
            stream.failed_attempts as int,
        ),
        stream.after_poll(now).0.poll == stream.poll,
{
}

/// A timer that the stream asks for ends exactly at the deadline, and the
/// poll after it emits.
pub proof fn lemma_timer_ends_at_deadline(stream: PollControlStream, now: Timestamp, attempts: int)
    requires
        stream.deadline(attempts) <= i64::MAX,
        now.micros < stream.deadline(attempts),
    ensures
        stream.after_backoff_timing(now, attempts).1 matches PollStep::WakeIn(delay) && now.micros
            + delay.micros == stream.deadline(attempts) && stream.after_backoff_timing(
            now.spec_plus(delay),
            attempts,
        ).1 == PollStep::Emit,
{
}

/// With `k - 1` failed polls counted, for `k` at least two, the poll emits
/// exactly from `base_delay * base^(k - 2)` after the reference instant on;
/// before that it asks for a timer over the time left and keeps its state.
pub proof fn lemma_failed_polls_wait_out_the_backoff(stream: PollControlStream, now: Timestamp)
    requires
        stream.failed_attempts > 0,
    ensures
        ({
            let wait = stream.backoff.base_delay.micros * pow(
                stream.backoff.base as int,
                (stream.failed_attempts - 1) as nat,
            );
            let due = stream.reference_time.micros + wait;
            &&& now.micros >= due ==> stream.after_poll(now) == (
                PollControlStream { reference_time: now, ..stream },
                PollStep::Emit,
            )
            &&& now.micros < due ==> stream.after_poll(now) == (
                stream,
                PollStep::WakeIn(Duration { micros: (due - now.micros) as u64 }),
            )
        }),
{
}

impl PollControlStream {
    /// The stream with one more failed poll counted.
    pub open spec fn with_one_more_failure(self) -> PollControlStream {
        PollControlStream { failed_attempts: (self.failed_attempts + 1) as i32, ..self }
    }
}

/// Three emits of a new stream, with a failed poll counted after each, span
/// at least one base delay and one base delay times the base: the first is
/// immediate, the second waits the base delay, the third the base delay
/// times the base.
pub proof fn lemma_three_emits_span_two_delays(
    backoff: ExponentialBackoff,
    started_at: Timestamp,
    first: Timestamp,
    second: Timestamp,
    third: Timestamp,
)
    requires
        ({
            let new = PollControlStream::started(backoff, started_at);
            let once = new.after_poll(first).0.with_one_more_failure();
            let twice = once.after_poll(second).0.with_one_more_failure();
            &&& new.after_poll(first).1 == PollStep::Emit
            &&& once.after_poll(second).1 == PollStep::Emit
            &&& twice.after_poll(third).1 == PollStep::Emit
        }),
    ensures
        second.micros - first.micros >= backoff.base_delay.micros,
        third.micros - second.micros >= backoff.base_delay.micros * backoff.base,
        third.micros - first.micros >= backoff.base_delay.micros + backoff.base_delay.micros
            * backoff.base,
{
    let b = backoff.base as int;
    lemma_pow0(b);
    lemma_pow1(b);
    let new = PollControlStream::started(backoff, started_at);
    let once = new.after_poll(first).0.with_one_more_failure();
    assert(once.failed_attempts == 1 && once.reference_time == first);
    assert(once.deadline(1) == first.micros + backoff.base_delay.micros * 1);
    let twice = once.after_poll(second).0.with_one_more_failure();
    assert(twice.failed_attempts == 2 && twice.reference_time == second);
    assert(twice.deadline(2) == second.micros + backoff.base_delay.micros * b);
}

} // verus!
