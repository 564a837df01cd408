//! What holds of a message over several steps of its lifecycle.

use crate::models::{RawMessage, RawMessageView};
use crate::queries::get_next_missing::{lemma_rescue_keeps_leased, lemma_rescue_preserves_wf};
use crate::queries::get_next_retryable::{dispatched_retryable, lemma_failed_is_in_flight};
use crate::queries::get_next_unattempted::lemma_dispatch_preserves_wf;
use crate::queries::history::Operation;
use crate::queries::publish_message::lemma_publish_preserves_wf;
use crate::queries::report_retryable::lemma_fail_preserves_wf;
use crate::queries::report_success::lemma_succeed_preserves_wf;
use crate::queries::request_lease::lemma_grant_preserves_wf;
use crate::queries::selection::{leads, lemma_leader};
use crate::queries::tables::{
    lemma_active_lease_is_lease, lemma_mentions_push, lemma_mentions_remove,
    lemma_state_by_rows, FailedAttempt, Lease, MessageKeyed, QueueState,
};
use crate::testing_tools::State;
use crate::time::{Duration, Timestamp};
use vstd::prelude::*;

verus! {

/// One attempt to rescue a missing message between two other steps: either
/// none was found, or the leases of one message were rewritten.
pub enum RescueAttempt {
    NoneMissing,
    Rescued { message_id: u128, now: Timestamp, host_id: u128, expires_at: Timestamp },
}

impl QueueState {
    /// The tables after an attempt to rescue a missing message.
    pub open spec fn after_rescue_attempt(self, attempt: RescueAttempt) -> QueueState {
        match attempt {
            RescueAttempt::NoneMissing => self,
            RescueAttempt::Rescued { message_id, now, host_id, expires_at } => self.rescue(
                message_id,
                now,
                host_id,
                expires_at,
            ),
        }
    }
}

/// A published message is pending.
pub proof fn lemma_published_is_pending(
    s: QueueState,
    message: RawMessageView,
    published_at: Timestamp,
    t: Timestamp,
)
    requires
        s.wf(),
        s.can_publish(message.id),
    ensures
        s.publish(message, published_at).raw_state(message.id, t).matches(State::Pending),
{
    let s1 = s.publish(message, published_at);
    lemma_publish_preserves_wf(s, message, published_at);
    lemma_state_by_rows(s1, message.id, t);
}

/// Into a queue with no unattempted message, the published message is the
/// next to be dispatched.
pub proof fn lemma_sole_unattempted_is_next(
    s: QueueState,
    message: RawMessageView,
    published_at: Timestamp,
)
    requires
        s.messages_unattempted.len() == 0,
    ensures
        s.publish(message, published_at).next_unattempted() == Some(0int),
        s.publish(message, published_at).messages_unattempted[0].id == message.id,
{
    let s1 = s.publish(message, published_at);
    let keys = s1.dispatch_keys();
    assert(keys[0] is Some);
    lemma_leader(keys);
    assert(leads(keys, s1.next_unattempted()->Some_0));
}

/// Publish, first dispatch, success: the message is in progress while its
/// lease runs, the report is accepted, and the message ends succeeded, with
/// no lease, in well-formed tables.
pub proof fn lemma_publish_dispatch_succeed(
    s: QueueState,
    message: RawMessageView,
    published_at: Timestamp,
    at: int,
    now: Timestamp,
    host_id: u128,
    expires_at: Timestamp,
    done_at: Timestamp,
    t: Timestamp,
)
    requires
        s.wf(),
        s.can_publish(message.id),
        s.publish(message, published_at).next_unattempted() == Some(at),
        0 <= at < s.publish(message, published_at).messages_unattempted.len(),
        s.publish(message, published_at).messages_unattempted[at].id == message.id,
    ensures
        ({
            let dispatched = s.publish(message, published_at).dispatch(at, now, host_id, expires_at);
            let done = dispatched.succeed(message.id, done_at);
            &&& dispatched.is_attempted(message.id)
            &&& expires_at.micros > t.micros ==> dispatched.raw_state(message.id, t).matches(
                State::InProgress,
            )
            &&& done.wf()
            &&& done.raw_state(message.id, t).matches(State::Succeeded)
            &&& !done.has_lease(message.id)
        }),
{
    let s1 = s.publish(message, published_at);
    lemma_publish_preserves_wf(s, message, published_at);
    lemma_dispatched_is_in_flight(s1, at, now, host_id, expires_at, t);
    let s2 = s1.dispatch(at, now, host_id, expires_at);
    lemma_succeed_preserves_wf(s2, message.id, done_at);
    lemma_state_by_rows(s2.succeed(message.id, done_at), message.id, t);
}

/// A message that was just dispatched for the first time is in flight, and
/// in progress at every instant before its lease runs out.
pub proof fn lemma_dispatched_is_in_flight(
    s: QueueState,
    at: int,
    now: Timestamp,
    host_id: u128,
    expires_at: Timestamp,
    t: Timestamp,
)
    requires
        s.wf(),
        0 <= at < s.messages_unattempted.len(),
    ensures
        s.dispatch(at, now, host_id, expires_at).wf(),
        s.dispatch(at, now, host_id, expires_at).in_flight(s.messages_unattempted[at].id),
        expires_at.micros > t.micros ==> s.dispatch(at, now, host_id, expires_at).raw_state(
            s.messages_unattempted[at].id,
            t,
        ).matches(State::InProgress),
{
    let m = s.messages_unattempted[at].id;
    let after = s.dispatch(at, now, host_id, expires_at);
    lemma_dispatch_preserves_wf(s, at, now, host_id, expires_at);
    assert(s.messages_unattempted[at].message_key() == m);
    assert(s.is_unattempted(m));
    assert(s.consistent(m));
    assert(after.attempts_succeeded == s.attempts_succeeded);
    assert(after.attempts_dead == s.attempts_dead);
    if expires_at.micros > t.micros {
        let last = after.leases.len() - 1;
        assert(after.leases[last].message_id == m && after.leases[last].expires_at.micros
            > t.micros);
        lemma_state_by_rows(after, m, t);
    }
}

/// A message is dispatched for the first time only once: what is dispatched
/// next is another message, and every other unattempted message is still
/// waiting.
pub proof fn lemma_dispatched_once(
    s: QueueState,
    at: int,
    now: Timestamp,
    host_id: u128,
    expires_at: Timestamp,
)
    requires
        s.wf(),
        0 <= at < s.messages_unattempted.len(),
    ensures
        ({
            let after = s.dispatch(at, now, host_id, expires_at);
            &&& forall|k: int|
                0 <= k < after.messages_unattempted.len() ==> (
                #[trigger] after.messages_unattempted[k]).id != s.messages_unattempted[at].id
            &&& forall|m: u128|
                m != s.messages_unattempted[at].id ==> (#[trigger] after.is_unattempted(m)
                    <==> s.is_unattempted(m))
        }),
{
    let after = s.dispatch(at, now, host_id, expires_at);
    let gone = s.messages_unattempted[at].id;
    lemma_dispatch_preserves_wf(s, at, now, host_id, expires_at);
    assert forall|k: int| 0 <= k < after.messages_unattempted.len() implies (
    #[trigger] after.messages_unattempted[k]).id != gone by {
        assert(after.messages_unattempted[k].message_key() == after.messages_unattempted[k].id);
    }
    assert forall|m: u128| m != gone implies (#[trigger] after.is_unattempted(m)
        <==> s.is_unattempted(m)) by {
        lemma_mentions_remove(s.messages_unattempted, at, m);
    }
}

/// A reported failure that is the latest of its message leaves the message
/// failed, and ready for a retry at every instant from its retry instant on.
pub proof fn lemma_failure_becomes_retryable(
    s: QueueState,
    failure: FailedAttempt,
    error_id: u128,
    error: Seq<char>,
    now: Timestamp,
)
    requires
        s.wf(),
        s.in_flight(failure.message_id),
        forall|j: int|
            0 <= j < s.attempts_failed.len() && (#[trigger] s.attempts_failed[j]).message_id
                == failure.message_id ==> s.attempts_failed[j].failed_at.micros
                <= failure.failed_at.micros,
    ensures
        ({
            let failed = s.fail(failure, error_id, error);
            &&& failed.wf()
            &&& failed.raw_state(failure.message_id, now).matches(State::Failed)
            &&& failure.retry_earliest_at.micros <= now.micros ==> failed.is_retryable(
                failed.attempts_failed.len() - 1,
                now,
            ) && failed.next_retryable(now) is Some
        }),
{
    let failed = s.fail(failure, error_id, error);
    let m = failure.message_id;
    lemma_fail_preserves_wf(s, failure, error_id, error);
    lemma_state_by_rows(failed, m, now);
    lemma_active_lease_is_lease(failed, m, now);
    if failure.retry_earliest_at.micros <= now.micros {
        let last = failed.attempts_failed.len() - 1;
        assert(failed.attempts_failed[last] == failure);
        assert(failed.is_latest_failure(last)) by {
            assert forall|j: int|
                0 <= j < failed.attempts_failed.len() && (
                #[trigger] failed.attempts_failed[j]).message_id == m implies failed.attempts_failed[j].failed_at.micros
                <= failure.failed_at.micros by {
                if j < last {
                    assert(failed.attempts_failed[j] == s.attempts_failed[j]);
                }
            }
        }
        assert(failed.is_retryable(last, now));
        let keys = failed.retry_keys(now);
        assert(keys[last] is Some);
        lemma_leader(keys);
    }
}

/// An attempt to rescue a missing message keeps the tables well formed and
/// changes nothing but leases: every message keeps its tables, its failures
/// and its end, and is leased if and only if it was.
pub proof fn lemma_rescue_attempt_keeps_rows(s: QueueState, attempt: RescueAttempt, m: u128)
    requires
        s.wf(),
    ensures
        s.after_rescue_attempt(attempt).wf(),
        s.after_rescue_attempt(attempt).in_flight(m) == s.in_flight(m),
        s.after_rescue_attempt(attempt).has_lease(m) == s.has_lease(m),
        s.after_rescue_attempt(attempt).attempts_failed == s.attempts_failed,
        s.after_rescue_attempt(attempt).messages_attempted == s.messages_attempted,
        s.after_rescue_attempt(attempt).messages_unattempted == s.messages_unattempted,
{
    match attempt {
        RescueAttempt::NoneMissing => {},
        RescueAttempt::Rescued { message_id, now, host_id, expires_at } => {
            lemma_rescue_preserves_wf(s, message_id, now, host_id, expires_at);
            lemma_rescue_keeps_leased(s, message_id, now, host_id, expires_at, m);
        },
    }
}

/// A failed message stays ready for its retry whatever is rescued meanwhile:
/// it has no lease that a rescue could rewrite.
pub proof fn lemma_rescue_attempt_keeps_retryable(
    s: QueueState,
    attempt: RescueAttempt,
    i: int,
    now: Timestamp,
)
    requires
        s.wf(),
        s.is_retryable(i, now),
        !s.has_lease(s.attempts_failed[i].message_id),
    ensures
        s.after_rescue_attempt(attempt).is_retryable(i, now),
        s.after_rescue_attempt(attempt).next_retryable(now) is Some,
{
    let after = s.after_rescue_attempt(attempt);
    let m = s.attempts_failed[i].message_id;
    lemma_rescue_attempt_keeps_rows(s, attempt, m);
    lemma_active_lease_is_lease(after, m, now);
    assert(after.is_latest_failure(i));
    let keys = after.retry_keys(now);
    assert(keys[i] is Some);
    lemma_leader(keys);
}

/// The retry cycle: after a failed first attempt, a retry that is dispatched
/// and reported as done ends succeeded, with no lease, in well-formed tables,
/// and both reports are accepted, whatever attempts to rescue missing
/// messages come in between.
pub proof fn lemma_retry_cycle_succeeds(
    s: QueueState,
    failure: FailedAttempt,
    error_id: u128,
    error: Seq<char>,
    first_rescue: RescueAttempt,
    at: int,
    now: Timestamp,
    host_id: u128,
    expires_at: Timestamp,
    second_rescue: RescueAttempt,
    done_at: Timestamp,
    t: Timestamp,
)
    requires
        s.wf(),
        s.in_flight(failure.message_id),
        s.fail(failure, error_id, error).after_rescue_attempt(first_rescue).next_retryable(now)
            == Some(at),
        0 <= at < s.attempts_failed.len() + 1,
        s.attempts_failed.push(failure)[at].message_id == failure.message_id,
    ensures
        ({
            let m = failure.message_id;
            let retried = s.fail(failure, error_id, error).after_rescue_attempt(
                first_rescue,
            ).grant(Lease { message_id: m, acquired_at: now, acquired_by: host_id, expires_at });
            let done = retried.after_rescue_attempt(second_rescue).succeed(m, done_at);
            &&& s.is_attempted(m)
            &&& retried.after_rescue_attempt(second_rescue).is_attempted(m)
            &&& done.wf()
            &&& done.raw_state(m, t).matches(State::Succeeded)
            &&& !done.has_lease(m)
        }),
{
    let m = failure.message_id;
    let s1 = s.fail(failure, error_id, error);
    lemma_fail_preserves_wf(s, failure, error_id, error);
    let s2 = s1.after_rescue_attempt(first_rescue);
    lemma_rescue_attempt_keeps_rows(s1, first_rescue, m);
    let lease = Lease { message_id: m, acquired_at: now, acquired_by: host_id, expires_at };
    lemma_grant_preserves_wf(s2, lease);
    let s3 = s2.grant(lease);
    let s4 = s3.after_rescue_attempt(second_rescue);
    lemma_rescue_attempt_keeps_rows(s3, second_rescue, m);
    lemma_succeed_preserves_wf(s4, m, done_at);
    lemma_state_by_rows(s4.succeed(m, done_at), m, t);
}

/// A lease that a host was granted on a message keeps every other host from
/// a lease on that message until it runs out: the request is refused and
/// changes nothing.
pub proof fn lemma_foreign_lease_blocks(
    s: QueueState,
    lease: Lease,
    now: Timestamp,
    host_id: u128,
    expires_at: Timestamp,
)
    requires
        lease.acquired_by != host_id,
        lease.expires_at.micros > now.micros,
    ensures
        s.grant(lease).foreign_lease_active(lease.message_id, now, host_id),
        s.grant(lease).apply(
            Operation::RequestLease { message_id: lease.message_id, now, host_id, expires_at },
        ) == s.grant(lease),
{
    let after = s.grant(lease);
    let last = after.leases.len() - 1;
    assert(after.leases[last].message_id == lease.message_id && after.leases[last].acquired_by
        != host_id && after.leases[last].expires_at.micros > now.micros);
}

/// Another host's active lease on the message refuses the request, and the
/// tables stay as they are.
pub proof fn lemma_foreign_lease_refuses(
    s: QueueState,
    i: int,
    now: Timestamp,
    host_id: u128,
    expires_at: Timestamp,
)
    requires
        0 <= i < s.leases.len(),
        s.leases[i].acquired_by != host_id,
        s.leases[i].expires_at.micros > now.micros,
    ensures
        s.apply(
            Operation::RequestLease { message_id: s.leases[i].message_id, now, host_id, expires_at },
        ) == s,
{
    assert(s.foreign_lease_active(s.leases[i].message_id, now, host_id));
}

/// A request on a self-held lease always succeeds: where every lease on the
/// message that is active at `now` is held by the asking host, the lease is
/// granted, whatever leases other messages are under.
pub proof fn lemma_self_held_lease_is_renewed(
    s: QueueState,
    message_id: u128,
    now: Timestamp,
    host_id: u128,
    expires_at: Timestamp,
)
    requires
        forall|i: int|
            0 <= i < s.leases.len() && (#[trigger] s.leases[i]).message_id == message_id
                && s.leases[i].expires_at.micros > now.micros ==> s.leases[i].acquired_by
                == host_id,
    ensures
        !s.foreign_lease_active(message_id, now, host_id),
        s.apply(Operation::RequestLease { message_id, now, host_id, expires_at }) == s.grant(
            Lease { message_id, acquired_at: now, acquired_by: host_id, expires_at },
        ),
{
}

/// Leases on other messages do not block: with no lease at all on the
/// message, a request for it is granted whoever holds the others.
pub proof fn lemma_other_messages_do_not_block(
    s: QueueState,
    message_id: u128,
    now: Timestamp,
    host_id: u128,
    expires_at: Timestamp,
)
    requires
        !s.has_lease(message_id),
    ensures
        s.apply(Operation::RequestLease { message_id, now, host_id, expires_at }) == s.grant(
            Lease { message_id, acquired_at: now, acquired_by: host_id, expires_at },
        ),
{
    if s.foreign_lease_active(message_id, now, host_id) {
        let i = choose|i: int|
            0 <= i < s.leases.len() && (#[trigger] s.leases[i]).message_id == message_id
                && s.leases[i].acquired_by != host_id && s.leases[i].expires_at.micros
                > now.micros;
        assert(s.leases[i].message_key() == message_id);
    }
}

/// A host that was granted a lease on a message is granted its renewals:
/// where no other host held an active lease on the message when it asked,
/// none does at any later instant after the grant.
pub proof fn lemma_renewal_is_granted(
    s: QueueState,
    lease: Lease,
    now: Timestamp,
    later: Timestamp,
)
    requires
        !s.foreign_lease_active(lease.message_id, now, lease.acquired_by),
        now.micros <= later.micros,
    ensures
        !s.grant(lease).foreign_lease_active(lease.message_id, later, lease.acquired_by),
{
    let after = s.grant(lease);
    let host_id = lease.acquired_by;
    let m = lease.message_id;
    if after.foreign_lease_active(m, later, host_id) {
        let i = choose|i: int|
            0 <= i < after.leases.len() && (#[trigger] after.leases[i]).message_id == m
                && after.leases[i].acquired_by != host_id && after.leases[i].expires_at.micros
                > later.micros;
        assert(s.leases[i].message_id == m && s.leases[i].acquired_by != host_id
            && s.leases[i].expires_at.micros > now.micros);
    }
}

/// Missing is a matter of time alone: a message in flight whose leases all
/// run out at `expires_at` is in progress at every instant before it,
/// missing at every instant from it on, and can be rescued at every instant
/// after it.
pub proof fn lemma_lease_expiry_makes_missing(
    s: QueueState,
    m: u128,
    expires_at: Timestamp,
    now: Timestamp,
)
    requires
        s.wf(),
        s.in_flight(m),
        s.has_lease(m),
        forall|i: int|
            0 <= i < s.leases.len() && (#[trigger] s.leases[i]).message_id == m
                ==> s.leases[i].expires_at == expires_at,
    ensures
        now.micros < expires_at.micros ==> s.raw_state(m, now).matches(State::InProgress),
        now.micros >= expires_at.micros ==> s.raw_state(m, now).matches(State::Missing),
        now.micros > expires_at.micros <==> s.has_expired_lease(m, now),
{
    let i = choose|i: int| 0 <= i < s.leases.len() && (#[trigger] s.leases[i]).message_key() == m;
    assert(s.leases[i].message_id == m);
    lemma_state_by_rows(s, m, now);
    if now.micros < expires_at.micros {
        assert(s.has_active_lease(m, now));
    }
    if now.micros > expires_at.micros {
        assert(s.has_expired_lease(m, now));
    }
}

/// A rescue with a lease of some length puts the rescued message back in
/// progress.
pub proof fn lemma_rescued_is_in_progress(
    s: QueueState,
    at: int,
    now: Timestamp,
    host_id: u128,
    expires_at: Timestamp,
)
    requires
        s.wf(),
        s.is_rescuable_at(at, now),
        expires_at.micros > now.micros,
    ensures
        s.rescue(s.messages_attempted[at].id, now, host_id, expires_at).raw_state(
            s.messages_attempted[at].id,
            now,
        ).matches(State::InProgress),
{
    let m = s.messages_attempted[at].id;
    let after = s.rescue(m, now, host_id, expires_at);
    lemma_rescue_preserves_wf(s, m, now, host_id, expires_at);
    assert(s.messages_attempted[at].message_key() == m);
    let i = choose|i: int|
        0 <= i < s.leases.len() && (#[trigger] s.leases[i]).message_id == m
            && s.leases[i].expires_at.micros < now.micros;
    assert(after.leases[i].message_id == m && after.leases[i].expires_at.micros > now.micros);
    lemma_active_lease_is_lease(after, m, now);
    lemma_state_by_rows(after, m, now);
}

/// A retry puts the message of the failure back in progress while its new
/// lease runs.
pub proof fn lemma_retried_is_in_progress(
    s: QueueState,
    at: int,
    now: Timestamp,
    host_id: u128,
    expires_at: Timestamp,
    t: Timestamp,
)
    requires
        s.wf(),
        0 <= at < s.attempts_failed.len(),
        expires_at.micros > t.micros,
    ensures
        ({
            let m = s.attempts_failed[at].message_id;
            let lease = Lease { message_id: m, acquired_at: now, acquired_by: host_id, expires_at };
            s.grant(lease).wf() && s.grant(lease).raw_state(m, t).matches(State::InProgress)
        }),
{
    let m = s.attempts_failed[at].message_id;
    let lease = Lease { message_id: m, acquired_at: now, acquired_by: host_id, expires_at };
    let after = s.grant(lease);
    lemma_failed_is_in_flight(s, at);
    lemma_grant_preserves_wf(s, lease);
    let last = after.leases.len() - 1;
    assert(after.leases[last].message_id == m && after.leases[last].expires_at.micros > t.micros);
    lemma_mentions_push(s.leases, lease, m);
    lemma_state_by_rows(after, m, t);
}

/// Where no lease ran out before `now`, nothing is rescued: the tables stay
/// as they are. So a failed message, which has no lease, is left to its
/// retry.
pub proof fn lemma_nothing_lapsed_nothing_rescued(
    s: QueueState,
    now: Timestamp,
    host_id: u128,
    expires_at: Timestamp,
)
    requires
        forall|i: int|
            0 <= i < s.leases.len() ==> (#[trigger] s.leases[i]).expires_at.micros >= now.micros,
    ensures
        s.next_missing(now) is None,
        s.apply(Operation::GetNextMissing { now, host_id, expires_at }) == s,
{
    let keys = s.missing_keys(now);
    lemma_leader(keys);
    if let Some(at) = s.next_missing(now) {
        assert(leads(keys, at));
        let m = s.messages_attempted[at].id;
        assert(s.has_expired_lease(m, now));
    }
}

/// The one failure in the tables, of a message without a lease: before its
/// retry instant a retry dispatch finds nothing and changes nothing; from
/// that instant on it returns the message with the attempt counter of the
/// failure, adds one lease of the asking host from `now` for `hold_for`, and
/// keeps the failure.
pub proof fn lemma_sole_failure_is_retried_from_its_instant(
    s: QueueState,
    after: QueueState,
    now: Timestamp,
    host_id: u128,
    hold_for: Duration,
    got: Option<RawMessage>,
)
    requires
        s.wf(),
        s.attempts_failed.len() == 1,
        !s.has_lease(s.attempts_failed[0].message_id),
        dispatched_retryable(s, after, now, host_id, hold_for, got),
    ensures
        now.micros < s.attempts_failed[0].retry_earliest_at.micros ==> got is None && after == s,
        now.micros >= s.attempts_failed[0].retry_earliest_at.micros ==> {
            &&& got is Some
            &&& got->Some_0@.id == s.attempts_failed[0].message_id
            &&& got->Some_0@.attempted == s.attempts_failed[0].attempted
            &&& after.leases == s.leases.push(
                Lease {
                    message_id: s.attempts_failed[0].message_id,
                    acquired_at: now,
                    acquired_by: host_id,
                    expires_at: now.spec_plus(hold_for),
                },
            )
            &&& after.attempts_failed == s.attempts_failed
        },
{
    let failure = s.attempts_failed[0];
    let m = failure.message_id;
    let keys = s.retry_keys(now);
    lemma_leader(keys);
    lemma_active_lease_is_lease(s, m, now);
    lemma_failed_is_in_flight(s, 0);
    if now.micros >= failure.retry_earliest_at.micros {
        assert(s.is_latest_failure(0));
        assert(s.is_retryable(0, now));
        assert(keys[0] is Some);
        let at = s.next_retryable(now)->Some_0;
        assert(leads(keys, at));
        assert(at == 0);
    } else {
        if let Some(at) = s.next_retryable(now) {
            assert(leads(keys, at));
        }
    }
}

} // verus!
