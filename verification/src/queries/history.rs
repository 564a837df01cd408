//! The tables after any run of statements: what each statement does to them,
//! and that the invariant holds after every one.

use crate::models::RawMessageView;
use crate::queries::get_next_missing::lemma_rescue_preserves_wf;
use crate::queries::get_next_retryable::lemma_failed_is_in_flight;
use crate::queries::get_next_unattempted::lemma_dispatch_preserves_wf;
use crate::queries::publish_message::lemma_publish_preserves_wf;
use crate::queries::report_dead::lemma_die_preserves_wf;
use crate::queries::report_retryable::lemma_fail_preserves_wf;
use crate::queries::report_success::lemma_succeed_preserves_wf;
use crate::queries::request_lease::lemma_grant_preserves_wf;
use crate::queries::selection::lemma_leader;
use crate::queries::tables::{FailedAttempt, Lease, QueueState};
use crate::time::Timestamp;
use vstd::prelude::*;

verus! {

/// One statement against the tables, with everything it is given.
pub enum Operation {
    Publish { message: RawMessageView, now: Timestamp },
    GetNextUnattempted { now: Timestamp, host_id: u128, expires_at: Timestamp },
    GetNextRetryable { now: Timestamp, host_id: u128, expires_at: Timestamp },
    GetNextMissing { now: Timestamp, host_id: u128, expires_at: Timestamp },
    ReportSuccess { message_id: u128, now: Timestamp },
    ReportRetryable { failure: FailedAttempt, error_id: u128, error: Seq<char> },
    ReportDead { message_id: u128, now: Timestamp, error_id: u128, error: Seq<char> },
    RequestLease { message_id: u128, now: Timestamp, host_id: u128, expires_at: Timestamp },
}

impl QueueState {
    /// The tables after one statement. A statement that is refused, or finds
    /// nothing to dispatch, leaves them as they are.
    pub open spec fn apply(self, op: Operation) -> QueueState {
        match op {
            Operation::Publish { message, now } => if self.can_publish(message.id) {
                self.publish(message, now)
            } else {
                self
            },
            Operation::GetNextUnattempted { now, host_id, expires_at } => match self.next_unattempted() {
                Some(at) => self.dispatch(at, now, host_id, expires_at),
                None => self,
            },
            Operation::GetNextRetryable { now, host_id, expires_at } => match self.next_retryable(
                now,
            ) {
                Some(at) => self.grant(
                    Lease {
                        message_id: self.attempts_failed[at].message_id,
                        acquired_at: now,
                        acquired_by: host_id,
                        expires_at,
                    },
                ),
                None => self,
            },
            Operation::GetNextMissing { now, host_id, expires_at } => match self.next_missing(now) {
                Some(at) => self.rescue(self.messages_attempted[at].id, now, host_id, expires_at),
                None => self,
            },
            Operation::ReportSuccess { message_id, now } => if self.is_attempted(message_id) {
                self.succeed(message_id, now)
            } else {
                self
            },
            Operation::ReportRetryable { failure, error_id, error } => if self.is_attempted(
                failure.message_id,
            ) {
                self.fail(failure, error_id, error)
            } else {
                self
            },
            Operation::ReportDead { message_id, now, error_id, error } => if self.is_attempted(
                message_id,
            ) {
                self.die(message_id, now, error_id, error)
            } else {
                self
            },
            Operation::RequestLease { message_id, now, host_id, expires_at } => if self.foreign_lease_active(
            message_id, now, host_id) {
                self
            } else {
                self.grant(
                    Lease { message_id, acquired_at: now, acquired_by: host_id, expires_at },
                )
            },
        }
    }

    /// Whether a statement keeps to the protocol of the workers: a report is
    /// made on a message that has not ended yet, and a lease is asked for on
    /// a message in flight. Publishing and dispatching always do.
    pub open spec fn permits(self, op: Operation) -> bool {
        match op {
            Operation::ReportSuccess { message_id, .. } => !self.is_succeeded(message_id)
                && !self.is_dead(message_id),
            Operation::ReportRetryable { failure, .. } => !self.is_succeeded(failure.message_id)
                && !self.is_dead(failure.message_id),
            Operation::ReportDead { message_id, .. } => !self.is_succeeded(message_id)
                && !self.is_dead(message_id),
            Operation::RequestLease { message_id, now, host_id, .. } => self.in_flight(message_id)
                || self.foreign_lease_active(message_id, now, host_id),
            _ => true,
        }
    }

    /// The tables after a run of statements, one after the other.
    pub open spec fn replay(self, ops: Seq<Operation>) -> QueueState
        decreases ops.len(),
    {
        if ops.len() == 0 {
            self
        } else {
            self.replay(ops.drop_last()).apply(ops.last())
        }
    }

    /// Whether every statement of a run keeps to the protocol when its turn
    /// comes.
    pub open spec fn permits_all(self, ops: Seq<Operation>) -> bool
        decreases ops.len(),
    {
        ops.len() == 0 || (self.permits_all(ops.drop_last()) && self.replay(
            ops.drop_last(),
        ).permits(ops.last()))
    }
}

/// A statement that keeps to the protocol keeps the tables well formed.
pub proof fn lemma_apply_preserves_wf(s: QueueState, op: Operation)
    requires
        s.wf(),
        s.permits(op),
    ensures
        s.apply(op).wf(),
{
    match op {
        Operation::Publish { message, now } => {
            if s.can_publish(message.id) {
                lemma_publish_preserves_wf(s, message, now);
            }
        },
        Operation::GetNextUnattempted { now, host_id, expires_at } => {
            lemma_leader(s.dispatch_keys());
            if let Some(at) = s.next_unattempted() {
                lemma_dispatch_preserves_wf(s, at, now, host_id, expires_at);
            }
        },
        Operation::GetNextRetryable { now, host_id, expires_at } => {
            lemma_leader(s.retry_keys(now));
            if let Some(at) = s.next_retryable(now) {
                lemma_failed_is_in_flight(s, at);
                lemma_grant_preserves_wf(
                    s,
                    Lease {
                        message_id: s.attempts_failed[at].message_id,
                        acquired_at: now,
                        acquired_by: host_id,
                        expires_at,
                    },
                );
            }
        },
        Operation::GetNextMissing { now, host_id, expires_at } => {
            if let Some(at) = s.next_missing(now) {
                lemma_rescue_preserves_wf(s, s.messages_attempted[at].id, now, host_id, expires_at);
            }
        },
        Operation::ReportSuccess { message_id, now } => {
            if s.is_attempted(message_id) {
                lemma_succeed_preserves_wf(s, message_id, now);
            }
        },
        Operation::ReportRetryable { failure, error_id, error } => {
            if s.is_attempted(failure.message_id) {
                lemma_fail_preserves_wf(s, failure, error_id, error);
            }
        },
        Operation::ReportDead { message_id, now, error_id, error } => {
            if s.is_attempted(message_id) {
                lemma_die_preserves_wf(s, message_id, now, error_id, error);
            }
        },
        Operation::RequestLease { message_id, now, host_id, expires_at } => {
            if !s.foreign_lease_active(message_id, now, host_id) {
                lemma_grant_preserves_wf(
                    s,
                    Lease { message_id, acquired_at: now, acquired_by: host_id, expires_at },
                );
            }
        },
    }
}

/// After any run of statements that keep to the protocol, from well-formed
/// tables on, the tables are well formed.
pub proof fn lemma_replay_preserves_wf(s: QueueState, ops: Seq<Operation>)
    requires
        s.wf(),
        s.permits_all(ops),
    ensures
        s.replay(ops).wf(),
    decreases ops.len(),
{
    if ops.len() > 0 {
        lemma_replay_preserves_wf(s, ops.drop_last());
        lemma_apply_preserves_wf(s.replay(ops.drop_last()), ops.last());
    }
}

/// After any run of statements that keep to the protocol, from empty tables
/// on: every message that the tables know is in exactly one of the two
/// message tables; its eight facts fit one row of the state table at every
/// instant; unattempted, it has no lease, no failed attempt, no success and
/// no death; succeeded or dead, it has no lease and no failed attempt.
pub proof fn lemma_invariants_hold_after_any_run(ops: Seq<Operation>, m: u128, now: Timestamp)
    requires
        QueueState::empty().permits_all(ops),
        QueueState::empty().replay(ops).knows(m),
    ensures
        ({
            let s = QueueState::empty().replay(ops);
            &&& s.is_unattempted(m) != s.is_attempted(m)
            &&& s.raw_state(m, now).is_defined()
            &&& s.is_unattempted(m) ==> !s.has_lease(m) && !s.has_failed_attempts(m)
                && !s.is_succeeded(m) && !s.is_dead(m)
            &&& s.is_succeeded(m) || s.is_dead(m) ==> !s.has_lease(m) && !s.has_failed_attempts(m)
        }),
{
    let s = QueueState::empty().replay(ops);
    assert(QueueState::empty().wf()) by {
        assert forall|x: u128| #[trigger] QueueState::empty().consistent(x) by {}
    }
    lemma_replay_preserves_wf(QueueState::empty(), ops);
    assert(s.consistent(m));
    crate::queries::tables::lemma_state_defined(s, m, now);
}

} // verus!
