use crate::queries::history::Operation;
use crate::queries::tables::{
    delete_rows_of, find_message, lemma_distinct_push, lemma_mentions_push,
    lemma_mentions_without, without, DatabaseError, QueueState, SucceededAttempt, Tables,
};
use crate::time::Timestamp;
use vstd::prelude::*;

verus! {

impl QueueState {
    /// The tables after message `m` was reported as done at `now`: its
    /// leases and failed attempts are gone, its success is recorded.
    pub open spec fn succeed(self, m: u128, now: Timestamp) -> QueueState {
        QueueState {
            leases: without(self.leases, m),
            attempts_failed: without(self.attempts_failed, m),
            attempts_succeeded: self.attempts_succeeded.push(
                SucceededAttempt { message_id: m, succeeded_at: now },
            ),
            ..self
        }
    }
}

/// What reporting a success does: for an attempted message the success is
/// recorded; for any other the tables stay as they are and the missing
/// message is reported.
pub open spec fn reported_success(
    before: QueueState,
    after: QueueState,
    m: u128,
    now: Timestamp,
    outcome: Result<(), DatabaseError>,
) -> bool {
    match outcome {
        Ok(_) => before.is_attempted(m) && after == before.succeed(m, now),
        Err(e) => {
            &&& !before.is_attempted(m)
            &&& after == before
            &&& e == DatabaseError::ForeignKeyViolation
        },
    }
}

/// The success of a message in flight keeps the tables well formed and leaves
/// the message succeeded, with no lease and no failed attempt.
pub proof fn lemma_succeed_preserves_wf(s: QueueState, m: u128, now: Timestamp)
    requires
        s.wf(),
        s.in_flight(m),
    ensures
        s.succeed(m, now).wf(),
        s.succeed(m, now).is_attempted(m),
        s.succeed(m, now).is_succeeded(m),
        !s.succeed(m, now).is_dead(m),
        !s.succeed(m, now).has_lease(m),
        !s.succeed(m, now).has_failed_attempts(m),
{
    let after = s.succeed(m, now);
    let row = after.attempts_succeeded.last();
    lemma_distinct_push(s.attempts_succeeded, row);
    assert forall|x: u128| #[trigger] after.consistent(x) by {
        lemma_mentions_without(s.leases, m, x);
        lemma_mentions_without(s.attempts_failed, m, x);
        lemma_mentions_push(s.attempts_succeeded, row, x);
        assert(s.consistent(x));
    }
    lemma_mentions_without(s.leases, m, m);
    lemma_mentions_without(s.attempts_failed, m, m);
    lemma_mentions_push(s.attempts_succeeded, row, m);
}

/// Reports at `now` that message `m` was processed.
pub fn report_success(tables: &mut Tables, m: u128, now: Timestamp) -> (outcome: Result<
    (),
    DatabaseError,
>)
    ensures
        reported_success(old(tables)@, final(tables)@, m, now, outcome),
        final(tables)@ == old(tables)@.apply(Operation::ReportSuccess { message_id: m, now }),
        old(tables)@.wf() && !old(tables)@.is_succeeded(m) && !old(tables)@.is_dead(m)
            ==> final(tables)@.wf(),
{
    if find_message(&tables.messages_attempted, m).is_none() {
        return Err(DatabaseError::ForeignKeyViolation);
    }
    proof {
        if old(tables)@.wf() && !old(tables)@.is_succeeded(m) && !old(tables)@.is_dead(m) {
            lemma_succeed_preserves_wf(old(tables)@, m, now);
        }
    }
    delete_rows_of(&mut tables.leases, m);
    delete_rows_of(&mut tables.attempts_failed, m);
    tables.attempts_succeeded.push(SucceededAttempt { message_id: m, succeeded_at: now });
    Ok(())
}

} // verus!
