use crate::queries::history::Operation;
use crate::models::new_row_id;
use crate::queries::tables::{
    delete_rows_of, error_records, find_message, lemma_distinct_push, lemma_mentions_push,
    lemma_mentions_without, without, DatabaseError, DeadAttempt, ErrorRecord, ErrorRow,
    QueueState, Tables,
};
use crate::time::Timestamp;
use vstd::prelude::*;
use vstd::string::*;

verus! {

impl QueueState {
    /// The tables after message `m` was given up at `now` with the text
    /// `error`: its leases and failed attempts are gone, its death is
    /// recorded, and the error log has one more entry, with identifier
    /// `error_id`.
    pub open spec fn die(self, m: u128, now: Timestamp, error_id: u128, error: Seq<char>) -> QueueState {
        QueueState {
            leases: without(self.leases, m),
            attempts_failed: without(self.attempts_failed, m),
            attempts_dead: self.attempts_dead.push(DeadAttempt { message_id: m, dead_at: now }),
            errors: self.errors.push(
                ErrorRecord { id: error_id, message_id: m, reported_at: now, error },
            ),
            ..self
        }
    }
}

/// What reporting a death does: for an attempted message the death is
/// recorded; for any other the tables stay as they are and the missing
/// message is reported.
pub open spec fn reported_dead(
    before: QueueState,
    after: QueueState,
    m: u128,
    now: Timestamp,
    error_id: u128,
    error: Seq<char>,
    outcome: Result<(), DatabaseError>,
) -> bool {
    match outcome {
        Ok(_) => before.is_attempted(m) && after == before.die(m, now, error_id, error),
        Err(e) => {
            &&& !before.is_attempted(m)
            &&& after == before
            &&& e == DatabaseError::ForeignKeyViolation
        },
    }
}

/// The death of a message in flight keeps the tables well formed and leaves
/// the message dead, with an error, no lease and no failed attempt.
pub proof fn lemma_die_preserves_wf(
    s: QueueState,
    m: u128,
    now: Timestamp,
    error_id: u128,
    error: Seq<char>,
)
    requires
        s.wf(),
        s.in_flight(m),
    ensures
        s.die(m, now, error_id, error).wf(),
        s.die(m, now, error_id, error).is_attempted(m),
        s.die(m, now, error_id, error).is_dead(m),
        s.die(m, now, error_id, error).has_errors(m),
        !s.die(m, now, error_id, error).is_succeeded(m),
        !s.die(m, now, error_id, error).has_lease(m),
        !s.die(m, now, error_id, error).has_failed_attempts(m),
{
    let after = s.die(m, now, error_id, error);
    let row = after.attempts_dead.last();
    let logged = after.errors.last();
    lemma_distinct_push(s.attempts_dead, row);
    assert forall|x: u128| #[trigger] after.consistent(x) by {
        lemma_mentions_without(s.leases, m, x);
        lemma_mentions_without(s.attempts_failed, m, x);
        lemma_mentions_push(s.attempts_dead, row, x);
        lemma_mentions_push(s.errors, logged, x);
        assert(s.consistent(x));
    }
    lemma_mentions_without(s.leases, m, m);
    lemma_mentions_without(s.attempts_failed, m, m);
    lemma_mentions_push(s.attempts_dead, row, m);
    lemma_mentions_push(s.errors, logged, m);
}

/// Reports at `now` that message `m` is given up because of `error`. The
/// new entry of the error log gets the identifier given.
pub fn report_dead_with_id(
    tables: &mut Tables,
    error_id: u128,
    m: u128,
    now: Timestamp,
    error: &str,
) -> (outcome: Result<(), DatabaseError>)
    ensures
        reported_dead(old(tables)@, final(tables)@, m, now, error_id, error@, outcome),
        final(tables)@ == old(tables)@.apply(
            Operation::ReportDead { message_id: m, now, error_id, error: error@ },
        ),
        old(tables)@.wf() && !old(tables)@.is_succeeded(m) && !old(tables)@.is_dead(m)
            ==> final(tables)@.wf(),
{
    if find_message(&tables.messages_attempted, m).is_none() {
        return Err(DatabaseError::ForeignKeyViolation);
    }
    let logged = ErrorRow { id: error_id, message_id: m, reported_at: now, error: String::from_str(error) };
    proof {
        if old(tables)@.wf() && !old(tables)@.is_succeeded(m) && !old(tables)@.is_dead(m) {
            lemma_die_preserves_wf(old(tables)@, m, now, error_id, error@);
        }
        assert(error_records(old(tables).errors@.push(logged)) =~= error_records(
            old(tables).errors@,
        ).push(logged@));
    }
    delete_rows_of(&mut tables.leases, m);
    delete_rows_of(&mut tables.attempts_failed, m);
    tables.attempts_dead.push(DeadAttempt { message_id: m, dead_at: now });
    tables.errors.push(logged);
    Ok(())
}

/// Reports at `now` that message `m` is given up because of `error`. The
/// new entry of the error log gets a fresh identifier.
pub fn report_dead(tables: &mut Tables, m: u128, now: Timestamp, error: &str) -> (outcome: Result<
    (),
    DatabaseError,
>)
    ensures
        exists|error_id: u128|
            reported_dead(old(tables)@, final(tables)@, m, now, error_id, error@, outcome),
        old(tables)@.wf() && !old(tables)@.is_succeeded(m) && !old(tables)@.is_dead(m)
            ==> final(tables)@.wf(),
{
    let error_id = new_row_id();
    let outcome = report_dead_with_id(tables, error_id, m, now, error);
    assert(reported_dead(old(tables)@, tables@, m, now, error_id, error@, outcome));
    outcome
}

} // verus!
