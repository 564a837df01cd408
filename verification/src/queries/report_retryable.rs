use crate::queries::history::Operation;
use crate::models::new_row_id;
use crate::queries::tables::{
    delete_rows_of, error_records, find_message, lemma_mentions_push, lemma_mentions_without,
    without, DatabaseError, ErrorRecord, ErrorRow, FailedAttempt, QueueState, Tables,
};
use crate::time::Timestamp;
use vstd::prelude::*;
use vstd::string::*;

verus! {

impl QueueState {
    /// The tables after the failure `failure` of a message was reported with
    /// the text `error`: the message's leases are gone, the failure is
    /// recorded, and the error log has one more entry, with identifier
    /// `error_id`, for the instant of the failure.
    pub open spec fn fail(self, failure: FailedAttempt, error_id: u128, error: Seq<char>) -> QueueState {
        QueueState {
            leases: without(self.leases, failure.message_id),
            attempts_failed: self.attempts_failed.push(failure),
            errors: self.errors.push(
                ErrorRecord {
                    id: error_id,
                    message_id: failure.message_id,
                    reported_at: failure.failed_at,
                    error,
                },
            ),
            ..self
        }
    }
}

/// What reporting a recoverable failure does: for an attempted message the
/// failure is recorded; for any other the tables stay as they are and the
/// missing message is reported.
pub open spec fn reported_retryable(
    before: QueueState,
    after: QueueState,
    failure: FailedAttempt,
    error_id: u128,
    error: Seq<char>,
    outcome: Result<(), DatabaseError>,
) -> bool {
    match outcome {
        Ok(_) => {
            &&& before.is_attempted(failure.message_id)
            &&& after == before.fail(failure, error_id, error)
        },
        Err(e) => {
            &&& !before.is_attempted(failure.message_id)
            &&& after == before
            &&& e == DatabaseError::ForeignKeyViolation
        },
    }
}

/// The failure of a message in flight keeps the tables well formed and leaves
/// the message in flight, failed, with an error and without a lease.
pub proof fn lemma_fail_preserves_wf(
    s: QueueState,
    failure: FailedAttempt,
    error_id: u128,
    error: Seq<char>,
)
    requires
        s.wf(),
        s.in_flight(failure.message_id),
    ensures
        s.fail(failure, error_id, error).wf(),
        s.fail(failure, error_id, error).in_flight(failure.message_id),
        s.fail(failure, error_id, error).has_failed_attempts(failure.message_id),
        s.fail(failure, error_id, error).has_errors(failure.message_id),
        !s.fail(failure, error_id, error).has_lease(failure.message_id),
{
    let m = failure.message_id;
    let after = s.fail(failure, error_id, error);
    let logged = after.errors.last();
    assert forall|x: u128| #[trigger] after.consistent(x) by {
        lemma_mentions_without(s.leases, m, x);
        lemma_mentions_push(s.attempts_failed, failure, x);
        lemma_mentions_push(s.errors, logged, x);
        assert(s.consistent(x));
    }
    lemma_mentions_without(s.leases, m, m);
    lemma_mentions_push(s.attempts_failed, failure, m);
    lemma_mentions_push(s.errors, logged, m);
}

/// Reports that the attempt on message `message_id` failed at `failed_at`
/// with `error`, as attempt number `attempted`, to be retried from
/// `retry_earliest_at` on. The two new rows get the identifiers given.
pub fn report_retryable_with_ids(
    tables: &mut Tables,
    failed_id: u128,
    error_id: u128,
    message_id: u128,
    failed_at: Timestamp,
    attempted: i32,
    retry_earliest_at: Timestamp,
    error: &str,
) -> (outcome: Result<(), DatabaseError>)
    ensures
        reported_retryable(
            old(tables)@,
            final(tables)@,
            FailedAttempt { id: failed_id, message_id, failed_at, attempted, retry_earliest_at },
            error_id,
            error@,
            outcome,
        ),
        final(tables)@ == old(tables)@.apply(
            Operation::ReportRetryable {
                failure: FailedAttempt {
                    id: failed_id,
                    message_id,
                    failed_at,
                    attempted,
                    retry_earliest_at,
                },
                error_id,
                error: error@,
            },
        ),
        old(tables)@.wf() && !old(tables)@.is_succeeded(message_id) && !old(tables)@.is_dead(
            message_id,
        ) ==> final(tables)@.wf(),
{
    if find_message(&tables.messages_attempted, message_id).is_none() {
        return Err(DatabaseError::ForeignKeyViolation);
    }
    let failure = FailedAttempt { id: failed_id, message_id, failed_at, attempted, retry_earliest_at };
    let logged = ErrorRow {
        id: error_id,
        message_id,
        reported_at: failed_at,
        error: String::from_str(error),
    };
    proof {
        if old(tables)@.wf() && !old(tables)@.is_succeeded(message_id) && !old(tables)@.is_dead(
            message_id,
        ) {
            lemma_fail_preserves_wf(old(tables)@, failure, error_id, error@);
        }
        assert(error_records(old(tables).errors@.push(logged)) =~= error_records(
            old(tables).errors@,
        ).push(logged@));
    }
    delete_rows_of(&mut tables.leases, message_id);
    tables.attempts_failed.push(failure);
    tables.errors.push(logged);
    Ok(())
}

/// Reports that the attempt on message `message_id` failed at `failed_at`
/// with `error`, as attempt number `attempted`, to be retried from
/// `retry_earliest_at` on. The two new rows get fresh identifiers.
pub fn report_retryable(
    tables: &mut Tables,
    message_id: u128,
    failed_at: Timestamp,
    attempted: i32,
    retry_earliest_at: Timestamp,
    error: &str,
) -> (outcome: Result<(), DatabaseError>)
    ensures
        exists|failed_id: u128, error_id: u128|
            reported_retryable(
                old(tables)@,
                final(tables)@,
                FailedAttempt { id: failed_id, message_id, failed_at, attempted, retry_earliest_at },
                error_id,
                error@,
                outcome,
            ),
        old(tables)@.wf() && !old(tables)@.is_succeeded(message_id) && !old(tables)@.is_dead(
            message_id,
        ) ==> final(tables)@.wf(),
{
    let failed_id = new_row_id();
    let error_id = new_row_id();
    let outcome = report_retryable_with_ids(
        tables,
        failed_id,
        error_id,
        message_id,
        failed_at,
        attempted,
        retry_earliest_at,
        error,
    );
    assert(reported_retryable(
        old(tables)@,
        tables@,
        FailedAttempt { id: failed_id, message_id, failed_at, attempted, retry_earliest_at },
        error_id,
        error@,
        outcome,
    ));
    outcome
}

} // verus!
