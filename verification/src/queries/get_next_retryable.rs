use crate::queries::history::Operation;
use crate::models::RawMessage;
use crate::queries::request_lease::lemma_grant_preserves_wf;
use crate::queries::selection::{find_leader, leader, lemma_leader};
use crate::queries::tables::{
    contains_id, find_message, first_position_of, Lease, MessageKeyed, QueueState, Tables,
};
use crate::time::{Duration, Timestamp};
use vstd::prelude::*;

verus! {

impl QueueState {
    /// Whether no failure of the same message is later than the failure at
    /// position `i`.
    pub open spec fn is_latest_failure(self, i: int) -> bool {
        forall|j: int|
            0 <= j < self.attempts_failed.len() && (#[trigger] self.attempts_failed[j]).message_id
                == self.attempts_failed[i].message_id ==> self.attempts_failed[j].failed_at.micros
                <= self.attempts_failed[i].failed_at.micros
    }

    /// Whether the failure at position `i` can be retried at `now`: its retry
    /// instant has come, its message has no active lease, and it is the
    /// latest failure of its message.
    pub open spec fn is_retryable(self, i: int, now: Timestamp) -> bool {
        &&& 0 <= i < self.attempts_failed.len()
        &&& self.attempts_failed[i].retry_earliest_at.micros <= now.micros
        &&& !self.has_active_lease(self.attempts_failed[i].message_id, now)
        &&& self.is_latest_failure(i)
    }

    /// The sort keys of the failures: those that can be retried qualify, the
    /// earliest failure first, by message among simultaneous ones.
    pub open spec fn retry_keys(self, now: Timestamp) -> Seq<Option<(i64, u128)>> {
        Seq::new(
            self.attempts_failed.len(),
            |i: int|
                if self.is_retryable(i, now) {
                    Some((self.attempts_failed[i].failed_at.micros, self.attempts_failed[i].message_id))
                } else {
                    None
                },
        )
    }

    /// The position of the failure that is retried next at `now`.
    pub open spec fn next_retryable(self, now: Timestamp) -> Option<int> {
        leader(self.retry_keys(now))
    }

    /// The sort keys of the failures for a caller that skips the messages in
    /// `locked`, whose rows open transactions of others hold locked: their
    /// failures do not qualify.
    pub open spec fn retry_keys_skipping(self, now: Timestamp, locked: Seq<u128>) -> Seq<
        Option<(i64, u128)>,
    > {
        Seq::new(
            self.attempts_failed.len(),
            |i: int|
                if locked.contains(self.attempts_failed[i].message_id) {
                    None
                } else {
                    self.retry_keys(now)[i]
                },
        )
    }

    /// The position of the failure that is retried next at `now` by a caller
    /// that skips the messages in `locked`.
    pub open spec fn next_retryable_skipping(self, now: Timestamp, locked: Seq<u128>) -> Option<
        int,
    > {
        leader(self.retry_keys_skipping(now, locked))
    }
}

/// What dispatching a retry does: with no failure to retry nothing changes
/// and nothing comes back; else the message of the next one gets a lease of
/// `host_id` from `now` for `hold_for`, and comes back as the attempted
/// messages hold it, with the attempt counter of that failure.
pub open spec fn dispatched_retryable(
    before: QueueState,
    after: QueueState,
    now: Timestamp,
    host_id: u128,
    hold_for: Duration,
    got: Option<RawMessage>,
) -> bool {
    dispatched_retryable_at(before, after, before.next_retryable(now), now, host_id, hold_for, got)
}

/// What dispatching a retry does once the position `pick` is chosen, if any.
pub open spec fn dispatched_retryable_at(
    before: QueueState,
    after: QueueState,
    pick: Option<int>,
    now: Timestamp,
    host_id: u128,
    hold_for: Duration,
    got: Option<RawMessage>,
) -> bool {
    match pick {
        None => after == before && got is None,
        Some(at) => {
            let failure = before.attempts_failed[at];
            &&& 0 <= at < before.attempts_failed.len()
            &&& after == before.grant(
                Lease {
                    message_id: failure.message_id,
                    acquired_at: now,
                    acquired_by: host_id,
                    expires_at: now.spec_plus(hold_for),
                },
            )
            &&& match got {
                Some(message) => exists|k: int|
                    first_position_of(before.messages_attempted, failure.message_id, k)
                        && message@ == (#[trigger] before.messages_attempted[k]).as_raw(
                        failure.attempted,
                    ),
                None => !before.is_attempted(failure.message_id),
            }
        },
    }
}

/// A message with a failed attempt is in flight.
pub proof fn lemma_failed_is_in_flight(s: QueueState, i: int)
    requires
        s.wf(),
        0 <= i < s.attempts_failed.len(),
    ensures
        s.in_flight(s.attempts_failed[i].message_id),
{
    let m = s.attempts_failed[i].message_id;
    assert(s.attempts_failed[i].message_key() == m);
    assert(s.consistent(m));
}

impl Tables {
    /// Whether the failure at position `i` is the latest of its message.
    pub fn is_latest_failure(&self, i: usize) -> (latest: bool)
        requires
            i < self.attempts_failed.len(),
        ensures
            latest == self@.is_latest_failure(i as int),
    {
        let mut j: usize = 0;
        while j < self.attempts_failed.len()
            invariant
                j <= self.attempts_failed.len(),
                i < self.attempts_failed.len(),
                forall|k: int|
                    0 <= k < j && (#[trigger] self.attempts_failed@[k]).message_id
                        == self.attempts_failed@[i as int].message_id
                        ==> self.attempts_failed@[k].failed_at.micros
                        <= self.attempts_failed@[i as int].failed_at.micros,
            decreases self.attempts_failed.len() - j,
        {
            if self.attempts_failed[j].message_id == self.attempts_failed[i].message_id
                && self.attempts_failed[j].failed_at.micros > self.attempts_failed[i].failed_at.micros {
                assert(self@.attempts_failed[j as int].message_id
                    == self@.attempts_failed[i as int].message_id);
                return false;
            }
            j = j + 1;
        }
        true
    }
}

/// No failure is skipped where no message is locked.
pub proof fn lemma_no_locks_no_skipped_retries(s: QueueState, now: Timestamp)
    ensures
        s.next_retryable_skipping(now, Seq::empty()) == s.next_retryable(now),
{
    assert(s.retry_keys_skipping(now, Seq::empty()) =~= s.retry_keys(now));
}

/// Dispatches the next failure that can be retried at `now` to `host_id`,
/// which holds the message from `now` for `hold_for`.
pub fn get_next_retryable(
    tables: &mut Tables,
    now: Timestamp,
    host_id: u128,
    hold_for: Duration,
) -> (got: Option<RawMessage>)
    requires
        now.can_add(hold_for),
    ensures
        dispatched_retryable(old(tables)@, final(tables)@, now, host_id, hold_for, got),
        final(tables)@ == old(tables)@.apply(
            Operation::GetNextRetryable { now, host_id, expires_at: now.spec_plus(hold_for) },
        ),
        old(tables)@.wf() ==> final(tables)@.wf() && (got is Some
            <==> old(tables)@.next_retryable(now) is Some),
{
    let locked: Vec<u128> = Vec::new();
    proof {
        lemma_no_locks_no_skipped_retries(tables@, now);
    }
    get_next_retryable_skip_locked(tables, &locked, now, host_id, hold_for)
}

/// Dispatches to `host_id` the next failure that can be retried at `now` and
/// whose message is not in `locked`: the messages whose rows open
/// transactions of other callers hold locked are passed over, not waited for.
pub fn get_next_retryable_skip_locked(
    tables: &mut Tables,
    locked: &Vec<u128>,
    now: Timestamp,
    host_id: u128,
    hold_for: Duration,
) -> (got: Option<RawMessage>)
    requires
        now.can_add(hold_for),
    ensures
        dispatched_retryable_at(
            old(tables)@,
            final(tables)@,
            old(tables)@.next_retryable_skipping(now, locked@),
            now,
            host_id,
            hold_for,
            got,
        ),
        old(tables)@.wf() ==> final(tables)@.wf() && (got is Some
            <==> old(tables)@.next_retryable_skipping(now, locked@) is Some),
{
    let expires_at = now.plus(hold_for);
    let mut keys: Vec<Option<(i64, u128)>> = Vec::new();
    let mut i: usize = 0;
    while i < tables.attempts_failed.len()
        invariant
            i <= tables.attempts_failed.len(),
            tables == old(tables),
            keys@.len() == i,
            forall|j: int| 0 <= j < i ==> keys@[j] == tables@.retry_keys_skipping(now, locked@)[j],
        decreases tables.attempts_failed.len() - i,
    {
        let failure = tables.attempts_failed[i];
        if !contains_id(locked, failure.message_id) && failure.retry_earliest_at.micros
            <= now.micros && !tables.has_active_lease(failure.message_id, now)
            && tables.is_latest_failure(i) {
            keys.push(Some((failure.failed_at.micros, failure.message_id)));
        } else {
            keys.push(None);
        }
        i = i + 1;
    }
    assert(keys@ =~= tables@.retry_keys_skipping(now, locked@));
    match find_leader(&keys) {
        None => None,
        Some(at) => {
            let failure = tables.attempts_failed[at];
            let lease = Lease {
                message_id: failure.message_id,
                acquired_at: now,
                acquired_by: host_id,
                expires_at,
            };
            proof {
                lemma_leader(keys@);
                if old(tables)@.wf() {
                    lemma_failed_is_in_flight(old(tables)@, at as int);
                    lemma_grant_preserves_wf(old(tables)@, lease);
                }
            }
            tables.leases.push(lease);
            match find_message(&tables.messages_attempted, failure.message_id) {
                None => None,
                Some(k) => {
                    let row = &tables.messages_attempted[k];
                    let got = RawMessage {
                        id: row.id,
                        name: row.name.clone(),
                        hash: row.hash,
                        payload: row.payload.clone(),
                        attempted: failure.attempted,
                    };
                    assert(got@ == old(tables)@.messages_attempted[k as int].as_raw(
                        failure.attempted,
                    ));
                    Some(got)
                },
            }
        },
    }
}

} // verus!
