use crate::queries::history::Operation;
use crate::models::{RawMessage, RawMessageView};
use crate::queries::selection::{find_leader, leader, lemma_leader};
use crate::queries::tables::{
    contains_id, lemma_distinct_push, lemma_mentions_push, lemma_mentions_remove, message_records, Lease,
    MessageKeyed, MessageRecord, QueueState, Tables,
};
use crate::time::{Duration, Timestamp};
use vstd::prelude::*;

verus! {

impl MessageRecord {
    /// The message as it is handed to a worker, with the given attempt counter.
    pub open spec fn as_raw(self, attempted: i32) -> RawMessageView {
        RawMessageView {
            id: self.id,
            name: self.name,
            hash: self.hash,
            payload: self.payload,
            attempted,
        }
    }
}

impl QueueState {
    /// The sort keys of the unattempted messages: every one qualifies for
    /// dispatch, the oldest first, by identifier among equally old ones.
    pub open spec fn dispatch_keys(self) -> Seq<Option<(i64, u128)>> {
        Seq::new(
            self.messages_unattempted.len(),
            |i: int|
                Some((self.messages_unattempted[i].published_at.micros, self.messages_unattempted[i].id)),
        )
    }

    /// The position of the unattempted message that is dispatched next.
    pub open spec fn next_unattempted(self) -> Option<int> {
        leader(self.dispatch_keys())
    }

    /// The sort keys of the unattempted messages for a caller that skips the
    /// messages in `locked`, whose rows open transactions of others hold
    /// locked: those do not qualify.
    pub open spec fn dispatch_keys_skipping(self, locked: Seq<u128>) -> Seq<Option<(i64, u128)>> {
        Seq::new(
            self.messages_unattempted.len(),
            |i: int|
                if locked.contains(self.messages_unattempted[i].id) {
                    None
                } else {
                    Some(
                        (
                            self.messages_unattempted[i].published_at.micros,
                            self.messages_unattempted[i].id,
                        ),
                    )
                },
        )
    }

    /// The position of the unattempted message that is dispatched next to a
    /// caller that skips the messages in `locked`.
    pub open spec fn next_unattempted_skipping(self, locked: Seq<u128>) -> Option<int> {
        leader(self.dispatch_keys_skipping(locked))
    }

    /// The tables after the unattempted message at position `at` was
    /// dispatched to `host_id` at `now`: the message is attempted, under a
    /// new lease that runs until `expires_at`.
    pub open spec fn dispatch(
        self,
        at: int,
        now: Timestamp,
        host_id: u128,
        expires_at: Timestamp,
    ) -> QueueState {
        let row = self.messages_unattempted[at];
        QueueState {
            messages_unattempted: self.messages_unattempted.remove(at),
            messages_attempted: self.messages_attempted.push(row),
            leases: self.leases.push(
                Lease { message_id: row.id, acquired_at: now, acquired_by: host_id, expires_at },
            ),
            ..self
        }
    }
}

/// What a first dispatch does: with no unattempted message nothing changes
/// and nothing comes back; else the next one moves to the attempted messages
/// under a lease of `host_id` from `now` for `hold_for`, and comes back with
/// an attempt counter of zero.
pub open spec fn dispatched_unattempted(
    before: QueueState,
    after: QueueState,
    now: Timestamp,
    host_id: u128,
    hold_for: Duration,
    got: Option<RawMessage>,
) -> bool {
    dispatched_unattempted_at(
        before,
        after,
        before.next_unattempted(),
        now,
        host_id,
        hold_for,
        got,
    )
}

/// What a first dispatch does once the position `pick` is chosen, if any.
pub open spec fn dispatched_unattempted_at(
    before: QueueState,
    after: QueueState,
    pick: Option<int>,
    now: Timestamp,
    host_id: u128,
    hold_for: Duration,
    got: Option<RawMessage>,
) -> bool {
    match pick {
        None => after == before && got is None,
        Some(at) => {
            &&& 0 <= at < before.messages_unattempted.len()
            &&& after == before.dispatch(at, now, host_id, now.spec_plus(hold_for))
            &&& got is Some
            &&& got->Some_0@ == before.messages_unattempted[at].as_raw(0)
        },
    }
}

/// A first dispatch keeps the tables well formed, and leaves the message
/// attempted and leased.
pub proof fn lemma_dispatch_preserves_wf(
    s: QueueState,
    at: int,
    now: Timestamp,
    host_id: u128,
    expires_at: Timestamp,
)
    requires
        s.wf(),
        0 <= at < s.messages_unattempted.len(),
    ensures
        s.dispatch(at, now, host_id, expires_at).wf(),
        s.dispatch(at, now, host_id, expires_at).is_attempted(s.messages_unattempted[at].id),
        s.dispatch(at, now, host_id, expires_at).has_lease(s.messages_unattempted[at].id),
        !s.dispatch(at, now, host_id, expires_at).is_unattempted(s.messages_unattempted[at].id),
{
    let after = s.dispatch(at, now, host_id, expires_at);
    let row = s.messages_unattempted[at];
    let lease = after.leases.last();
    assert(row.message_key() == row.id);
    assert(s.is_unattempted(row.id));
    assert(s.consistent(row.id));
    lemma_distinct_push(s.messages_attempted, row);
    lemma_mentions_remove(s.messages_unattempted, at, row.id);
    assert forall|m: u128| #[trigger] after.consistent(m) by {
        lemma_mentions_remove(s.messages_unattempted, at, m);
        lemma_mentions_push(s.messages_attempted, row, m);
        lemma_mentions_push(s.leases, lease, m);
        assert(s.consistent(m));
    }
    lemma_mentions_push(s.messages_attempted, row, row.id);
    lemma_mentions_push(s.leases, lease, row.id);
}

/// No message is skipped where none is locked.
pub proof fn lemma_no_locks_no_skips(s: QueueState)
    ensures
        s.next_unattempted_skipping(Seq::empty()) == s.next_unattempted(),
{
    assert(s.dispatch_keys_skipping(Seq::empty()) =~= s.dispatch_keys());
}

/// Dispatches the next unattempted message to `host_id`, which holds it from
/// `now` for `hold_for`.
pub fn get_next_unattempted(
    tables: &mut Tables,
    now: Timestamp,
    host_id: u128,
    hold_for: Duration,
) -> (got: Option<RawMessage>)
    requires
        now.can_add(hold_for),
    ensures
        dispatched_unattempted(old(tables)@, final(tables)@, now, host_id, hold_for, got),
        final(tables)@ == old(tables)@.apply(
            Operation::GetNextUnattempted { now, host_id, expires_at: now.spec_plus(hold_for) },
        ),
        old(tables)@.wf() ==> final(tables)@.wf(),
{
    let locked: Vec<u128> = Vec::new();
    proof {
        lemma_no_locks_no_skips(tables@);
    }
    get_next_unattempted_skip_locked(tables, &locked, now, host_id, hold_for)
}

/// Dispatches to `host_id` the next unattempted message that is not in
/// `locked`: the messages whose rows open transactions of other callers hold
/// locked are passed over, not waited for.
pub fn get_next_unattempted_skip_locked(
    tables: &mut Tables,
    locked: &Vec<u128>,
    now: Timestamp,
    host_id: u128,
    hold_for: Duration,
) -> (got: Option<RawMessage>)
    requires
        now.can_add(hold_for),
    ensures
        dispatched_unattempted_at(
            old(tables)@,
            final(tables)@,
            old(tables)@.next_unattempted_skipping(locked@),
            now,
            host_id,
            hold_for,
            got,
        ),
        old(tables)@.wf() ==> final(tables)@.wf(),
{
    let expires_at = now.plus(hold_for);
    let mut keys: Vec<Option<(i64, u128)>> = Vec::new();
    let mut i: usize = 0;
    while i < tables.messages_unattempted.len()
        invariant
            i <= tables.messages_unattempted.len(),
            tables == old(tables),
            keys@.len() == i,
            forall|j: int| 0 <= j < i ==> keys@[j] == tables@.dispatch_keys_skipping(locked@)[j],
        decreases tables.messages_unattempted.len() - i,
    {
        let row = &tables.messages_unattempted[i];
        if contains_id(locked, row.id) {
            keys.push(None);
        } else {
            keys.push(Some((row.published_at.micros, row.id)));
        }
        i = i + 1;
    }
    assert(keys@ =~= tables@.dispatch_keys_skipping(locked@));
    match find_leader(&keys) {
        None => None,
        Some(at) => {
            proof {
                lemma_leader(keys@);
                if old(tables)@.wf() {
                    lemma_dispatch_preserves_wf(old(tables)@, at as int, now, host_id, expires_at);
                }
            }
            let row = tables.messages_unattempted.remove(at);
            let got = RawMessage {
                id: row.id,
                name: row.name.clone(),
                hash: row.hash,
                payload: row.payload.clone(),
                attempted: 0,
            };
            tables.leases.push(
                Lease { message_id: row.id, acquired_at: now, acquired_by: host_id, expires_at },
            );
            proof {
                assert(message_records(old(tables).messages_unattempted@.remove(at as int))
                    =~= message_records(old(tables).messages_unattempted@).remove(at as int));
                assert(message_records(old(tables).messages_attempted@.push(row))
                    =~= message_records(old(tables).messages_attempted@).push(row@));
            }
            tables.messages_attempted.push(row);
            Some(got)
        },
    }
}

} // verus!
