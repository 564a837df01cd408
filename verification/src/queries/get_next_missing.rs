use crate::queries::history::Operation;
use crate::models::RawMessage;
use crate::queries::selection::{find_leader, leader, lemma_leader};
use crate::queries::tables::{contains_id, Lease, MessageKeyed, QueueState, Tables};
use crate::time::{Duration, Timestamp};
use vstd::prelude::*;

verus! {

/// A lease as a rescue of message `m` leaves it: a lease of `m` is rewritten
/// to `host_id`, from `now` until `expires_at`; any other stays as it is.
pub open spec fn rewritten(
    lease: Lease,
    m: u128,
    now: Timestamp,
    host_id: u128,
    expires_at: Timestamp,
) -> Lease {
    if lease.message_id == m {
        Lease { message_id: m, acquired_at: now, acquired_by: host_id, expires_at }
    } else {
        lease
    }
}

impl QueueState {
    /// Whether some lease of `m` ran out before `now`.
    pub open spec fn has_expired_lease(self, m: u128, now: Timestamp) -> bool {
        exists|i: int|
            0 <= i < self.leases.len() && (#[trigger] self.leases[i]).message_id == m
                && self.leases[i].expires_at.micros < now.micros
    }

    /// Whether the attempted message at position `i` can be rescued at
    /// `now`: a lease of it ran out before `now`, and it has neither
    /// succeeded nor died. Other leases of it may still be active.
    pub open spec fn is_rescuable_at(self, i: int, now: Timestamp) -> bool {
        &&& 0 <= i < self.messages_attempted.len()
        &&& self.has_expired_lease(self.messages_attempted[i].id, now)
        &&& !self.is_succeeded(self.messages_attempted[i].id)
        &&& !self.is_dead(self.messages_attempted[i].id)
    }

    /// The sort keys of the attempted messages: those that can be rescued
    /// qualify, the oldest first.
    pub open spec fn missing_keys(self, now: Timestamp) -> Seq<Option<(i64, u128)>> {
        Seq::new(
            self.messages_attempted.len(),
            |i: int|
                if self.is_rescuable_at(i, now) {
                    Some((self.messages_attempted[i].published_at.micros, 0u128))
                } else {
                    None
                },
        )
    }

    /// The position of the message that is rescued next at `now`.
    pub open spec fn next_missing(self, now: Timestamp) -> Option<int> {
        leader(self.missing_keys(now))
    }

    /// The sort keys of the attempted messages for a caller that skips the
    /// messages in `locked`, whose rows open transactions of others hold
    /// locked: those do not qualify.
    pub open spec fn missing_keys_skipping(self, now: Timestamp, locked: Seq<u128>) -> Seq<
        Option<(i64, u128)>,
    > {
        Seq::new(
            self.messages_attempted.len(),
            |i: int|
                if locked.contains(self.messages_attempted[i].id) {
                    None
                } else {
                    self.missing_keys(now)[i]
                },
        )
    }

    /// The position of the message that is rescued next at `now` by a caller
    /// that skips the messages in `locked`.
    pub open spec fn next_missing_skipping(self, now: Timestamp, locked: Seq<u128>) -> Option<int> {
        leader(self.missing_keys_skipping(now, locked))
    }

    /// The tables after message `m` was rescued by `host_id` at `now`: every
    /// lease of `m` is rewritten in place.
    pub open spec fn rescue(
        self,
        m: u128,
        now: Timestamp,
        host_id: u128,
        expires_at: Timestamp,
    ) -> QueueState {
        QueueState {
            leases: Seq::new(
                self.leases.len(),
                |i: int| rewritten(self.leases[i], m, now, host_id, expires_at),
            ),
            ..self
        }
    }
}

/// What a rescue does: with no missing message nothing changes and nothing
/// comes back; else the leases of the next one are rewritten to `host_id`,
/// from `now` for `hold_for`, and the message comes back with an attempt
/// counter of zero.
pub open spec fn dispatched_missing(
    before: QueueState,
    after: QueueState,
    now: Timestamp,
    host_id: u128,
    hold_for: Duration,
    got: Option<RawMessage>,
) -> bool {
    dispatched_missing_at(before, after, before.next_missing(now), now, host_id, hold_for, got)
}

/// What a rescue does once the position `pick` is chosen, if any.
pub open spec fn dispatched_missing_at(
    before: QueueState,
    after: QueueState,
    pick: Option<int>,
    now: Timestamp,
    host_id: u128,
    hold_for: Duration,
    got: Option<RawMessage>,
) -> bool {
    match pick {
        None => after == before && got is None,
        Some(at) => {
            &&& 0 <= at < before.messages_attempted.len()
            &&& after == before.rescue(
                before.messages_attempted[at].id,
                now,
                host_id,
                now.spec_plus(hold_for),
            )
            &&& got is Some
            &&& got->Some_0@ == before.messages_attempted[at].as_raw(0)
        },
    }
}

/// A rescue leaves every message with a lease if and only if it had one.
pub proof fn lemma_rescue_keeps_leased(
    s: QueueState,
    m: u128,
    now: Timestamp,
    host_id: u128,
    expires_at: Timestamp,
    x: u128,
)
    ensures
        s.rescue(m, now, host_id, expires_at).has_lease(x) <==> s.has_lease(x),
{
    let after = s.rescue(m, now, host_id, expires_at);
    if s.has_lease(x) {
        let i = choose|i: int| 0 <= i < s.leases.len() && (#[trigger] s.leases[i]).message_key() == x;
        assert(after.leases[i].message_key() == x);
    }
    if after.has_lease(x) {
        let i = choose|i: int|
            0 <= i < after.leases.len() && (#[trigger] after.leases[i]).message_key() == x;
        assert(s.leases[i].message_key() == x);
    }
}

/// A rescue keeps the tables well formed.
pub proof fn lemma_rescue_preserves_wf(
    s: QueueState,
    m: u128,
    now: Timestamp,
    host_id: u128,
    expires_at: Timestamp,
)
    requires
        s.wf(),
    ensures
        s.rescue(m, now, host_id, expires_at).wf(),
{
    let after = s.rescue(m, now, host_id, expires_at);
    assert forall|x: u128| #[trigger] after.consistent(x) by {
        lemma_rescue_keeps_leased(s, m, now, host_id, expires_at, x);
        assert(s.consistent(x));
    }
}

impl Tables {
    /// Whether some lease of `m` ran out before `now`.
    pub fn has_expired_lease(&self, m: u128, now: Timestamp) -> (found: bool)
        ensures
            found == self@.has_expired_lease(m, now),
    {
        let mut i: usize = 0;
        while i < self.leases.len()
            invariant
                i <= self.leases.len(),
                forall|j: int|
                    0 <= j < i ==> !((#[trigger] self.leases@[j]).message_id == m
                        && self.leases@[j].expires_at.micros < now.micros),
            decreases self.leases.len() - i,
        {
            if self.leases[i].message_id == m && self.leases[i].expires_at.micros < now.micros {
                assert(self@.leases[i as int].message_id == m);
                return true;
            }
            i = i + 1;
        }
        false
    }
}

/// No message is skipped where none is locked.
pub proof fn lemma_no_locks_no_skipped_rescues(s: QueueState, now: Timestamp)
    ensures
        s.next_missing_skipping(now, Seq::empty()) == s.next_missing(now),
{
    assert(s.missing_keys_skipping(now, Seq::empty()) =~= s.missing_keys(now));
}

/// Rescues the next message of which a lease ran out before `now`: `host_id`
/// takes its leases over and holds it from `now` for `hold_for`.
pub fn get_next_missing(
    tables: &mut Tables,
    now: Timestamp,
    host_id: u128,
    hold_for: Duration,
) -> (got: Option<RawMessage>)
    requires
        now.can_add(hold_for),
    ensures
        dispatched_missing(old(tables)@, final(tables)@, now, host_id, hold_for, got),
        final(tables)@ == old(tables)@.apply(
            Operation::GetNextMissing { now, host_id, expires_at: now.spec_plus(hold_for) },
        ),
        old(tables)@.wf() ==> final(tables)@.wf(),
{
    let locked: Vec<u128> = Vec::new();
    proof {
        lemma_no_locks_no_skipped_rescues(tables@, now);
    }
    get_next_missing_skip_locked(tables, &locked, now, host_id, hold_for)
}

/// Rescues for `host_id` the next message of which a lease ran out before
/// `now` and which is not in `locked`: the messages whose rows open
/// transactions of other callers hold locked are passed over, not waited for.
pub fn get_next_missing_skip_locked(
    tables: &mut Tables,
    locked: &Vec<u128>,
    now: Timestamp,
    host_id: u128,
    hold_for: Duration,
) -> (got: Option<RawMessage>)
    requires
        now.can_add(hold_for),
    ensures
        dispatched_missing_at(
            old(tables)@,
            final(tables)@,
            old(tables)@.next_missing_skipping(now, locked@),
            now,
            host_id,
            hold_for,
            got,
        ),
        old(tables)@.wf() ==> final(tables)@.wf(),
{
    let expires_at = now.plus(hold_for);
    let mut keys: Vec<Option<(i64, u128)>> = Vec::new();
    let mut i: usize = 0;
    while i < tables.messages_attempted.len()
        invariant
            i <= tables.messages_attempted.len(),
            tables == old(tables),
            keys@.len() == i,
            forall|j: int| 0 <= j < i ==> keys@[j] == tables@.missing_keys_skipping(now, locked@)[j],
        decreases tables.messages_attempted.len() - i,
    {
        let id = tables.messages_attempted[i].id;
        let published_at = tables.messages_attempted[i].published_at.micros;
        if !contains_id(locked, id) && tables.has_expired_lease(id, now) && !tables.is_succeeded(
            id,
        ) && !tables.is_dead(id) {
            keys.push(Some((published_at, 0u128)));
        } else {
            keys.push(None);
        }
        i = i + 1;
    }
    assert(keys@ =~= tables@.missing_keys_skipping(now, locked@));
    match find_leader(&keys) {
        None => None,
        Some(at) => {
            proof {
                lemma_leader(keys@);
            }
            let row = &tables.messages_attempted[at];
            let m = row.id;
            let got = RawMessage {
                id: row.id,
                name: row.name.clone(),
                hash: row.hash,
                payload: row.payload.clone(),
                attempted: 0,
            };
            let mut j: usize = 0;
            while j < tables.leases.len()
                invariant
                    j <= tables.leases.len(),
                    tables.leases.len() == old(tables).leases.len(),
                    tables.messages_unattempted == old(tables).messages_unattempted,
                    tables.messages_attempted == old(tables).messages_attempted,
                    tables.attempts_failed == old(tables).attempts_failed,
                    tables.attempts_succeeded == old(tables).attempts_succeeded,
                    tables.attempts_dead == old(tables).attempts_dead,
                    tables.errors == old(tables).errors,
                    forall|k: int|
                        0 <= k < j ==> tables.leases@[k] == rewritten(
                            #[trigger] old(tables).leases@[k],
                            m,
                            now,
                            host_id,
                            expires_at,
                        ),
                    forall|k: int|
                        j <= k < tables.leases.len() ==> tables.leases@[k] == #[trigger] old(
                            tables,
                        ).leases@[k],
                decreases tables.leases.len() - j,
            {
                if tables.leases[j].message_id == m {
                    tables.leases.set(
                        j,
                        Lease { message_id: m, acquired_at: now, acquired_by: host_id, expires_at },
                    );
                }
                j = j + 1;
            }
            proof {
                assert(tables@.leases =~= old(tables)@.rescue(m, now, host_id, expires_at).leases);
                if old(tables)@.wf() {
                    lemma_rescue_preserves_wf(old(tables)@, m, now, host_id, expires_at);
                }
            }
            Some(got)
        },
    }
}

} // verus!
