use crate::queries::history::Operation;
use crate::queries::tables::{lemma_mentions_push, Lease, QueueState, Tables};
use crate::time::{Duration, Timestamp};
use vstd::prelude::*;

verus! {

impl QueueState {
    /// Whether a host other than `host_id` holds a lease on message `m` that
    /// has not run out at `now`. Leases on other messages do not count.
    pub open spec fn foreign_lease_active(self, m: u128, now: Timestamp, host_id: u128) -> bool {
        exists|i: int|
            0 <= i < self.leases.len() && (#[trigger] self.leases[i]).message_id == m
                && self.leases[i].acquired_by != host_id && self.leases[i].expires_at.micros
                > now.micros
    }

    /// The tables with one more lease.
    pub open spec fn grant(self, lease: Lease) -> QueueState {
        QueueState { leases: self.leases.push(lease), ..self }
    }
}

/// What asking for a lease does: while another host holds an active lease on
/// the message nothing changes and nothing is granted; else a lease of
/// `host_id` on the message from `now` for `hold_for` is added, and its
/// expiry comes back.
pub open spec fn requested_lease(
    before: QueueState,
    after: QueueState,
    message_id: u128,
    now: Timestamp,
    host_id: u128,
    hold_for: Duration,
    granted: Option<Timestamp>,
) -> bool {
    if before.foreign_lease_active(message_id, now, host_id) {
        after == before && granted is None
    } else {
        &&& after == before.grant(
            Lease {
                message_id,
                acquired_at: now,
                acquired_by: host_id,
                expires_at: now.spec_plus(hold_for),
            },
        )
        &&& granted == Some(now.spec_plus(hold_for))
    }
}

/// A lease on a message in flight keeps the tables well formed.
pub proof fn lemma_grant_preserves_wf(s: QueueState, lease: Lease)
    requires
        s.wf(),
        s.in_flight(lease.message_id),
    ensures
        s.grant(lease).wf(),
        s.grant(lease).in_flight(lease.message_id),
        s.grant(lease).has_lease(lease.message_id),
{
    let after = s.grant(lease);
    assert forall|x: u128| #[trigger] after.consistent(x) by {
        lemma_mentions_push(s.leases, lease, x);
        assert(s.consistent(x));
    }
    lemma_mentions_push(s.leases, lease, lease.message_id);
}

/// Asks for a lease of `host_id` on message `message_id`, from `now` for
/// `hold_for`: a first lease or a renewal.
pub fn request_lease(
    tables: &mut Tables,
    message_id: u128,
    now: Timestamp,
    host_id: u128,
    hold_for: Duration,
) -> (granted: Option<Timestamp>)
    requires
        now.can_add(hold_for),
    ensures
        requested_lease(old(tables)@, final(tables)@, message_id, now, host_id, hold_for, granted),
        final(tables)@ == old(tables)@.apply(
            Operation::RequestLease {
                message_id,
                now,
                host_id,
                expires_at: now.spec_plus(hold_for),
            },
        ),
        old(tables)@.wf() && (old(tables)@.in_flight(message_id)
            || old(tables)@.foreign_lease_active(message_id, now, host_id)) ==> final(tables)@.wf(),
{
    let mut i: usize = 0;
    while i < tables.leases.len()
        invariant
            i <= tables.leases.len(),
            tables == old(tables),
            forall|j: int|
                0 <= j < i ==> !((#[trigger] tables.leases@[j]).message_id == message_id
                    && tables.leases@[j].acquired_by != host_id
                    && tables.leases@[j].expires_at.micros > now.micros),
        decreases tables.leases.len() - i,
    {
        if tables.leases[i].message_id == message_id && tables.leases[i].acquired_by != host_id
            && tables.leases[i].expires_at.micros > now.micros {
            assert(tables@.leases[i as int].message_id == message_id);
            return None;
        }
        i = i + 1;
    }
    let expires_at = now.plus(hold_for);
    let lease = Lease { message_id, acquired_at: now, acquired_by: host_id, expires_at };
    proof {
        if old(tables)@.wf() && old(tables)@.in_flight(message_id) {
            lemma_grant_preserves_wf(old(tables)@, lease);
        }
    }
    tables.leases.push(lease);
    Some(expires_at)
}

} // verus!
