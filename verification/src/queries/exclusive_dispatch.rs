//! Dispatch to many callers: every queued message goes to exactly one of
//! them. The callers are served one after the other, the order in which the
//! database's row locks let their statements take effect; a caller that runs
//! while another's transaction is open skips the messages that it holds
//! locked.

use crate::models::RawMessage;
use crate::queries::get_next_unattempted::{dispatched_unattempted_at, lemma_dispatch_preserves_wf};
use crate::queries::history::Operation;
use crate::queries::selection::{leads, lemma_leader};
use crate::queries::tables::{lemma_mentions_remove, MessageKeyed, QueueState};
use crate::time::{Duration, Timestamp};
use vstd::prelude::*;

verus! {

/// One caller of the first dispatch, with what it passes.
pub struct Caller {
    pub now: Timestamp,
    pub host_id: u128,
    pub expires_at: Timestamp,
}

impl QueueState {
    /// The message that a first dispatch on these tables returns.
    pub open spec fn next_unattempted_id(self) -> Option<u128> {
        match self.next_unattempted() {
            Some(at) => Some(self.messages_unattempted[at].id),
            None => None,
        }
    }

    /// The tables after the first `n` of the callers were served.
    pub open spec fn after_callers(self, callers: Seq<Caller>, n: int) -> QueueState
        decreases n,
    {
        if n <= 0 {
            self
        } else {
            self.after_callers(callers, n - 1).apply(
                Operation::GetNextUnattempted {
                    now: callers[n - 1].now,
                    host_id: callers[n - 1].host_id,
                    expires_at: callers[n - 1].expires_at,
                },
            )
        }
    }

    /// What caller number `j` gets.
    pub open spec fn answer(self, callers: Seq<Caller>, j: int) -> Option<u128> {
        self.after_callers(callers, j).next_unattempted_id()
    }

    /// Whether message `m` went to one of the first `n` callers.
    pub open spec fn given_to_a_caller(self, callers: Seq<Caller>, n: int, m: u128) -> bool {
        exists|j: int| 0 <= j < n && #[trigger] self.answer(callers, j) == Some(m)
    }

    /// What holds once the first `n` callers were served: the tables are
    /// well formed; the first callers got a message each, as long as there
    /// were any, and the later ones none; no two got the same; each got a
    /// message that was queued; and a queued message is still queued exactly
    /// if it went to no caller.
    pub open spec fn served_exclusively(self, callers: Seq<Caller>, n: int) -> bool {
        &&& self.after_callers(callers, n).wf()
        &&& self.after_callers(callers, n).messages_unattempted.len() == if n
            < self.messages_unattempted.len() {
            self.messages_unattempted.len() - n
        } else {
            0
        }
        &&& forall|j: int|
            0 <= j < n ==> ((#[trigger] self.answer(callers, j)) is Some <==> j
                < self.messages_unattempted.len())
        &&& forall|i: int, j: int|
            0 <= i < j < n && (#[trigger] self.answer(callers, i)) is Some ==> self.answer(
                callers,
                i,
            ) != #[trigger] self.answer(callers, j)
        &&& forall|j: int|
            0 <= j < n && (#[trigger] self.answer(callers, j)) is Some ==> self.is_unattempted(
                self.answer(callers, j)->Some_0,
            )
        &&& forall|m: u128|
            #[trigger] self.after_callers(callers, n).is_unattempted(m) <==> self.is_unattempted(m)
                && !self.given_to_a_caller(callers, n, m)
    }
}

/// However many callers ask and whatever they pass, each queued message goes
/// to exactly one caller: no message is handed out twice, none is lost, and
/// a caller goes empty only when nothing is queued any more.
pub proof fn lemma_each_message_goes_to_one_caller(s: QueueState, callers: Seq<Caller>, n: int)
    requires
        s.wf(),
        0 <= n <= callers.len(),
    ensures
        s.served_exclusively(callers, n),
    decreases n,
{
    if n == 0 {
        assert forall|m: u128| !s.given_to_a_caller(callers, 0, m) by {}
    } else {
        let before = n - 1;
        lemma_each_message_goes_to_one_caller(s, callers, before);
        let sn = s.after_callers(callers, before);
        let after = s.after_callers(callers, n);
        let keys = sn.dispatch_keys();
        lemma_leader(keys);
        assert(s.answer(callers, before) == sn.next_unattempted_id());
        match sn.next_unattempted() {
            None => {
                assert(after == sn);
                if sn.messages_unattempted.len() > 0 {
                    assert(keys[0] is Some);
                }
                assert forall|m: u128|
                    s.given_to_a_caller(callers, n, m) <==> s.given_to_a_caller(
                        callers,
                        before,
                        m,
                    ) by {
                    if s.given_to_a_caller(callers, n, m) {
                        let j = choose|j: int|
                            0 <= j < n && #[trigger] s.answer(callers, j) == Some(m);
                        assert(j < before);
                    }
                    if s.given_to_a_caller(callers, before, m) {
                        let j = choose|j: int|
                            0 <= j < before && #[trigger] s.answer(callers, j) == Some(m);
                        assert(0 <= j < n);
                    }
                }
            },
            Some(at) => {
                assert(leads(keys, at));
                let taken = sn.messages_unattempted[at].id;
                assert(sn.messages_unattempted[at].message_key() == taken);
                assert(sn.is_unattempted(taken));
                assert(s.answer(callers, before) == Some(taken));
                lemma_dispatch_preserves_wf(
                    sn,
                    at,
                    callers[before].now,
                    callers[before].host_id,
                    callers[before].expires_at,
                );
                assert(!s.given_to_a_caller(callers, before, taken));
                assert forall|i: int|
                    0 <= i < before && (#[trigger] s.answer(callers, i)) is Some implies s.answer(
                    callers,
                    i,
                ) != s.answer(callers, before) by {
                    if s.answer(callers, i) == Some(taken) {
                        assert(s.given_to_a_caller(callers, before, taken));
                    }
                }
                assert forall|m: u128| #[trigger]
                    after.is_unattempted(m) <==> s.is_unattempted(m) && !s.given_to_a_caller(
                        callers,
                        n,
                        m,
                    ) by {
                    lemma_mentions_remove(sn.messages_unattempted, at, m);
                    assert(after.messages_unattempted == sn.messages_unattempted.remove(at));
                    assert(after.is_unattempted(m) <==> sn.is_unattempted(m) && m != taken);
                    assert(sn.is_unattempted(m) <==> s.is_unattempted(m) && !s.given_to_a_caller(
                        callers,
                        before,
                        m,
                    ));
                    if s.given_to_a_caller(callers, n, m) {
                        let j = choose|j: int|
                            0 <= j < n && #[trigger] s.answer(callers, j) == Some(m);
                        if j < before {
                            assert(s.given_to_a_caller(callers, before, m));
                        }
                    }
                    if s.given_to_a_caller(callers, before, m) {
                        let j = choose|j: int|
                            0 <= j < before && #[trigger] s.answer(callers, j) == Some(m);
                        assert(0 <= j < n);
                    }
                    if m == taken {
                        assert(s.answer(callers, before) == Some(m));
                    }
                }
            },
        }
    }
}

/// A caller that skips locked messages is never given one of them, and goes
/// empty exactly when every queued message is locked.
pub proof fn lemma_locked_messages_are_skipped(s: QueueState, locked: Seq<u128>)
    ensures
        match s.next_unattempted_skipping(locked) {
            Some(at) => 0 <= at < s.messages_unattempted.len() && !locked.contains(
                s.messages_unattempted[at].id,
            ),
            None => forall|i: int|
                0 <= i < s.messages_unattempted.len() ==> locked.contains(
                    (#[trigger] s.messages_unattempted[i]).id,
                ),
        },
        (forall|i: int|
            0 <= i < s.messages_unattempted.len() ==> locked.contains(
                (#[trigger] s.messages_unattempted[i]).id,
            )) ==> s.next_unattempted_skipping(locked) is None,
{
    let keys = s.dispatch_keys_skipping(locked);
    lemma_leader(keys);
    match s.next_unattempted_skipping(locked) {
        Some(at) => {
            assert(leads(keys, at));
            assert(keys[at] is Some);
        },
        None => {
            assert forall|i: int| 0 <= i < s.messages_unattempted.len() implies locked.contains(
                (#[trigger] s.messages_unattempted[i]).id,
            ) by {
                assert(keys[i] is None);
            }
        },
    }
}

/// While an open transaction holds every queued message, another caller is
/// given nothing and changes nothing: it sees none of them until the
/// transaction ends.
pub proof fn lemma_all_taken_nothing_given(
    s: QueueState,
    after: QueueState,
    locked: Seq<u128>,
    now: Timestamp,
    host_id: u128,
    hold_for: Duration,
    got: Option<RawMessage>,
)
    requires
        forall|i: int|
            0 <= i < s.messages_unattempted.len() ==> locked.contains(
                (#[trigger] s.messages_unattempted[i]).id,
            ),
        dispatched_unattempted_at(
            s,
            after,
            s.next_unattempted_skipping(locked),
            now,
            host_id,
            hold_for,
            got,
        ),
    ensures
        got is None,
        after == s,
{
    lemma_locked_messages_are_skipped(s, locked);
}

/// A caller that skips locked messages is never given the retry of one.
pub proof fn lemma_locked_retries_are_skipped(s: QueueState, now: Timestamp, locked: Seq<u128>)
    ensures
        match s.next_retryable_skipping(now, locked) {
            Some(at) => 0 <= at < s.attempts_failed.len() && s.is_retryable(at, now)
                && !locked.contains(s.attempts_failed[at].message_id),
            None => forall|i: int|
                0 <= i < s.attempts_failed.len() && s.is_retryable(i, now) ==> locked.contains(
                    (#[trigger] s.attempts_failed[i]).message_id,
                ),
        },
{
    let keys = s.retry_keys_skipping(now, locked);
    lemma_leader(keys);
    match s.next_retryable_skipping(now, locked) {
        Some(at) => {
            assert(leads(keys, at));
            assert(keys[at] is Some);
        },
        None => {
            assert forall|i: int|
                0 <= i < s.attempts_failed.len() && s.is_retryable(i, now) implies locked.contains(
                (#[trigger] s.attempts_failed[i]).message_id,
            ) by {
                assert(keys[i] is None);
            }
        },
    }
}

/// A caller that skips locked messages never rescues one.
pub proof fn lemma_locked_rescues_are_skipped(s: QueueState, now: Timestamp, locked: Seq<u128>)
    ensures
        match s.next_missing_skipping(now, locked) {
            Some(at) => 0 <= at < s.messages_attempted.len() && s.is_rescuable_at(at, now)
                && !locked.contains(s.messages_attempted[at].id),
            None => forall|i: int|
                0 <= i < s.messages_attempted.len() && s.is_rescuable_at(i, now)
                    ==> locked.contains((#[trigger] s.messages_attempted[i]).id),
        },
{
    let keys = s.missing_keys_skipping(now, locked);
    lemma_leader(keys);
    match s.next_missing_skipping(now, locked) {
        Some(at) => {
            assert(leads(keys, at));
            assert(keys[at] is Some);
        },
        None => {
            assert forall|i: int|
                0 <= i < s.messages_attempted.len() && s.is_rescuable_at(i, now) implies locked.contains(
                (#[trigger] s.messages_attempted[i]).id,
            ) by {
                assert(keys[i] is None);
            }
        },
    }
}

} // verus!
