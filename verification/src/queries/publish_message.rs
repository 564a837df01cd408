use crate::queries::history::Operation;
use crate::models::{RawMessage, RawMessageView};
use crate::queries::tables::{
    find_message, lemma_distinct_push, lemma_mentions_push, message_records, DatabaseError,
    MessageRecord, MessageRow, QueueState, Tables,
};
use crate::time::Timestamp;
use vstd::prelude::*;

verus! {

impl QueueState {
    /// Whether a message with identifier `id` can be published: neither
    /// message table holds that identifier yet.
    pub open spec fn can_publish(self, id: u128) -> bool {
        !self.is_unattempted(id) && !self.is_attempted(id)
    }

    /// The tables after `message` was published at `now`: one more
    /// unattempted message. The attempt counter of `message` is not kept.
    pub open spec fn publish(self, message: RawMessageView, now: Timestamp) -> QueueState {
        QueueState {
            messages_unattempted: self.messages_unattempted.push(
                MessageRecord {
                    id: message.id,
                    name: message.name,
                    hash: message.hash,
                    payload: message.payload,
                    published_at: now,
                },
            ),
            ..self
        }
    }
}

/// What publishing `message` at `now` does: with a new identifier the message
/// becomes unattempted and comes back with an attempt counter of zero; with a
/// known one the tables stay as they are and the identifier is reported as
/// taken.
pub open spec fn published(
    before: QueueState,
    after: QueueState,
    message: RawMessageView,
    now: Timestamp,
    outcome: Result<RawMessage, DatabaseError>,
) -> bool {
    match outcome {
        Ok(stored) => {
            &&& before.can_publish(message.id)
            &&& after == before.publish(message, now)
            &&& stored@ == RawMessageView { attempted: 0, ..message }
        },
        Err(e) => {
            &&& !before.can_publish(message.id)
            &&& after == before
            &&& e == DatabaseError::UniqueViolation
        },
    }
}

/// Publishing keeps the tables well formed, and the new message is consistent
/// as an unattempted one.
pub proof fn lemma_publish_preserves_wf(s: QueueState, message: RawMessageView, now: Timestamp)
    requires
        s.wf(),
        s.can_publish(message.id),
    ensures
        s.publish(message, now).wf(),
        s.publish(message, now).is_unattempted(message.id),
{
    let after = s.publish(message, now);
    let record = after.messages_unattempted.last();
    lemma_distinct_push(s.messages_unattempted, record);
    assert forall|m: u128| #[trigger] after.consistent(m) by {
        lemma_mentions_push(s.messages_unattempted, record, m);
        assert(s.consistent(m));
    }
    lemma_mentions_push(s.messages_unattempted, record, message.id);
}

/// Publishes `message` with `now` as its time of publication.
pub fn publish_message_at(tables: &mut Tables, message: &RawMessage, now: Timestamp) -> (outcome:
    Result<RawMessage, DatabaseError>)
    ensures
        published(old(tables)@, final(tables)@, message@, now, outcome),
        final(tables)@ == old(tables)@.apply(Operation::Publish { message: message@, now }),
        old(tables)@.wf() ==> final(tables)@.wf(),
{
    if find_message(&tables.messages_unattempted, message.id).is_some() || find_message(
        &tables.messages_attempted,
        message.id,
    ).is_some() {
        return Err(DatabaseError::UniqueViolation);
    }
    let row = MessageRow {
        id: message.id,
        name: message.name.clone(),
        hash: message.hash,
        payload: message.payload.clone(),
        published_at: now,
    };
    let stored = RawMessage {
        id: message.id,
        name: message.name.clone(),
        hash: message.hash,
        payload: message.payload.clone(),
        attempted: 0,
    };
    proof {
        assert(message_records(old(tables).messages_unattempted@.push(row)) =~= message_records(
            old(tables).messages_unattempted@,
        ).push(row@));
        if old(tables)@.wf() {
            lemma_publish_preserves_wf(old(tables)@, message@, now);
        }
    }
    tables.messages_unattempted.push(row);
    Ok(stored)
}

/// Publishes `message`; the clock gives its time of publication.
pub fn publish_message(tables: &mut Tables, message: &RawMessage) -> (outcome: Result<
    RawMessage,
    DatabaseError,
>)
    ensures
        exists|now: Timestamp| published(old(tables)@, final(tables)@, message@, now, outcome),
        old(tables)@.wf() ==> final(tables)@.wf(),
{
    let now = Timestamp::now();
    let outcome = publish_message_at(tables, message, now);
    assert(published(old(tables)@, tables@, message@, now, outcome));
    outcome
}

} // verus!
