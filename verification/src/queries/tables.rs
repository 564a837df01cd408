//! The queue's tables, and what they hold about one message.

use crate::testing_tools::{RawState, State};
use crate::time::Timestamp;
use vstd::prelude::*;

verus! {

/// A claim of a host on a message, valid until `expires_at`.
#[derive(Debug, Clone, Copy, PartialEq, Eq, Structural)]
pub struct Lease {
    pub message_id: u128,
    pub acquired_at: Timestamp,
    pub acquired_by: u128,
    pub expires_at: Timestamp,
}

/// One recoverable failure of a message.
#[derive(Debug, Clone, Copy, PartialEq, Eq, Structural)]
pub struct FailedAttempt {
    pub id: u128,
    pub message_id: u128,
    pub failed_at: Timestamp,
    /// The attempt counter after this failure.
    pub attempted: i32,
    /// The instant from which a retry is permitted.
    pub retry_earliest_at: Timestamp,
}

/// The success of a message.
#[derive(Debug, Clone, Copy, PartialEq, Eq, Structural)]
pub struct SucceededAttempt {
    pub message_id: u128,
    pub succeeded_at: Timestamp,
}

/// The end of a message that ran out of retries.
#[derive(Debug, Clone, Copy, PartialEq, Eq, Structural)]
pub struct DeadAttempt {
    pub message_id: u128,
    pub dead_at: Timestamp,
}

/// A message as a table keeps it.
#[derive(Debug)]
pub struct MessageRow {
    pub id: u128,
    pub name: String,
    pub hash: i32,
    pub payload: String,
    pub published_at: Timestamp,
}

/// A `MessageRow` with its texts as sequences of characters.
pub struct MessageRecord {
    pub id: u128,
    pub name: Seq<char>,
    pub hash: i32,
    pub payload: Seq<char>,
    pub published_at: Timestamp,
}

impl View for MessageRow {
    type V = MessageRecord;

    open spec fn view(&self) -> MessageRecord {
        MessageRecord {
            id: self.id,
            name: self.name@,
            hash: self.hash,
            payload: self.payload@,
            published_at: self.published_at,
        }
    }
}

/// One entry of the error log.
#[derive(Debug)]
pub struct ErrorRow {
    pub id: u128,
    pub message_id: u128,
    pub reported_at: Timestamp,
    pub error: String,
}

/// An `ErrorRow` with its text as a sequence of characters.
pub struct ErrorRecord {
    pub id: u128,
    pub message_id: u128,
    pub reported_at: Timestamp,
    pub error: Seq<char>,
}

impl View for ErrorRow {
    type V = ErrorRecord;

    open spec fn view(&self) -> ErrorRecord {
        ErrorRecord {
            id: self.id,
            message_id: self.message_id,
            reported_at: self.reported_at,
            error: self.error@,
        }
    }
}

/// The rows of a message table as records.
pub open spec fn message_records(rows: Seq<MessageRow>) -> Seq<MessageRecord> {
    rows.map_values(|row: MessageRow| row@)
}

/// The rows of the error log as records.
pub open spec fn error_records(rows: Seq<ErrorRow>) -> Seq<ErrorRecord> {
    rows.map_values(|row: ErrorRow| row@)
}

/// Why the database turned a statement down.
#[derive(Debug, Clone, Copy, PartialEq, Eq, Structural)]
pub enum DatabaseError {
    /// A row with this identifier is already there.
    UniqueViolation,
    /// The row refers to a message that was never attempted.
    ForeignKeyViolation,
}

/// A row that belongs to one message.
pub trait MessageKeyed {
    /// The message that the row belongs to.
    spec fn message_key(&self) -> u128;
}

impl MessageKeyed for Lease {
    open spec fn message_key(&self) -> u128 {
        self.message_id
    }
}

impl MessageKeyed for FailedAttempt {
    open spec fn message_key(&self) -> u128 {
        self.message_id
    }
}

impl MessageKeyed for SucceededAttempt {
    open spec fn message_key(&self) -> u128 {
        self.message_id
    }
}

impl MessageKeyed for DeadAttempt {
    open spec fn message_key(&self) -> u128 {
        self.message_id
    }
}

impl MessageKeyed for MessageRecord {
    open spec fn message_key(&self) -> u128 {
        self.id
    }
}

impl MessageKeyed for ErrorRecord {
    open spec fn message_key(&self) -> u128 {
        self.message_id
    }
}

/// A row of a table whose message can be read off it.
pub trait KeyedRow: MessageKeyed {
    fn message_id(&self) -> (id: u128)
        ensures
            id == self.message_key(),
    ;
}

impl KeyedRow for Lease {
    fn message_id(&self) -> (id: u128) {
        self.message_id
    }
}

impl KeyedRow for FailedAttempt {
    fn message_id(&self) -> (id: u128) {
        self.message_id
    }
}

impl KeyedRow for SucceededAttempt {
    fn message_id(&self) -> (id: u128) {
        self.message_id
    }
}

impl KeyedRow for DeadAttempt {
    fn message_id(&self) -> (id: u128) {
        self.message_id
    }
}

/// Whether some row of `rows` belongs to message `m`.
pub open spec fn mentions<T: MessageKeyed>(rows: Seq<T>, m: u128) -> bool {
    exists|i: int| 0 <= i < rows.len() && (#[trigger] rows[i]).message_key() == m
}

/// `rows` without the rows of message `m`, the others in their order.
pub open spec fn without<T: MessageKeyed>(rows: Seq<T>, m: u128) -> Seq<T> {
    rows.filter(|row: T| row.message_key() != m)
}

/// Whether no two rows of `rows` belong to the same message.
pub open spec fn distinct_keys<T: MessageKeyed>(rows: Seq<T>) -> bool {
    forall|i: int, j: int|
        0 <= i < j < rows.len() ==> (#[trigger] rows[i]).message_key() != (
        #[trigger] rows[j]).message_key()
}

/// A pushed row adds its own message to those that the rows mention.
pub proof fn lemma_mentions_push<T: MessageKeyed>(rows: Seq<T>, row: T, m: u128)
    ensures
        mentions(rows.push(row), m) <==> mentions(rows, m) || row.message_key() == m,
{
    let pushed = rows.push(row);
    if mentions(rows, m) {
        let i = choose|i: int| 0 <= i < rows.len() && (#[trigger] rows[i]).message_key() == m;
        assert(pushed[i].message_key() == m);
    }
    if row.message_key() == m {
        assert(pushed[rows.len() as int].message_key() == m);
    }
    if mentions(pushed, m) {
        let i = choose|i: int| 0 <= i < pushed.len() && (#[trigger] pushed[i]).message_key() == m;
        if i < rows.len() {
            assert(rows[i].message_key() == m);
        }
    }
}

/// What is left after deleting a message's rows: the rows of every other
/// message, and none of its own.
pub proof fn lemma_mentions_without<T: MessageKeyed>(rows: Seq<T>, gone: u128, m: u128)
    ensures
        mentions(without(rows, gone), m) <==> mentions(rows, m) && m != gone,
    decreases rows.len(),
{
    reveal(Seq::filter);
    if rows.len() > 0 {
        let front = rows.drop_last();
        lemma_mentions_without(front, gone, m);
        assert(rows =~= front.push(rows.last()));
        lemma_mentions_push(front, rows.last(), m);
        if rows.last().message_key() != gone {
            assert(without(rows, gone) =~= without(front, gone).push(rows.last()));
            lemma_mentions_push(without(front, gone), rows.last(), m);
        } else {
            assert(without(rows, gone) =~= without(front, gone));
        }
    } else {
        assert(without(rows, gone) =~= rows);
    }
}

/// Removing the one row of a message leaves the rows of every other message.
pub proof fn lemma_mentions_remove<T: MessageKeyed>(rows: Seq<T>, at: int, m: u128)
    requires
        0 <= at < rows.len(),
        distinct_keys(rows),
    ensures
        mentions(rows.remove(at), m) <==> mentions(rows, m) && m != rows[at].message_key(),
        distinct_keys(rows.remove(at)),
{
    let rest = rows.remove(at);
    assert forall|i: int| 0 <= i < rest.len() implies #[trigger] rest[i] == rows[if i < at {
        i
    } else {
        i + 1
    }] by {}
    if mentions(rows, m) && m != rows[at].message_key() {
        let i = choose|i: int| 0 <= i < rows.len() && (#[trigger] rows[i]).message_key() == m;
        if i < at {
            assert(rest[i].message_key() == m);
        } else {
            assert(rest[i - 1].message_key() == m);
        }
    }
    if mentions(rest, m) {
        let i = choose|i: int| 0 <= i < rest.len() && (#[trigger] rest[i]).message_key() == m;
        let k = if i < at { i } else { i + 1 };
        assert(rows[k].message_key() == m);
    }
    assert forall|i: int, j: int| 0 <= i < j < rest.len() implies (#[trigger] rest[i]).message_key()
        != (#[trigger] rest[j]).message_key() by {
        let ki = if i < at { i } else { i + 1 };
        let kj = if j < at { j } else { j + 1 };
        assert(rows[ki].message_key() != rows[kj].message_key());
    }
}

/// A new row of a message that had none keeps the rows' messages distinct.
pub proof fn lemma_distinct_push<T: MessageKeyed>(rows: Seq<T>, row: T)
    requires
        distinct_keys(rows),
        !mentions(rows, row.message_key()),
    ensures
        distinct_keys(rows.push(row)),
{
    let pushed = rows.push(row);
    assert forall|i: int, j: int| 0 <= i < j < pushed.len() implies (
    #[trigger] pushed[i]).message_key() != (#[trigger] pushed[j]).message_key() by {
        if j == rows.len() {
            assert(rows[i].message_key() != row.message_key());
        } else {
            assert(rows[i].message_key() != rows[j].message_key());
        }
    }
}

/// The tables of the queue as a value: every row of every table, in the
/// order in which the rows were inserted.
pub struct QueueState {
    pub messages_unattempted: Seq<MessageRecord>,
    pub messages_attempted: Seq<MessageRecord>,
    pub leases: Seq<Lease>,
    pub attempts_failed: Seq<FailedAttempt>,
    pub attempts_succeeded: Seq<SucceededAttempt>,
    pub attempts_dead: Seq<DeadAttempt>,
    pub errors: Seq<ErrorRecord>,
}

impl QueueState {
    /// The queue with no row in any table.
    pub open spec fn empty() -> QueueState {
        QueueState {
            messages_unattempted: Seq::empty(),
            messages_attempted: Seq::empty(),
            leases: Seq::empty(),
            attempts_failed: Seq::empty(),
            attempts_succeeded: Seq::empty(),
            attempts_dead: Seq::empty(),
            errors: Seq::empty(),
        }
    }

    /// Whether message `m` waits for its first dispatch.
    pub open spec fn is_unattempted(self, m: u128) -> bool {
        mentions(self.messages_unattempted, m)
    }

    /// Whether message `m` was dispatched at least once.
    pub open spec fn is_attempted(self, m: u128) -> bool {
        mentions(self.messages_attempted, m)
    }

    /// Whether message `m` has a lease, active or not.
    pub open spec fn has_lease(self, m: u128) -> bool {
        mentions(self.leases, m)
    }

    /// Whether some lease of message `m` has not run out at `now`.
    pub open spec fn has_active_lease(self, m: u128, now: Timestamp) -> bool {
        exists|i: int|
            0 <= i < self.leases.len() && (#[trigger] self.leases[i]).message_id == m
                && self.leases[i].expires_at.micros > now.micros
    }

    /// Whether a failure of message `m` is recorded.
    pub open spec fn has_failed_attempts(self, m: u128) -> bool {
        mentions(self.attempts_failed, m)
    }

    /// Whether the error log has an entry for message `m`.
    pub open spec fn has_errors(self, m: u128) -> bool {
        mentions(self.errors, m)
    }

    /// Whether the success of message `m` is recorded.
    pub open spec fn is_succeeded(self, m: u128) -> bool {
        mentions(self.attempts_succeeded, m)
    }

    /// Whether the death of message `m` is recorded.
    pub open spec fn is_dead(self, m: u128) -> bool {
        mentions(self.attempts_dead, m)
    }

    /// Whether any table holds a row of `m`.
    pub open spec fn knows(self, m: u128) -> bool {
        ||| self.is_unattempted(m)
        ||| self.is_attempted(m)
        ||| self.has_lease(m)
        ||| self.has_failed_attempts(m)
        ||| self.has_errors(m)
        ||| self.is_succeeded(m)
        ||| self.is_dead(m)
    }

    /// The eight facts about `m` at `now`.
    pub open spec fn raw_state(self, m: u128, now: Timestamp) -> RawState {
        RawState {
            is_pending: self.is_unattempted(m),
            is_attempted: self.is_attempted(m),
            has_any_lease: self.has_lease(m),
            has_active_lease: self.has_active_lease(m, now),
            has_failed_attempts: self.has_failed_attempts(m),
            has_errors: self.has_errors(m),
            is_succeeded: self.is_succeeded(m),
            is_dead: self.is_dead(m),
        }
    }

    /// What must hold of the rows of one message: an unattempted message has
    /// no other row; every other row belongs to an attempted message; a
    /// message that succeeded or died has no lease and no failed attempt, and
    /// not both ends; an attempted message is leased, failed, succeeded or
    /// dead; a failure and a death each left an error.
    pub open spec fn consistent(self, m: u128) -> bool {
        if self.is_unattempted(m) {
            &&& !self.is_attempted(m)
            &&& !self.has_lease(m)
            &&& !self.has_failed_attempts(m)
            &&& !self.has_errors(m)
            &&& !self.is_succeeded(m)
            &&& !self.is_dead(m)
        } else if self.is_attempted(m) {
            &&& self.is_succeeded(m) ==> !self.is_dead(m) && !self.has_lease(m)
                && !self.has_failed_attempts(m)
            &&& self.is_dead(m) ==> !self.has_lease(m) && !self.has_failed_attempts(m)
                && self.has_errors(m)
            &&& self.has_failed_attempts(m) ==> self.has_errors(m)
            &&& self.has_lease(m) || self.has_failed_attempts(m) || self.is_succeeded(m)
                || self.is_dead(m)
        } else {
            !self.knows(m)
        }
    }

    /// The invariant of the tables: a message is once in a message table,
    /// succeeds once and dies once, and the rows of every message are
    /// consistent.
    pub open spec fn wf(self) -> bool {
        &&& distinct_keys(self.messages_unattempted)
        &&& distinct_keys(self.messages_attempted)
        &&& distinct_keys(self.attempts_succeeded)
        &&& distinct_keys(self.attempts_dead)
        &&& forall|m: u128| #[trigger] self.consistent(m)
    }

    /// Whether `m` is attempted and has neither succeeded nor died: the
    /// messages for which a worker may still report or renew.
    pub open spec fn in_flight(self, m: u128) -> bool {
        self.is_attempted(m) && !self.is_succeeded(m) && !self.is_dead(m)
    }
}

/// A lease that has not run out is a lease.
pub proof fn lemma_active_lease_is_lease(s: QueueState, m: u128, now: Timestamp)
    ensures
        s.has_active_lease(m, now) ==> s.has_lease(m),
{
    if s.has_active_lease(m, now) {
        let i = choose|i: int|
            0 <= i < s.leases.len() && (#[trigger] s.leases[i]).message_id == m
                && s.leases[i].expires_at.micros > now.micros;
        assert(s.leases[i].message_key() == m);
    }
}

/// Every message that the tables know is in exactly one of the two message
/// tables.
pub proof fn lemma_in_exactly_one_message_table(s: QueueState, m: u128)
    requires
        s.wf(),
        s.knows(m),
    ensures
        s.is_unattempted(m) != s.is_attempted(m),
{
    assert(s.consistent(m));
}

/// The lifecycle state of a known message, read off its rows: unattempted
/// is pending; a success is succeeded; a death is dead; in flight, an active
/// lease is in progress, only lapsed leases are missing, and no lease is
/// failed.
pub proof fn lemma_state_by_rows(s: QueueState, m: u128, now: Timestamp)
    requires
        s.wf(),
        s.knows(m),
    ensures
        s.is_unattempted(m) ==> s.raw_state(m, now).matches(State::Pending),
        s.is_succeeded(m) ==> s.raw_state(m, now).matches(State::Succeeded),
        s.is_dead(m) ==> s.raw_state(m, now).matches(State::Dead),
        s.in_flight(m) && s.has_active_lease(m, now) ==> s.raw_state(m, now).matches(
            State::InProgress,
        ),
        s.in_flight(m) && s.has_lease(m) && !s.has_active_lease(m, now) ==> s.raw_state(
            m,
            now,
        ).matches(State::Missing),
        s.in_flight(m) && !s.has_lease(m) ==> s.raw_state(m, now).matches(State::Failed),
{
    assert(s.consistent(m));
    lemma_active_lease_is_lease(s, m, now);
}

/// At every instant the eight facts about a known message fit one row of the
/// state table.
pub proof fn lemma_state_defined(s: QueueState, m: u128, now: Timestamp)
    requires
        s.wf(),
        s.knows(m),
    ensures
        s.raw_state(m, now).is_defined(),
{
    assert(s.consistent(m));
    lemma_state_by_rows(s, m, now);
    let raw = s.raw_state(m, now);
    if raw.is_pending {
        assert(raw.matches(State::Pending));
    } else if raw.is_succeeded {
        assert(raw.matches(State::Succeeded));
    } else if raw.is_dead {
        assert(raw.matches(State::Dead));
    } else if raw.has_active_lease {
        assert(raw.matches(State::InProgress));
    } else if raw.has_any_lease {
        assert(raw.matches(State::Missing));
    } else {
        assert(raw.matches(State::Failed));
    }
}

/// An unattempted message has no lease, no failed attempt, no success and no
/// death.
pub proof fn lemma_unattempted_has_nothing_else(s: QueueState, m: u128)
    requires
        s.wf(),
        s.is_unattempted(m),
    ensures
        !s.has_lease(m),
        !s.has_failed_attempts(m),
        !s.is_succeeded(m),
        !s.is_dead(m),
{
    assert(s.consistent(m));
}

/// A message that succeeded or died has no lease and no failed attempt, and
/// did not do both.
pub proof fn lemma_terminal_has_no_lease_no_failure(s: QueueState, m: u128)
    requires
        s.wf(),
        s.is_succeeded(m) || s.is_dead(m),
    ensures
        !s.has_lease(m),
        !s.has_failed_attempts(m),
        !(s.is_succeeded(m) && s.is_dead(m)),
{
    assert(s.consistent(m));
}

/// A lease belongs to an attempted message.
pub proof fn lemma_lease_implies_attempted(s: QueueState, m: u128)
    requires
        s.wf(),
        s.has_lease(m),
    ensures
        s.is_attempted(m),
{
    assert(s.consistent(m));
}

/// The tables themselves.
#[derive(Debug)]
pub struct Tables {
    pub messages_unattempted: Vec<MessageRow>,
    pub messages_attempted: Vec<MessageRow>,
    pub leases: Vec<Lease>,
    pub attempts_failed: Vec<FailedAttempt>,
    pub attempts_succeeded: Vec<SucceededAttempt>,
    pub attempts_dead: Vec<DeadAttempt>,
    pub errors: Vec<ErrorRow>,
}

impl View for Tables {
    type V = QueueState;

    open spec fn view(&self) -> QueueState {
        QueueState {
            messages_unattempted: message_records(self.messages_unattempted@),
            messages_attempted: message_records(self.messages_attempted@),
            leases: self.leases@,
            attempts_failed: self.attempts_failed@,
            attempts_succeeded: self.attempts_succeeded@,
            attempts_dead: self.attempts_dead@,
            errors: error_records(self.errors@),
        }
    }
}

impl Tables {
    /// Tables without a row.
    pub fn new() -> (tables: Tables)
        ensures
            tables@ == QueueState::empty(),
            tables@.wf(),
    {
        let tables = Tables {
            messages_unattempted: Vec::new(),
            messages_attempted: Vec::new(),
            leases: Vec::new(),
            attempts_failed: Vec::new(),
            attempts_succeeded: Vec::new(),
            attempts_dead: Vec::new(),
            errors: Vec::new(),
        };
        proof {
            assert(tables@.messages_unattempted =~= Seq::empty());
            assert(tables@.messages_attempted =~= Seq::empty());
            assert(tables@.errors =~= Seq::empty());
        }
        tables
    }
}

/// Whether some row of `rows` belongs to message `m`.
pub fn any_row_of<T: KeyedRow>(rows: &Vec<T>, m: u128) -> (found: bool)
    ensures
        found == mentions(rows@, m),
{
    let mut i: usize = 0;
    while i < rows.len()
        invariant
            i <= rows.len(),
            forall|j: int| 0 <= j < i ==> (#[trigger] rows@[j]).message_key() != m,
        decreases rows.len() - i,
    {
        if rows[i].message_id() == m {
            return true;
        }
        i = i + 1;
    }
    false
}

/// Deletes the rows of message `m`.
pub fn delete_rows_of<T: KeyedRow + Copy>(rows: &mut Vec<T>, m: u128)
    ensures
        final(rows)@ == without(old(rows)@, m),
{
    let mut kept: Vec<T> = Vec::new();
    let mut i: usize = 0;
    proof {
        assert(rows@.take(0) =~= Seq::<T>::empty());
        reveal(Seq::filter);
    }
    while i < rows.len()
        invariant
            i <= rows.len(),
            rows@ == old(rows)@,
            kept@ == without(rows@.take(i as int), m),
        decreases rows.len() - i,
    {
        let row = rows[i];
        proof {
            reveal(Seq::filter);
            assert(rows@.take(i + 1).drop_last() =~= rows@.take(i as int));
        }
        if row.message_id() != m {
            kept.push(row);
        }
        i = i + 1;
    }
    proof {
        assert(rows@.take(rows@.len() as int) =~= rows@);
    }
    *rows = kept;
}

/// Whether position `at` is the first at which `rows` holds message `id`.
pub open spec fn first_position_of(rows: Seq<MessageRecord>, id: u128, at: int) -> bool {
    &&& 0 <= at < rows.len()
    &&& rows[at].id == id
    &&& forall|j: int| 0 <= j < at ==> (#[trigger] rows[j]).id != id
}

/// The first position of message `id` in a message table, if it is there.
pub fn find_message(rows: &Vec<MessageRow>, id: u128) -> (found: Option<usize>)
    ensures
        match found {
            Some(i) => first_position_of(message_records(rows@), id, i as int),
            None => !mentions(message_records(rows@), id),
        },
        found is Some <==> mentions(message_records(rows@), id),
{
    let mut i: usize = 0;
    while i < rows.len()
        invariant
            i <= rows.len(),
            forall|j: int| 0 <= j < i ==> (#[trigger] message_records(rows@)[j]).message_key() != id,
        decreases rows.len() - i,
    {
        if rows[i].id == id {
            assert(message_records(rows@)[i as int].message_key() == id);
            return Some(i);
        }
        i = i + 1;
    }
    None
}

impl Tables {
    /// Whether message `m` waits for its first dispatch.
    pub fn is_unattempted(&self, m: u128) -> (found: bool)
        ensures
            found == self@.is_unattempted(m),
    {
        find_message(&self.messages_unattempted, m).is_some()
    }

    /// Whether message `m` was dispatched at least once.
    pub fn is_attempted(&self, m: u128) -> (found: bool)
        ensures
            found == self@.is_attempted(m),
    {
        find_message(&self.messages_attempted, m).is_some()
    }

    /// Whether message `m` has a lease, active or not.
    pub fn has_lease(&self, m: u128) -> (found: bool)
        ensures
            found == self@.has_lease(m),
    {
        any_row_of(&self.leases, m)
    }

    /// Whether some lease of message `m` has not run out at `now`.
    pub fn has_active_lease(&self, m: u128, now: Timestamp) -> (found: bool)
        ensures
            found == self@.has_active_lease(m, now),
    {
        let mut i: usize = 0;
        while i < self.leases.len()
            invariant
                i <= self.leases.len(),
                forall|j: int|
                    0 <= j < i ==> !((#[trigger] self.leases@[j]).message_id == m
                        && self.leases@[j].expires_at.micros > now.micros),
            decreases self.leases.len() - i,
        {
            if self.leases[i].message_id == m && self.leases[i].expires_at.micros > now.micros {
                assert(self@.leases[i as int].message_id == m);
                return true;
            }
            i = i + 1;
        }
        false
    }

    /// Whether a failure of message `m` is recorded.
    pub fn has_failed_attempts(&self, m: u128) -> (found: bool)
        ensures
            found == self@.has_failed_attempts(m),
    {
        any_row_of(&self.attempts_failed, m)
    }

    /// Whether the error log has an entry for message `m`.
    pub fn has_errors(&self, m: u128) -> (found: bool)
        ensures
            found == self@.has_errors(m),
    {
        let mut i: usize = 0;
        while i < self.errors.len()
            invariant
                i <= self.errors.len(),
                forall|j: int|
                    0 <= j < i ==> (#[trigger] error_records(self.errors@)[j]).message_key() != m,
            decreases self.errors.len() - i,
        {
            if self.errors[i].message_id == m {
                assert(error_records(self.errors@)[i as int].message_key() == m);
                return true;
            }
            i = i + 1;
        }
        false
    }

    /// Whether the success of message `m` is recorded.
    pub fn is_succeeded(&self, m: u128) -> (found: bool)
        ensures
            found == self@.is_succeeded(m),
    {
        any_row_of(&self.attempts_succeeded, m)
    }

    /// Whether the death of message `m` is recorded.
    pub fn is_dead(&self, m: u128) -> (found: bool)
        ensures
            found == self@.is_dead(m),
    {
        any_row_of(&self.attempts_dead, m)
    }
}

/// Whether `ids` holds `id`.
pub fn contains_id(ids: &Vec<u128>, id: u128) -> (found: bool)
    ensures
        found == ids@.contains(id),
{
    let mut i: usize = 0;
    while i < ids.len()
        invariant
            i <= ids.len(),
            forall|j: int| 0 <= j < i ==> ids@[j] != id,
        decreases ids.len() - i,
    {
        if ids[i] == id {
            return true;
        }
        i = i + 1;
    }
    false
}

} // verus!
