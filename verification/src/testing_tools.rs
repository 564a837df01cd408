//! Introspection of a message's lifecycle: the eight facts that the tables
//! hold about one message, and the lifecycle state they stand for.

use crate::models::{new_row_id, spec_message_hash, Message, RawMessage};
use crate::queries::tables::Tables;
use crate::time::Timestamp;
use vstd::prelude::*;
use vstd::string::*;

verus! {

/// Where a message stands in its lifecycle.
#[derive(Debug, Clone, Copy, PartialEq, Eq, Structural)]
pub enum State {
    /// Published, never dispatched.
    Pending,
    /// Dispatched, under a lease that has not run out.
    InProgress,
    /// Dispatched, under a lease that has run out with no report.
    Missing,
    /// Reported as failed, waiting for its retry, under no lease.
    Failed,
    /// Reported as done.
    Succeeded,
    /// Given up after its last failure.
    Dead,
}

/// What the tables hold about one message at one instant.
#[derive(Debug, Clone, Copy, PartialEq, Eq, Structural)]
pub struct RawState {
    pub is_pending: bool,
    pub is_attempted: bool,
    pub has_any_lease: bool,
    pub has_active_lease: bool,
    pub has_failed_attempts: bool,
    pub has_errors: bool,
    pub is_succeeded: bool,
    pub is_dead: bool,
}

impl RawState {
    /// The row of the state table for `state`: whether these eight facts are
    /// a way for a message to be in that state.
    pub open spec fn matches(&self, state: State) -> bool {
        match state {
            State::Pending => {
                &&& self.is_pending
                &&& !self.is_attempted
                &&& !self.has_any_lease
                &&& !self.has_active_lease
                &&& !self.has_failed_attempts
                &&& !self.has_errors
                &&& !self.is_succeeded
                &&& !self.is_dead
            },
            State::InProgress => {
                &&& !self.is_pending
                &&& self.is_attempted
                &&& self.has_any_lease
                &&& self.has_active_lease
                &&& !self.is_succeeded
                &&& !self.is_dead
            },
            State::Missing => {
                &&& !self.is_pending
                &&& self.is_attempted
                &&& self.has_any_lease
                &&& !self.has_active_lease
                &&& !self.is_succeeded
                &&& !self.is_dead
            },
            State::Failed => {
                &&& !self.is_pending
                &&& self.is_attempted
                &&& !self.has_any_lease
                &&& !self.has_active_lease
                &&& self.has_failed_attempts
                &&& self.has_errors
                &&& !self.is_succeeded
                &&& !self.is_dead
            },
            State::Succeeded => {
                &&& !self.is_pending
                &&& self.is_attempted
                &&& !self.has_any_lease
                &&& !self.has_active_lease
                &&& !self.has_failed_attempts
                &&& self.is_succeeded
                &&& !self.is_dead
            },
            State::Dead => {
                &&& !self.is_pending
                &&& self.is_attempted
                &&& !self.has_any_lease
                &&& !self.has_active_lease
                &&& !self.has_failed_attempts
                &&& self.has_errors
                &&& !self.is_succeeded
                &&& self.is_dead
            },
        }
    }

    /// Whether some row of the state table matches; any other combination
    /// means that the tables are broken.
    pub open spec fn is_defined(&self) -> bool {
        exists|state: State| self.matches(state)
    }

    /// The state whose row matches, if one does.
    pub fn state(&self) -> (found: Option<State>)
        ensures
            match found {
                Some(state) => self.matches(state),
                None => !self.is_defined(),
            },
    {
        if self.is_pending {
            if !self.is_attempted && !self.has_any_lease && !self.has_active_lease
                && !self.has_failed_attempts && !self.has_errors && !self.is_succeeded
                && !self.is_dead {
                Some(State::Pending)
            } else {
                None
            }
        } else if !self.is_attempted {
            None
        } else if self.has_any_lease {
            if self.is_succeeded || self.is_dead {
                None
            } else if self.has_active_lease {
                Some(State::InProgress)
            } else {
                Some(State::Missing)
            }
        } else if self.has_active_lease {
            None
        } else if self.is_succeeded {
            if !self.has_failed_attempts && !self.is_dead {
                Some(State::Succeeded)
            } else {
                None
            }
        } else if self.is_dead {
            if !self.has_failed_attempts && self.has_errors {
                Some(State::Dead)
            } else {
                None
            }
        } else if self.has_failed_attempts && self.has_errors {
            Some(State::Failed)
        } else {
            None
        }
    }

    /// The state of a message whose facts fit the state table.
    pub fn get_state(&self) -> (state: State)
        requires
            self.is_defined(),
        ensures
            self.matches(state),
    {
        match self.state() {
            Some(state) => state,
            None => State::Pending,
        }
    }
}

/// No eight facts fit two rows of the state table: a message is in at most
/// one lifecycle state.
pub proof fn lemma_state_rows_exclusive(raw: RawState, a: State, b: State)
    requires
        raw.matches(a),
        raw.matches(b),
    ensures
        a == b,
{
}

/// Reads the eight facts about message `message_id` at `now` off the tables.
pub fn get_raw_state(tables: &Tables, message_id: u128, now: Timestamp) -> (raw: RawState)
    ensures
        raw == tables@.raw_state(message_id, now),
{
    RawState {
        is_pending: tables.is_unattempted(message_id),
        is_attempted: tables.is_attempted(message_id),
        has_any_lease: tables.has_lease(message_id),
        has_active_lease: tables.has_active_lease(message_id, now),
        has_failed_attempts: tables.has_failed_attempts(message_id),
        has_errors: tables.has_errors(message_id),
        is_succeeded: tables.is_succeeded(message_id),
        is_dead: tables.is_dead(message_id),
    }
}

/// Whether message `message_id` is in `state` at `now`.
pub fn is_of_state(tables: &Tables, state: State, message_id: u128, now: Timestamp) -> (is: bool)
    requires
        tables@.raw_state(message_id, now).is_defined(),
    ensures
        is == tables@.raw_state(message_id, now).matches(state),
{
    let raw = get_raw_state(tables, message_id, now);
    let found = raw.get_state();
    proof {
        if raw.matches(state) {
            lemma_state_rows_exclusive(raw, state, found);
        }
    }
    state == found
}

/// Whether message `message_id` is published and was never dispatched.
pub fn is_pending(tables: &Tables, message_id: u128, now: Timestamp) -> (is: bool)
    requires
        tables@.raw_state(message_id, now).is_defined(),
    ensures
        is == tables@.raw_state(message_id, now).matches(State::Pending),
{
    is_of_state(tables, State::Pending, message_id, now)
}

/// Whether message `message_id` is held under a lease that has not run out at `now`.
pub fn is_in_progress(tables: &Tables, message_id: u128, now: Timestamp) -> (is: bool)
    requires
        tables@.raw_state(message_id, now).is_defined(),
    ensures
        is == tables@.raw_state(message_id, now).matches(State::InProgress),
{
    is_of_state(tables, State::InProgress, message_id, now)
}

/// Whether message `message_id` is held under leases that have all run out at `now`.
pub fn is_missing(tables: &Tables, message_id: u128, now: Timestamp) -> (is: bool)
    requires
        tables@.raw_state(message_id, now).is_defined(),
    ensures
        is == tables@.raw_state(message_id, now).matches(State::Missing),
{
    is_of_state(tables, State::Missing, message_id, now)
}

/// Whether message `message_id` failed and waits for its retry.
pub fn is_failed(tables: &Tables, message_id: u128, now: Timestamp) -> (is: bool)
    requires
        tables@.raw_state(message_id, now).is_defined(),
    ensures
        is == tables@.raw_state(message_id, now).matches(State::Failed),
{
    is_of_state(tables, State::Failed, message_id, now)
}

/// Whether message `message_id` was reported as done.
pub fn is_succeeded(tables: &Tables, message_id: u128, now: Timestamp) -> (is: bool)
    requires
        tables@.raw_state(message_id, now).is_defined(),
    ensures
        is == tables@.raw_state(message_id, now).matches(State::Succeeded),
{
    is_of_state(tables, State::Succeeded, message_id, now)
}

/// Whether message `message_id` was given up.
pub fn is_dead(tables: &Tables, message_id: u128, now: Timestamp) -> (is: bool)
    requires
        tables@.raw_state(message_id, now).is_defined(),
    ensures
        is == tables@.raw_state(message_id, now).matches(State::Dead),
{
    is_of_state(tables, State::Dead, message_id, now)
}

/// Whether some lease of message `message_id` has not run out at `now`.
pub fn has_active_lease(tables: &Tables, message_id: u128, now: Timestamp) -> (has: bool)
    ensures
        has == tables@.has_active_lease(message_id, now),
{
    tables.has_active_lease(message_id, now)
}

/// A small message type to exercise the queue with.
#[derive(Debug)]
pub struct TestMessage {
    pub message: String,
    pub value: i32,
}

impl TestMessage {
    /// A test message with the given text and number.
    pub fn new(message: String, value: i32) -> (made: Self)
        ensures
            made.message@ == message@,
            made.value == value,
    {
        Self { message, value }
    }

    /// This message ready for publication: under a fresh identifier, with the
    /// name and hash of its type, `payload` as its JSON text, and no attempt
    /// yet.
    pub fn to_raw(&self, payload: String) -> (raw: RawMessage)
        ensures
            raw.name@ == TestMessage::NAME@,
            raw.hash == spec_message_hash(TestMessage::NAME@),
            raw.payload@ == payload@,
            raw.attempted == 0,
    {
        RawMessage {
            id: new_row_id(),
            name: String::from_str(TestMessage::NAME),
            hash: TestMessage::hash(),
            payload,
            attempted: 0,
        }
    }
}

impl Message for TestMessage {
    const NAME: &'static str = "TestMessage";
}

impl Default for TestMessage {
    fn default() -> (made: Self)
        ensures
            made.message@ == "whats the meaning of life, the universe and everything?"@,
            made.value == 42,
    {
        TestMessage {
            message: String::from_str("whats the meaning of life, the universe and everything?"),
            value: 42,
        }
    }
}

} // verus!
