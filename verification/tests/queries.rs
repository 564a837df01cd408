use fx_event_bus::backoff::ConstantBackoff;
use fx_event_bus::models::{Message, RawMessage};
use fx_event_bus::queries::{
    get_next_missing, get_next_missing_skip_locked, get_next_retryable,
    get_next_retryable_skip_locked, get_next_unattempted, get_next_unattempted_skip_locked,
    publish_message,
    publish_message_at, report_dead, report_dead_with_id, report_retryable,
    report_retryable_with_ids, report_success, request_lease, set_schema_statement,
    DatabaseError, Lease, Queries, Tables,
};
use fx_event_bus::testing_tools::{
    get_raw_state, has_active_lease, is_dead, is_failed, is_in_progress, is_missing, is_pending,
    is_succeeded, State, TestMessage,
};
use fx_event_bus::time::{Duration, Timestamp};
use serde_json::Value;
use uuid::Uuid;

fn utc_now() -> Timestamp {
    Timestamp::from_micros(chrono::Utc::now().timestamp_micros())
}

fn json_object(message: &str, value: i32) -> Value {
    let mut object = serde_json::Map::new();
    object.insert("message".to_string(), Value::from(message));
    object.insert("value".to_string(), Value::from(value));
    Value::Object(object)
}

fn to_raw(message: &TestMessage) -> RawMessage {
    message.to_raw(json_object(&message.message, message.value).to_string())
}

fn message_with_id(id: u128) -> RawMessage {
    RawMessage {
        id,
        name: "Job".to_string(),
        hash: 11,
        payload: format!("{{\"job\":{}}}", id),
        attempted: 5,
    }
}

fn at(micros: i64) -> Timestamp {
    Timestamp::from_micros(micros)
}

/// Every identifier that any table mentions.
fn known_messages(tables: &Tables) -> Vec<u128> {
    let mut ids: Vec<u128> = Vec::new();
    ids.extend(tables.messages_unattempted.iter().map(|row| row.id));
    ids.extend(tables.messages_attempted.iter().map(|row| row.id));
    ids.extend(tables.leases.iter().map(|row| row.message_id));
    ids.extend(tables.attempts_failed.iter().map(|row| row.message_id));
    ids.extend(tables.attempts_succeeded.iter().map(|row| row.message_id));
    ids.extend(tables.attempts_dead.iter().map(|row| row.message_id));
    ids.extend(tables.errors.iter().map(|row| row.message_id));
    ids.sort();
    ids.dedup();
    ids
}

/// Checks the invariants of the tables on every message they mention.
fn assert_invariants(tables: &Tables, now: Timestamp) {
    for m in known_messages(tables) {
        let raw = get_raw_state(tables, m, now);
        assert!(raw.state().is_some(), "message {} has no state: {:?}", m, raw);
        assert!(raw.is_pending != raw.is_attempted);
        if raw.is_pending {
            assert!(!raw.has_any_lease && !raw.has_failed_attempts);
            assert!(!raw.is_succeeded && !raw.is_dead);
        }
        if raw.is_succeeded || raw.is_dead {
            assert!(!raw.has_any_lease && !raw.has_failed_attempts);
            assert!(raw.is_succeeded != raw.is_dead);
        }
        if raw.has_any_lease {
            assert!(raw.is_attempted);
        }
        assert_eq!(tables.messages_unattempted.iter().filter(|row| row.id == m).count()
            + tables.messages_attempted.iter().filter(|row| row.id == m).count(), 1);
    }
}

#[test]
fn it_publishes_a_message() {
    let mut pool = Tables::new();
    let message = TestMessage { message: "test".to_string(), value: 42 };
    let published = publish_message(&mut pool, &to_raw(&message)).expect("a new message");

    assert_eq!(TestMessage::NAME, published.name);
    assert_eq!(TestMessage::hash(), published.hash);
    assert_eq!(
        json_object("test", 42),
        serde_json::from_str::<Value>(&published.payload).expect("JSON")
    );

    assert!(is_pending(&pool, published.id, utc_now()));
    assert_invariants(&pool, utc_now());
}

#[test]
fn publishing_stamps_the_message_with_the_clock() {
    let mut pool = Tables::new();
    let before = utc_now();
    let published = publish_message(&mut pool, &message_with_id(1)).expect("a new message");
    let after = utc_now();
    assert_eq!(published.attempted, 0);
    assert_eq!(pool.messages_unattempted.len(), 1);
    let row = &pool.messages_unattempted[0];
    assert!(before <= row.published_at && row.published_at <= after);
    assert_eq!((row.id, row.name.as_str(), row.hash), (1, "Job", 11));
    assert_eq!(row.payload, "{\"job\":1}");
}

#[test]
fn publishing_a_known_identifier_is_refused() {
    let mut pool = Tables::new();
    publish_message_at(&mut pool, &message_with_id(1), at(10)).expect("a new message");
    let again = publish_message_at(&mut pool, &message_with_id(1), at(11));
    assert_eq!(again.err(), Some(DatabaseError::UniqueViolation));
    assert_eq!(pool.messages_unattempted.len(), 1);
    assert_eq!(pool.messages_unattempted[0].published_at, at(10));

    // also once the message was attempted
    get_next_unattempted(&mut pool, at(12), 7, Duration::from_micros(5)).expect("a message");
    let again = publish_message(&mut pool, &message_with_id(1));
    assert_eq!(again.err(), Some(DatabaseError::UniqueViolation));
    assert!(pool.messages_unattempted.is_empty());
    assert_eq!(pool.messages_attempted.len(), 1);
    assert_invariants(&pool, at(12));
}

#[test]
fn it_gets_available_unattempted_messages() {
    let mut pool = Tables::new();
    let message = TestMessage { message: "testing".to_string(), value: 42 };

    let published = publish_message(&mut pool, &to_raw(&message)).expect("a new message");

    let now = utc_now();
    let host_id = Uuid::now_v7().as_u128();
    let hold_for = Duration::from_mins(1);
    let polled = get_next_unattempted(&mut pool, now, host_id, hold_for)
        .expect("Expected a message to be returned");

    assert_eq!(published.id, polled.id);
    assert_eq!(TestMessage::NAME, polled.name);
    assert_eq!(TestMessage::hash(), polled.hash);
    assert_eq!(
        json_object("testing", 42),
        serde_json::from_str::<Value>(&published.payload).expect("JSON")
    );
    assert_eq!(polled.payload, published.payload);
    assert_eq!(polled.attempted, 0);

    assert!(is_in_progress(&pool, published.id, now));
    assert_eq!(
        pool.leases,
        vec![Lease {
            message_id: published.id,
            acquired_at: now,
            acquired_by: host_id,
            expires_at: now.plus(hold_for),
        }]
    );
    assert_invariants(&pool, now);
}

#[test]
fn it_returns_none_when_none_are_available() {
    let mut pool = Tables::new();
    let now = utc_now();
    let host_id = Uuid::now_v7().as_u128();
    let hold_for = Duration::from_mins(1);

    let polled = get_next_unattempted(&mut pool, now, host_id, hold_for);

    assert!(polled.is_none());
    assert!(pool.leases.is_empty());
    assert!(pool.messages_attempted.is_empty());
}

#[test]
fn it_gets_an_unattempted_message_once() {
    let mut pool = Tables::new();
    let published =
        publish_message(&mut pool, &to_raw(&TestMessage::default())).expect("a new message");

    let now = utc_now();
    let host_id = Uuid::now_v7().as_u128();
    let hold_for = Duration::from_mins(1);
    let polled = get_next_unattempted(&mut pool, now, host_id, hold_for)
        .expect("Expected a message to be returned");

    assert!(published.id == polled.id);

    let polled = get_next_unattempted(&mut pool, now, host_id, hold_for);

    assert!(polled.is_none());
}

#[test]
fn get_next_unattempted_it_skips_locked_messages() {
    let mut pool = Tables::new();
    let message_1 =
        publish_message(&mut pool, &to_raw(&TestMessage::default())).expect("a new message");
    let message_2 =
        publish_message(&mut pool, &to_raw(&TestMessage::default())).expect("a new message");

    let now = utc_now();
    let host_id = Uuid::now_v7().as_u128();
    let hold_for = Duration::from_mins(1);

    let polled_1 = get_next_unattempted(&mut pool, now, host_id, hold_for)
        .expect("Expected a message to be returned");
    let polled_2 = get_next_unattempted(&mut pool, now, host_id, hold_for)
        .expect("Expected a message to be returned");

    assert_eq!(message_1.id, polled_1.id);
    assert_eq!(message_2.id, polled_2.id);
    assert!(get_next_unattempted(&mut pool, now, host_id, hold_for).is_none());
    assert_invariants(&pool, now);
}

#[test]
fn the_oldest_message_is_dispatched_first() {
    let mut pool = Tables::new();
    publish_message_at(&mut pool, &message_with_id(30), at(200)).expect("new");
    publish_message_at(&mut pool, &message_with_id(20), at(100)).expect("new");
    publish_message_at(&mut pool, &message_with_id(10), at(200)).expect("new");
    publish_message_at(&mut pool, &message_with_id(5), at(300)).expect("new");
    publish_message_at(&mut pool, &message_with_id(15), at(100)).expect("new");
    let hold_for = Duration::from_micros(1);
    let order: Vec<u128> = (0..5)
        .map(|_| get_next_unattempted(&mut pool, at(400), 1, hold_for).expect("a message").id)
        .collect();
    // by time of publication, then by identifier
    assert_eq!(order, vec![15, 20, 10, 30, 5]);
    assert!(get_next_unattempted(&mut pool, at(400), 1, hold_for).is_none());
    let attempted: Vec<u128> = pool.messages_attempted.iter().map(|row| row.id).collect();
    assert_eq!(attempted, vec![15, 20, 10, 30, 5]);
    assert_eq!(pool.messages_attempted[0].published_at, at(100));
    assert_eq!(pool.messages_attempted[0].payload, "{\"job\":15}");
    assert_invariants(&pool, at(400));
}

#[test]
fn it_gets_the_next_missing_message() {
    let mut pool = Tables::new();
    let now = utc_now();
    let host_id = Uuid::now_v7().as_u128();
    let hold_for = Duration::from_millis(1);
    let message = TestMessage::default();

    let published = publish_message(&mut pool, &to_raw(&message)).expect("a new message");

    let polled =
        get_next_unattempted(&mut pool, now, host_id, hold_for).expect("Expected a message");

    // The lease has run out two milliseconds later
    let current_time = now.plus(Duration::from_millis(2));
    assert!(is_missing(&pool, polled.id, current_time));
    assert!(polled.id == published.id);

    let polled = get_next_missing(&mut pool, current_time, host_id, hold_for)
        .expect("Expected to get a missing message");

    assert!(is_in_progress(&pool, polled.id, current_time));
    assert!(polled.id == published.id);
    assert_eq!(polled.attempted, 0);
    assert_invariants(&pool, current_time);
}

#[test]
fn a_rescue_rewrites_the_leases_in_place() {
    let mut pool = Tables::new();
    publish_message_at(&mut pool, &message_with_id(1), at(0)).expect("new");
    publish_message_at(&mut pool, &message_with_id(2), at(1)).expect("new");
    get_next_unattempted(&mut pool, at(10), 100, Duration::from_micros(5)).expect("a message");
    get_next_unattempted(&mut pool, at(10), 100, Duration::from_micros(50)).expect("a message");
    // host 100 renews its lease on message 1: a second row
    assert_eq!(request_lease(&mut pool, 1, at(12), 100, Duration::from_micros(5)), Some(at(17)));
    assert_eq!(pool.leases.len(), 3);

    // at 15 nothing has run out yet: a lease runs out after its last instant
    assert!(get_next_missing(&mut pool, at(15), 200, Duration::from_micros(9)).is_none());
    // at 16 the first lease of message 1 has
    let rescued =
        get_next_missing(&mut pool, at(16), 200, Duration::from_micros(9)).expect("a message");
    assert_eq!(rescued.id, 1);
    assert_eq!(rescued.attempted, 0);
    assert_eq!(rescued.payload, "{\"job\":1}");
    let rewritten = Lease { message_id: 1, acquired_at: at(16), acquired_by: 200, expires_at: at(25) };
    let untouched = Lease { message_id: 2, acquired_at: at(10), acquired_by: 100, expires_at: at(60) };
    assert_eq!(pool.leases, vec![rewritten, untouched, rewritten]);
    assert!(get_next_missing(&mut pool, at(16), 200, Duration::from_micros(9)).is_none());
    assert_invariants(&pool, at(16));
}

#[test]
fn the_oldest_missing_message_is_rescued_first() {
    let mut pool = Tables::new();
    publish_message_at(&mut pool, &message_with_id(3), at(5)).expect("new");
    publish_message_at(&mut pool, &message_with_id(2), at(7)).expect("new");
    publish_message_at(&mut pool, &message_with_id(1), at(7)).expect("new");
    publish_message_at(&mut pool, &message_with_id(4), at(6)).expect("new");
    for _ in 0..4 {
        get_next_unattempted(&mut pool, at(10), 100, Duration::from_micros(1)).expect("a message");
    }
    // message 3 has succeeded, message 4 is dead: neither is rescued
    report_success(&mut pool, 3, at(11)).expect("attempted");
    get_next_unattempted(&mut pool, at(11), 100, Duration::from_micros(1));
    report_dead(&mut pool, 4, at(11), "gone").expect("attempted");
    assert_eq!(request_lease(&mut pool, 3, at(11), 100, Duration::zero()), Some(at(11)));
    pool.leases.pop();
    let hold_for = Duration::from_mins(1);
    // equally old messages in the order in which they were attempted
    assert_eq!(get_next_missing(&mut pool, at(20), 9, hold_for).expect("a message").id, 1);
    assert_eq!(get_next_missing(&mut pool, at(20), 9, hold_for).expect("a message").id, 2);
    assert!(get_next_missing(&mut pool, at(20), 9, hold_for).is_none());
    assert_invariants(&pool, at(20));
}

#[test]
fn it_gets_a_retryable_message() {
    let mut pool = Tables::new();
    let now = utc_now();
    let host_id = Uuid::now_v7().as_u128();
    let hold_for = Duration::from_mins(1);
    let backoff = ConstantBackoff::new(Duration::from_mins(0));
    let message = TestMessage::default();

    let published = publish_message(&mut pool, &to_raw(&message)).expect("a new message");

    get_next_unattempted(&mut pool, now, host_id, hold_for).expect("Expected a message");

    let try_earliest_at = backoff.try_at(1, now);

    report_retryable(&mut pool, published.id, now, 1, try_earliest_at, "some error happend")
        .expect("attempted");

    let polled = get_next_retryable(&mut pool, now, host_id, hold_for)
        .expect("Expected to get a retryable message");

    assert!(polled.id == published.id);
    assert_eq!(polled.attempted, 1);
    assert_eq!(polled.payload, published.payload);
    assert!(is_in_progress(&pool, polled.id, now));
    assert_invariants(&pool, now);
}

#[test]
fn it_skips_messages_with_active_leases() {
    let mut pool = Tables::new();
    let now = utc_now();
    let host_id = Uuid::now_v7().as_u128();
    let hold_for = Duration::from_mins(1);
    let backoff = ConstantBackoff::new(Duration::from_mins(0));
    let message = TestMessage::default();

    let published = publish_message(&mut pool, &to_raw(&message)).expect("a new message");

    get_next_unattempted(&mut pool, now, host_id, hold_for).expect("Expected a message");

    let try_earliest_at = backoff.try_at(1, now);

    report_retryable(&mut pool, published.id, now, 1, try_earliest_at, "some error happend")
        .expect("attempted");

    get_next_retryable(&mut pool, now, host_id, hold_for)
        .expect("Expected to get a retryable message");

    let polled = get_next_retryable(&mut pool, now, host_id, hold_for);

    assert!(polled.is_none());
}

#[test]
fn it_returns_none_when_there_is_nothing_to_retry() {
    let mut pool = Tables::new();
    let now = utc_now();
    let host_id = Uuid::now_v7().as_u128();
    let hold_for = Duration::from_mins(1);
    let message = TestMessage::default();

    publish_message(&mut pool, &to_raw(&message)).expect("a new message");

    let polled = get_next_retryable(&mut pool, now, host_id, hold_for);

    assert!(polled.is_none());
    assert!(pool.leases.is_empty());
}

#[test]
fn a_retry_waits_for_its_instant() {
    let mut pool = Tables::new();
    publish_message_at(&mut pool, &message_with_id(1), at(0)).expect("new");
    get_next_unattempted(&mut pool, at(1), 100, Duration::from_micros(10)).expect("a message");
    report_retryable_with_ids(&mut pool, 71, 72, 1, at(2), 1, at(50), "slow").expect("attempted");
    assert!(is_failed(&pool, 1, at(2)));
    assert!(get_next_retryable(&mut pool, at(49), 100, Duration::from_micros(10)).is_none());
    assert!(pool.leases.is_empty());
    let polled = get_next_retryable(&mut pool, at(50), 100, Duration::from_micros(10));
    assert_eq!(polled.expect("a message").id, 1);
    assert_eq!(
        pool.leases,
        vec![Lease { message_id: 1, acquired_at: at(50), acquired_by: 100, expires_at: at(60) }]
    );
}

#[test]
fn the_latest_failure_of_a_message_is_retried() {
    let mut pool = Tables::new();
    publish_message_at(&mut pool, &message_with_id(1), at(0)).expect("new");
    get_next_unattempted(&mut pool, at(1), 100, Duration::from_micros(10)).expect("a message");
    report_retryable_with_ids(&mut pool, 71, 72, 1, at(2), 1, at(2), "first").expect("attempted");
    let polled = get_next_retryable(&mut pool, at(3), 100, Duration::from_micros(10));
    assert_eq!(polled.expect("a message").attempted, 1);
    // the second failure asks for a later retry than the first
    report_retryable_with_ids(&mut pool, 73, 74, 1, at(4), 2, at(40), "second").expect("attempted");
    assert_eq!(pool.attempts_failed.len(), 2);
    assert!(get_next_retryable(&mut pool, at(39), 100, Duration::from_micros(10)).is_none());
    let polled = get_next_retryable(&mut pool, at(40), 100, Duration::from_micros(10));
    assert_eq!(polled.expect("a message").attempted, 2);
    assert_invariants(&pool, at(40));
}

#[test]
fn the_earliest_failure_is_retried_first() {
    let mut pool = Tables::new();
    for id in [1u128, 2, 3] {
        publish_message_at(&mut pool, &message_with_id(id), at(0)).expect("new");
    }
    for _ in 0..3 {
        get_next_unattempted(&mut pool, at(1), 100, Duration::from_micros(1)).expect("a message");
    }
    report_retryable_with_ids(&mut pool, 71, 72, 3, at(20), 1, at(20), "c").expect("attempted");
    report_retryable_with_ids(&mut pool, 73, 74, 2, at(10), 4, at(20), "b").expect("attempted");
    report_retryable_with_ids(&mut pool, 75, 76, 1, at(10), 6, at(20), "a").expect("attempted");
    let hold_for = Duration::from_mins(1);
    let first = get_next_retryable(&mut pool, at(30), 100, hold_for).expect("a message");
    let second = get_next_retryable(&mut pool, at(30), 100, hold_for).expect("a message");
    let third = get_next_retryable(&mut pool, at(30), 100, hold_for).expect("a message");
    // by instant of failure, then by message
    assert_eq!((first.id, first.attempted), (1, 6));
    assert_eq!((second.id, second.attempted), (2, 4));
    assert_eq!((third.id, third.attempted), (3, 1));
    assert!(get_next_retryable(&mut pool, at(30), 100, hold_for).is_none());
    assert_invariants(&pool, at(30));
}

#[test]
fn report_dead_it_deletes_leases_and_failed_attempts() {
    let mut pool = Tables::new();
    let now = utc_now();
    let host_id = Uuid::now_v7().as_u128();
    let hold_for = Duration::from_mins(1);
    let message = TestMessage::default();

    let published = publish_message(&mut pool, &to_raw(&message)).expect("a new message");

    get_next_unattempted(&mut pool, now, host_id, hold_for);

    report_dead(&mut pool, published.id, now, "some error happend").expect("attempted");

    assert!(is_dead(&pool, published.id, now));
    assert!(pool.leases.is_empty());
    assert_eq!(pool.errors.len(), 1);
    assert_eq!(pool.errors[0].error, "some error happend");
    assert_eq!(pool.errors[0].message_id, published.id);
    assert_eq!(pool.errors[0].reported_at, now);
    assert_invariants(&pool, now);
}

#[test]
fn report_dead_it_errors_if_the_message_was_not_attempted() {
    let mut pool = Tables::new();
    let now = utc_now();
    let message = TestMessage::default();

    let published = publish_message(&mut pool, &to_raw(&message)).expect("a new message");

    let result = report_dead(&mut pool, published.id, now, "some error happend");

    assert!(result.is_err());
    assert_eq!(result.err(), Some(DatabaseError::ForeignKeyViolation));
    assert!(pool.attempts_dead.is_empty() && pool.errors.is_empty());
    assert!(is_pending(&pool, published.id, now));
}

#[test]
fn a_death_clears_the_failures_of_its_message_only() {
    let mut pool = Tables::new();
    publish_message_at(&mut pool, &message_with_id(1), at(0)).expect("new");
    publish_message_at(&mut pool, &message_with_id(2), at(0)).expect("new");
    get_next_unattempted(&mut pool, at(1), 100, Duration::from_micros(1)).expect("a message");
    get_next_unattempted(&mut pool, at(1), 100, Duration::from_micros(1)).expect("a message");
    report_retryable_with_ids(&mut pool, 71, 72, 1, at(2), 1, at(2), "a").expect("attempted");
    report_retryable_with_ids(&mut pool, 73, 74, 2, at(2), 1, at(2), "b").expect("attempted");
    get_next_retryable(&mut pool, at(3), 100, Duration::from_mins(1)).expect("a message");
    report_dead_with_id(&mut pool, 75, 1, at(4), "over").expect("attempted");
    assert!(is_dead(&pool, 1, at(4)));
    assert!(is_failed(&pool, 2, at(4)));
    assert_eq!(pool.attempts_failed.len(), 1);
    assert_eq!(pool.attempts_failed[0].message_id, 2);
    assert!(pool.leases.is_empty());
    assert_eq!(pool.attempts_dead.len(), 1);
    assert_eq!((pool.attempts_dead[0].message_id, pool.attempts_dead[0].dead_at), (1, at(4)));
    let logged: Vec<(u128, u128, &str)> =
        pool.errors.iter().map(|e| (e.id, e.message_id, e.error.as_str())).collect();
    assert_eq!(logged, vec![(72, 1, "a"), (74, 2, "b"), (75, 1, "over")]);
    assert_invariants(&pool, at(4));
}

#[test]
fn report_retryable_it_deletes_leases_and_failed_attempts() {
    let mut pool = Tables::new();
    let now = utc_now();
    let host_id = Uuid::now_v7().as_u128();
    let hold_for = Duration::from_mins(1);
    let message = TestMessage::default();
    let backoff = ConstantBackoff::new(Duration::from_mins(5));

    let published = publish_message(&mut pool, &to_raw(&message)).expect("a new message");

    get_next_unattempted(&mut pool, now, host_id, hold_for);

    let try_earliest_at = backoff.try_at(1, now);

    report_retryable(&mut pool, published.id, now, 1, try_earliest_at, "some error happend")
        .expect("attempted");

    assert!(is_failed(&pool, published.id, now));
    assert!(pool.leases.is_empty());
    assert_eq!(pool.attempts_failed.len(), 1);
    let failure = pool.attempts_failed[0];
    assert_eq!(failure.message_id, published.id);
    assert_eq!(failure.failed_at, now);
    assert_eq!(failure.attempted, 1);
    assert_eq!(failure.retry_earliest_at, now.plus(Duration::from_mins(5)));
    assert_eq!(pool.errors.len(), 1);
    assert_eq!(pool.errors[0].error, "some error happend");
    assert_eq!(pool.errors[0].reported_at, now);
    assert_ne!(pool.errors[0].id, failure.id);
    assert_invariants(&pool, now);
}

#[test]
fn report_retryable_it_errors_if_the_message_was_not_attempted() {
    let mut pool = Tables::new();
    let now = utc_now();
    let message = TestMessage::default();
    let backoff = ConstantBackoff::new(Duration::from_mins(5));

    let published = publish_message(&mut pool, &to_raw(&message)).expect("a new message");

    let try_earliest_at = backoff.try_at(1, now);

    let result =
        report_retryable(&mut pool, published.id, now, 1, try_earliest_at, "some error happend");

    assert!(result.is_err());
    assert_eq!(result.err(), Some(DatabaseError::ForeignKeyViolation));
    assert!(pool.attempts_failed.is_empty() && pool.errors.is_empty());
}

#[test]
fn it_deletes_associated_leases() {
    let mut pool = Tables::new();
    let now = utc_now();
    let host_id = Uuid::now_v7().as_u128();
    let hold_for = Duration::from_mins(1);
    let message = TestMessage::default();

    let published = publish_message(&mut pool, &to_raw(&message)).expect("a new message");

    let polled =
        get_next_unattempted(&mut pool, now, host_id, hold_for).expect("Expected a message");

    assert!(published.id == polled.id);

    report_success(&mut pool, polled.id, now).expect("attempted");

    assert!(is_succeeded(&pool, published.id, now));
    assert!(pool.leases.is_empty());
    assert_invariants(&pool, now);
}

#[test]
fn report_success_it_errors_if_the_message_was_not_attempted() {
    let mut pool = Tables::new();
    let now = utc_now();
    let message = TestMessage::default();

    let published = publish_message(&mut pool, &to_raw(&message)).expect("a new message");

    let result = report_success(&mut pool, published.id, now);

    assert!(result.is_err());
    assert_eq!(result.err(), Some(DatabaseError::ForeignKeyViolation));
    assert!(pool.attempts_succeeded.is_empty());
    assert_eq!(
        report_success(&mut pool, 12345, now).err(),
        Some(DatabaseError::ForeignKeyViolation)
    );
}

#[test]
fn it_deletes_failed_attempts() {
    let mut pool = Tables::new();
    let now = utc_now();
    let host_id = Uuid::now_v7().as_u128();
    let hold_for = Duration::from_mins(1);
    let backoff = ConstantBackoff::new(Duration::from_mins(0)); // zero backoff
    let message = TestMessage::default();

    let published = publish_message(&mut pool, &to_raw(&message)).expect("a new message");

    get_next_unattempted(&mut pool, now, host_id, hold_for).expect("Expected a message");

    let try_earliest_at = backoff.try_at(1, now);

    report_retryable(&mut pool, published.id, now, 1, try_earliest_at, "error")
        .expect("attempted");

    get_next_retryable(&mut pool, now, host_id, hold_for).expect("Expected a message");

    report_success(&mut pool, published.id, now).expect("attempted");

    assert!(is_succeeded(&pool, published.id, now));
    assert!(pool.attempts_failed.is_empty());
    assert!(pool.leases.is_empty());
    assert_eq!(pool.attempts_succeeded.len(), 1);
    assert_eq!(pool.attempts_succeeded[0].succeeded_at, now);
    assert_eq!(pool.errors.len(), 1);
    assert_invariants(&pool, now);
}

#[test]
fn the_retry_cycle_succeeds_whatever_is_rescued_meanwhile() {
    let mut pool = Tables::new();
    let hold_for = Duration::from_micros(10);
    publish_message_at(&mut pool, &message_with_id(1), at(0)).expect("new");
    get_next_unattempted(&mut pool, at(1), 100, hold_for).expect("a message");
    report_retryable_with_ids(&mut pool, 71, 72, 1, at(2), 1, at(30), "again").expect("attempted");
    // a failed message has no lease to rescue
    assert!(get_next_missing(&mut pool, at(29), 200, hold_for).is_none());
    assert!(is_failed(&pool, 1, at(29)));
    let polled = get_next_retryable(&mut pool, at(30), 100, hold_for).expect("a message");
    assert_eq!((polled.id, polled.attempted), (1, 1));
    // the worker is slow, and another host takes the message over
    let rescued = get_next_missing(&mut pool, at(41), 200, hold_for).expect("a message");
    assert_eq!(rescued.id, 1);
    assert!(is_in_progress(&pool, 1, at(41)));
    report_success(&mut pool, 1, at(42)).expect("attempted");
    assert!(is_succeeded(&pool, 1, at(42)));
    assert!(pool.leases.is_empty());
    assert_invariants(&pool, at(42));
}

#[test]
fn a_message_goes_missing_when_its_lease_has_run_out() {
    let mut pool = Tables::new();
    publish_message_at(&mut pool, &message_with_id(1), at(0)).expect("new");
    get_next_unattempted(&mut pool, at(10), 100, Duration::from_micros(5)).expect("a message");
    assert_eq!(get_raw_state(&pool, 1, at(14)).get_state(), State::InProgress);
    assert!(has_active_lease(&pool, 1, at(14)));
    // at its last instant the lease is no longer active, and not yet run out
    assert_eq!(get_raw_state(&pool, 1, at(15)).get_state(), State::Missing);
    assert!(!has_active_lease(&pool, 1, at(15)));
    assert!(!pool.has_expired_lease(1, at(15)));
    assert!(get_next_missing(&mut pool, at(15), 200, Duration::from_micros(5)).is_none());
    assert_eq!(get_raw_state(&pool, 1, at(16)).get_state(), State::Missing);
    assert!(pool.has_expired_lease(1, at(16)));
    assert_eq!(get_next_missing(&mut pool, at(16), 200, Duration::from_micros(5)).map(|m| m.id), Some(1));
}

#[test]
fn it_acquires_a_lease_when_none_is_held() {
    let mut pool = Tables::new();
    let message_id = Uuid::now_v7().as_u128();
    let host_id = Uuid::now_v7().as_u128();
    let now = utc_now();
    let hold_for = Duration::from_mins(1);

    let actual = request_lease(&mut pool, message_id, now, host_id, hold_for);

    assert_eq!(Some(now.plus(hold_for)), actual);
    assert!(has_active_lease(&pool, message_id, now));
}

#[test]
fn it_acquires_a_lease_when_one_id_held_by_the_requesting_host() {
    let mut pool = Tables::new();
    let message_id = Uuid::now_v7().as_u128();
    let host_id = Uuid::now_v7().as_u128();
    let now = utc_now();
    let hold_for = Duration::from_mins(1);

    let actual = request_lease(&mut pool, message_id, now, host_id, hold_for);

    assert_eq!(Some(now.plus(hold_for)), actual);
    assert!(has_active_lease(&pool, message_id, now));

    // A later instant, so that the two leases differ
    let now = now.plus(Duration::from_micros(1));

    let actual = request_lease(&mut pool, message_id, now, host_id, hold_for);

    assert_eq!(Some(now.plus(hold_for)), actual);
    assert!(has_active_lease(&pool, message_id, now));
    assert_eq!(pool.leases.len(), 2);
}

#[test]
fn it_acquires_a_lease_when_there_is_an_expired_lease_from_another_host() {
    let mut pool = Tables::new();
    let message_id = Uuid::now_v7().as_u128();
    let host_id = Uuid::now_v7().as_u128();
    let now = utc_now();
    let hold_for = Duration::from_millis(10);

    let actual = request_lease(&mut pool, message_id, now, host_id, hold_for);

    assert_eq!(Some(now.plus(hold_for)), actual);
    assert!(has_active_lease(&pool, message_id, now));

    // the current lease has run out
    let host_id = Uuid::now_v7().as_u128();
    let now = now.plus(Duration::from_millis(10));

    let actual = request_lease(&mut pool, message_id, now, host_id, hold_for);

    assert_eq!(Some(now.plus(hold_for)), actual);
    assert!(has_active_lease(&pool, message_id, now));
}

#[test]
fn it_does_not_acquire_a_lease_when_one_is_held_by_another_host() {
    let mut pool = Tables::new();
    let message_id = Uuid::now_v7().as_u128();
    let host_id = Uuid::now_v7().as_u128();
    let now = utc_now();
    let hold_for = Duration::from_mins(1);

    let actual = request_lease(&mut pool, message_id, now, host_id, hold_for);

    assert_eq!(Some(now.plus(hold_for)), actual);
    assert!(has_active_lease(&pool, message_id, now));

    let host_id = Uuid::now_v7().as_u128();
    let now = utc_now();

    let actual = request_lease(&mut pool, message_id, now, host_id, hold_for);

    assert_eq!(None, actual);
    assert_eq!(pool.leases.len(), 1);
}

#[test]
fn a_foreign_lease_blocks_until_its_last_instant() {
    let mut pool = Tables::new();
    let minute = Duration::from_mins(1);
    assert_eq!(request_lease(&mut pool, 1, at(0), 100, minute), Some(at(60_000_000)));
    assert_eq!(request_lease(&mut pool, 1, at(0), 200, minute), None);
    assert_eq!(request_lease(&mut pool, 1, at(59_999_999), 200, minute), None);
    assert_eq!(pool.leases.len(), 1);
    // the holder itself is never blocked by its own lease
    assert_eq!(request_lease(&mut pool, 1, at(1), 100, minute), Some(at(60_000_001)));
    assert_eq!(request_lease(&mut pool, 1, at(60_000_000), 200, minute), None);
    assert_eq!(request_lease(&mut pool, 1, at(60_000_001), 200, minute), Some(at(120_000_001)));
    assert_eq!(pool.leases.len(), 3);
}

#[test]
fn leases_on_other_messages_do_not_block() {
    let mut pool = Tables::new();
    let minute = Duration::from_mins(1);
    assert_eq!(request_lease(&mut pool, 2, at(0), 100, minute), Some(at(60_000_000)));
    // host 100 holds message 2; message 1 is free for host 200
    assert_eq!(request_lease(&mut pool, 1, at(1), 200, minute), Some(at(60_000_001)));
    // and each host renews its own while the other's lease is active
    assert_eq!(request_lease(&mut pool, 2, at(2), 100, minute), Some(at(60_000_002)));
    assert_eq!(request_lease(&mut pool, 1, at(2), 200, minute), Some(at(60_000_002)));
    // but neither gets the other's message
    assert_eq!(request_lease(&mut pool, 2, at(3), 200, minute), None);
    assert_eq!(request_lease(&mut pool, 1, at(3), 100, minute), None);
    assert_eq!(pool.leases.len(), 4);
}

#[test]
fn two_workers_renew_their_own_leases() {
    let mut pool = Tables::new();
    publish_message_at(&mut pool, &message_with_id(1), at(0)).expect("new");
    publish_message_at(&mut pool, &message_with_id(2), at(1)).expect("new");
    let hold_for = Duration::from_micros(50);
    assert_eq!(get_next_unattempted(&mut pool, at(10), 100, hold_for).expect("a message").id, 1);
    assert_eq!(get_next_unattempted(&mut pool, at(10), 200, hold_for).expect("a message").id, 2);
    assert_eq!(request_lease(&mut pool, 1, at(20), 100, hold_for), Some(at(70)));
    assert_eq!(request_lease(&mut pool, 2, at(20), 200, hold_for), Some(at(70)));
    assert_eq!(request_lease(&mut pool, 1, at(20), 200, hold_for), None);
    assert!(is_in_progress(&pool, 1, at(65)));
    assert!(is_in_progress(&pool, 2, at(65)));
    assert_invariants(&pool, at(65));
}

#[test]
fn a_caller_skips_what_an_open_transaction_took() {
    let mut committed = Tables::new();
    publish_message_at(&mut committed, &message_with_id(1), at(0)).expect("new");
    publish_message_at(&mut committed, &message_with_id(2), at(1)).expect("new");
    let hold_for = Duration::from_mins(1);
    // transaction A has taken both messages and is still open
    let held_by_a = vec![1u128, 2];
    let got = get_next_unattempted_skip_locked(&mut committed, &held_by_a, at(5), 200, hold_for);
    assert!(got.is_none());
    assert_eq!(committed.messages_unattempted.len(), 2);
    assert!(committed.leases.is_empty() && committed.messages_attempted.is_empty());
    // with only the first taken, the second goes to the other caller
    let got = get_next_unattempted_skip_locked(&mut committed, &vec![1u128], at(5), 200, hold_for);
    assert_eq!(got.expect("a message").id, 2);
    assert!(is_pending(&committed, 1, at(5)));
    assert!(is_in_progress(&committed, 2, at(5)));
    // and with nothing locked the oldest goes first
    let got = get_next_unattempted_skip_locked(&mut committed, &Vec::new(), at(5), 200, hold_for);
    assert_eq!(got.expect("a message").id, 1);
    assert_invariants(&committed, at(5));
}

#[test]
fn locked_retries_and_rescues_are_skipped() {
    let mut pool = Tables::new();
    for id in [1u128, 2, 3, 4] {
        publish_message_at(&mut pool, &message_with_id(id), at(id as i64)).expect("new");
        get_next_unattempted(&mut pool, at(10), 100, Duration::from_micros(5)).expect("a message");
    }
    report_retryable_with_ids(&mut pool, 71, 72, 1, at(11), 1, at(11), "a").expect("attempted");
    report_retryable_with_ids(&mut pool, 73, 74, 2, at(12), 1, at(12), "b").expect("attempted");
    let hold_for = Duration::from_mins(1);
    // the failure of message 1 is first in line, but locked
    let got = get_next_retryable_skip_locked(&mut pool, &vec![1u128], at(20), 200, hold_for);
    assert_eq!(got.expect("a message").id, 2);
    assert!(get_next_retryable_skip_locked(&mut pool, &vec![1u128], at(20), 200, hold_for).is_none());
    assert!(is_failed(&pool, 1, at(20)));
    assert_eq!(get_next_retryable(&mut pool, at(20), 200, hold_for).expect("a message").id, 1);
    // messages 3 and 4 went missing; 3 is older, but locked
    let got = get_next_missing_skip_locked(&mut pool, &vec![3u128], at(20), 200, hold_for);
    assert_eq!(got.expect("a message").id, 4);
    assert!(get_next_missing_skip_locked(&mut pool, &vec![3u128, 9], at(20), 200, hold_for).is_none());
    assert!(is_missing(&pool, 3, at(20)));
    assert_eq!(get_next_missing(&mut pool, at(20), 200, hold_for).expect("a message").id, 3);
    assert_invariants(&pool, at(20));
}

#[test]
fn many_callers_get_one_message_each() {
    let mut pool = Tables::new();
    for id in [7u128, 3, 9, 5] {
        publish_message_at(&mut pool, &message_with_id(id), at(100 - id as i64)).expect("new");
    }
    let mut given: Vec<u128> = Vec::new();
    let mut empty_handed = 0;
    for caller in 0..7u128 {
        match get_next_unattempted(&mut pool, at(200 + caller as i64), caller, Duration::from_mins(1)) {
            Some(message) => given.push(message.id),
            None => empty_handed += 1,
        }
    }
    // the first four callers, oldest message first; the other three nothing
    assert_eq!(given, vec![9, 7, 5, 3]);
    assert_eq!(empty_handed, 3);
    assert!(pool.messages_unattempted.is_empty());
    assert_invariants(&pool, at(300));
}

#[test]
fn the_single_happy_path() {
    let mut pool = Tables::new();
    let message = TestMessage { message: "test".to_string(), value: 42 };
    let published = publish_message(&mut pool, &to_raw(&message)).expect("a new message");
    assert_eq!(published.name, "TestMessage");
    assert_eq!(published.payload, "{\"message\":\"test\",\"value\":42}");
    let now = utc_now();
    let host_id = Uuid::now_v7().as_u128();
    let polled =
        get_next_unattempted(&mut pool, now, host_id, Duration::from_mins(1)).expect("a message");
    assert_eq!(polled.id, published.id);
    assert_eq!(polled.payload, published.payload);
    assert!(is_in_progress(&pool, polled.id, now));
    report_success(&mut pool, polled.id, now).expect("attempted");
    assert!(is_succeeded(&pool, polled.id, now));
    assert!(!is_in_progress(&pool, polled.id, now));
    assert!(!has_active_lease(&pool, polled.id, now));
}

#[test]
fn the_tables_stay_consistent_over_a_long_run() {
    let mut pool = Tables::new();
    let hold_for = Duration::from_micros(7);
    let mut clock: i64 = 0;
    for round in 0..40u128 {
        clock += 3;
        publish_message_at(&mut pool, &message_with_id(1000 + round), at(clock)).expect("new");
        assert_invariants(&pool, at(clock));
        let host = 1 + (round % 3);
        let got = match round % 4 {
            0 => get_next_unattempted(&mut pool, at(clock), host, hold_for),
            1 => get_next_retryable(&mut pool, at(clock), host, hold_for),
            2 => get_next_missing(&mut pool, at(clock), host, hold_for),
            _ => get_next_unattempted(&mut pool, at(clock), host, hold_for),
        };
        assert_invariants(&pool, at(clock));
        if let Some(message) = got {
            let outcome = match round % 5 {
                0 => report_success(&mut pool, message.id, at(clock + 1)),
                1 | 2 => report_retryable(
                    &mut pool,
                    message.id,
                    at(clock + 1),
                    message.attempted + 1,
                    at(clock + 4),
                    "not yet",
                ),
                3 => report_dead(&mut pool, message.id, at(clock + 1), "never"),
                _ => Ok(()),
            };
            assert_eq!(outcome, Ok(()));
            assert_invariants(&pool, at(clock + 1));
        }
    }
    let states: Vec<State> = known_messages(&pool)
        .into_iter()
        .map(|m| get_raw_state(&pool, m, at(clock)).get_state())
        .collect();
    assert_eq!(states.len(), 40);
    for state in [State::Pending, State::Succeeded, State::Failed, State::Dead] {
        assert!(states.contains(&state), "no message is {:?}", state);
    }
}

#[test]
fn the_schema_is_set_before_every_query() {
    assert_eq!(set_schema_statement("\"fx\""), "SET LOCAL search_path TO \"fx\"");
    let queries = Queries::new("\"my\"\"schema\"");
    assert_eq!(queries.schema(), "\"my\"\"schema\"");
    assert_eq!(queries.set_schema_statement(), "SET LOCAL search_path TO \"my\"\"schema\"");
}
