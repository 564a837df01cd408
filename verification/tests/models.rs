use fx_event_bus::models::{message_hash, Message, RawMessage};
use fx_event_bus::testing_tools::TestMessage;

#[test]
fn the_hash_is_fnv1a_over_the_bytes_of_the_name() {
    // published FNV-1a test vectors, 32 bits
    assert_eq!(message_hash("") as u32, 0x811c9dc5);
    assert_eq!(message_hash("a") as u32, 0xe40c292c);
    assert_eq!(message_hash("foobar") as u32, 0xbf9cf968);
}

#[test]
fn the_hash_is_read_as_a_signed_integer() {
    assert_eq!(message_hash(""), 0x811c9dc5u32 as i32);
    assert!(message_hash("") < 0);
    assert_eq!(message_hash("foobar"), -1080231576);
    // below 2^31 the number is kept
    assert_eq!(message_hash("b") as u32, 0xe70c2de5);
    assert_eq!(message_hash("ab"), 0x4d2505ca);
}

#[test]
fn the_hash_reads_utf8_bytes() {
    let name = "é";
    let mut expected: u32 = 0x811c9dc5;
    for byte in [0xc3u8, 0xa9u8] {
        expected ^= byte as u32;
        expected = expected.wrapping_mul(0x01000193);
    }
    assert_eq!(message_hash(name) as u32, expected);
}

#[test]
fn a_message_type_has_its_name_and_hash() {
    assert_eq!(TestMessage::NAME, "TestMessage");
    assert_eq!(TestMessage::hash(), message_hash("TestMessage"));
}

#[test]
fn test_messages_are_made_ready_for_publication() {
    let message = TestMessage::new("test".to_string(), 42);
    assert_eq!(message.message, "test");
    assert_eq!(message.value, 42);
    let raw = message.to_raw("{\"message\":\"test\",\"value\":42}".to_string());
    assert_eq!(raw.name, TestMessage::NAME);
    assert_eq!(raw.hash, TestMessage::hash());
    assert_eq!(raw.payload, "{\"message\":\"test\",\"value\":42}");
    assert_eq!(raw.attempted, 0);
    let other = message.to_raw("{}".to_string());
    assert_ne!(raw.id, other.id);
    assert!(raw.id < other.id);
}

#[test]
fn fresh_identifiers_are_version_7_uuids() {
    let raw = TestMessage::default().to_raw("null".to_string());
    let id = uuid::Uuid::from_u128(raw.id);
    assert_eq!(id.get_version_num(), 7);
}

#[test]
fn the_default_test_message() {
    let message = TestMessage::default();
    assert_eq!(message.message, "whats the meaning of life, the universe and everything?");
    assert_eq!(message.value, 42);
}

#[test]
fn raw_messages_are_cloned_field_by_field() {
    let raw = RawMessage {
        id: 7,
        name: "N".to_string(),
        hash: -3,
        payload: "[1]".to_string(),
        attempted: 2,
    };
    let copy = raw.clone();
    assert_eq!(copy.id, 7);
    assert_eq!(copy.name, "N");
    assert_eq!(copy.hash, -3);
    assert_eq!(copy.payload, "[1]");
    assert_eq!(copy.attempted, 2);
}
