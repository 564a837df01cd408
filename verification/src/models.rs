//! Messages as the queue carries them, and the routing hash of their names.

use vstd::prelude::*;
use vstd::string::*;
use vstd::utf8::encode_utf8;

verus! {

/// The 32-bit FNV offset basis and prime.
pub const FNV_OFFSET_BASIS_32: u32 = 0x811c9dc5;

pub const FNV_PRIME_32: u32 = 0x01000193;

/// FNV-1a over `bytes`: from the offset basis, each byte is xored in and the
/// sum multiplied by the prime, modulo 2^32.
pub open spec fn fnv1a_32(bytes: Seq<u8>) -> u32
    decreases bytes.len(),
{
    if bytes.len() == 0 {
        FNV_OFFSET_BASIS_32
    } else {
        (((fnv1a_32(bytes.drop_last()) ^ (bytes.last() as u32)) * FNV_PRIME_32)
            % 0x1_0000_0000) as u32
    }
}

/// The 32 bits of `h` read as a signed integer.
pub open spec fn reinterpret_signed(h: u32) -> i32 {
    if h < 0x8000_0000 {
        h as i32
    } else {
        (h - 0x1_0000_0000) as i32
    }
}

/// The routing hash of a message name: FNV-1a over its UTF-8 bytes, as a
/// signed integer.
pub open spec fn spec_message_hash(name: Seq<char>) -> i32 {
    reinterpret_signed(fnv1a_32(encode_utf8(name)))
}

/// `const_fnv1a_hash::fnv1a_hash_str_32` runs the FNV-1a loop over the bytes
/// of its argument, starting from the 32-bit offset basis and multiplying by
/// the 32-bit prime with wrap-around.
pub assume_specification[ const_fnv1a_hash::fnv1a_hash_str_32 ](input: &str) -> (hash: u32)
    ensures
        hash == fnv1a_32(input.spec_bytes()),
;

/// The routing hash of `name`.
pub fn message_hash(name: &str) -> (hash: i32)
    ensures
        hash == spec_message_hash(name@),
{
    let h: u32 = const_fnv1a_hash::fnv1a_hash_str_32(name);
    if h < 0x8000_0000 {
        h as i32
    } else {
        (h as i64 - 0x1_0000_0000) as i32
    }
}

/// A new identifier for a row: `uuid::Uuid::now_v7` draws a version 7 UUID
/// from the clock and the random source, and `Uuid::as_u128` gives its bytes
/// as one big-endian number. Nothing is claimed of the number that comes back.
#[verifier::external_body]
pub(crate) fn new_row_id() -> (id: u128) {
    uuid::Uuid::now_v7().as_u128()
}

/// A message type that the queue can route: it has a stable name, and is
/// looked up by the hash of that name.
pub trait Message {
    /// The name under which consumers register for this type.
    const NAME: &'static str;

    /// The routing hash of `NAME`.
    fn hash() -> (hash: i32)
        ensures
            hash == spec_message_hash(Self::NAME@),
    {
        message_hash(Self::NAME)
    }
}

/// A message as published and as handed to a worker.
#[derive(Debug)]
pub struct RawMessage {
    /// Unique identifier, a UUID as its 128-bit number.
    pub id: u128,
    /// Message type name.
    pub name: String,
    /// Routing hash of the name.
    pub hash: i32,
    /// The payload as JSON text.
    pub payload: String,
    /// How many times processing this message has been attempted.
    pub attempted: i32,
}

/// A `RawMessage` with its texts as sequences of characters.
pub struct RawMessageView {
    pub id: u128,
    pub name: Seq<char>,
    pub hash: i32,
    pub payload: Seq<char>,
    pub attempted: i32,
}

impl View for RawMessage {
    type V = RawMessageView;

    open spec fn view(&self) -> RawMessageView {
        RawMessageView {
            id: self.id,
            name: self.name@,
            hash: self.hash,
            payload: self.payload@,
            attempted: self.attempted,
        }
    }
}

impl Clone for RawMessage {
    fn clone(&self) -> (copy: Self)
        ensures
            copy@ == self@,
    {
        RawMessage {
            id: self.id,
            name: self.name.clone(),
            hash: self.hash,
            payload: self.payload.clone(),
            attempted: self.attempted,
        }
    }
}

} // verus!
