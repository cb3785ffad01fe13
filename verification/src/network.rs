//! Wire messages of the gossip path.
use vstd::prelude::*;

use crate::bytes::{
    byte_range_values, copy_bytes, le_bytes, le_bytes_len, le_round_trip, le_value,
    le_value_bound, le_value_round_trip,
};
use crate::envelope::{counted, WireError};

verus! {

/// What travels between peers.
#[derive(Debug)]
pub enum PrimusMessage {
    /// An opaque application payload and the number of relay hops it has
    /// left.
    Envelope(Vec<u8>, u8),
}

/// What a `PrimusMessage` holds, as mathematical values.
#[verifier::ext_equal]
pub struct MessageView {
    pub data: Seq<u8>,
    pub ttl: u8,
}

impl View for PrimusMessage {
    type V = MessageView;

    open spec fn view(&self) -> MessageView {
        match self {
            PrimusMessage::Envelope(data, ttl) => MessageView { data: data@, ttl: *ttl },
        }
    }
}

impl Clone for PrimusMessage {
    fn clone(&self) -> (out: Self)
        ensures
            out@ == self@,
    {
        match self {
            PrimusMessage::Envelope(data, ttl) => PrimusMessage::Envelope(
                copy_bytes(data.as_slice()),
                *ttl,
            ),
        }
    }
}

/// The fields of a message in wire order: the variant number, the counted
/// data, the hops.
pub open spec fn message_fields(variant: u32, data: Seq<u8>, ttl: u8) -> Seq<u8> {
    le_bytes(variant as nat, 4) + counted(data) + seq![ttl]
}

/// The bytes of a message on the wire.
pub open spec fn message_bytes(data: Seq<u8>, ttl: u8) -> Seq<u8> {
    message_fields(0, data, ttl)
}

/// The message that `s` starts with, if it starts with one.
pub open spec fn parse_message(s: Seq<u8>) -> Option<MessageView> {
    let n = le_value(s.subrange(4, 12)) as int;
    if s.len() < 12 || s.len() < 13 + n || le_value(s.subrange(0, 4)) != 0 {
        None
    } else {
        Some(MessageView { data: s.subrange(12, 12 + n), ttl: s[12 + n] })
    }
}

/// The fields that `message_fields` wrote at the start of `s` are read off
/// at fixed places.
proof fn message_fields_layout(s: Seq<u8>, variant: u32, data: Seq<u8>, ttl: u8)
    requires
        data.len() <= u64::MAX,
        message_fields(variant, data, ttl).is_prefix_of(s),
    ensures
        ({
            let n = data.len() as int;
            &&& s.len() >= 13 + n
            &&& le_value(s.subrange(0, 4)) == variant
            &&& le_value(s.subrange(4, 12)) == n
            &&& s.subrange(12, 12 + n) == data
            &&& s[12 + n] == ttl
        }),
{
    let n = data.len() as int;
    let enc = message_fields(variant, data, ttl);
    byte_range_values();
    le_round_trip(variant as nat, 4);
    le_round_trip(data.len(), 8);
    assert(enc.len() == 13 + n);
    assert(enc =~= s.subrange(0, 13 + n));
    assert(forall|i: int| 0 <= i < 13 + n ==> s[i] == enc[i]);
    assert(s.subrange(0, 4) =~= le_bytes(variant as nat, 4));
    assert(s.subrange(4, 12) =~= le_bytes(data.len(), 8));
    assert(s.subrange(12, 12 + n) =~= data);
}

/// Fields that fit into `s` make up a prefix of it.
proof fn message_fields_found(s: Seq<u8>)
    requires
        s.len() >= 12,
        s.len() >= 13 + le_value(s.subrange(4, 12)),
    ensures
        ({
            let n = le_value(s.subrange(4, 12)) as int;
            let variant = le_value(s.subrange(0, 4));
            &&& n <= u64::MAX
            &&& variant <= u32::MAX
            &&& message_fields(variant as u32, s.subrange(12, 12 + n), s[12 + n]).is_prefix_of(s)
        }),
{
    let n = le_value(s.subrange(4, 12)) as int;
    byte_range_values();
    le_value_bound(s.subrange(0, 4));
    le_value_bound(s.subrange(4, 12));
    le_value_round_trip(s.subrange(0, 4));
    le_value_round_trip(s.subrange(4, 12));
    let variant = le_value(s.subrange(0, 4));
    let enc = message_fields(variant as u32, s.subrange(12, 12 + n), s[12 + n]);
    assert(enc =~= s.subrange(0, 13 + n));
}

/// Decoding an encoded message gives the message back, whatever bytes
/// follow it.
pub proof fn message_round_trip(data: Seq<u8>, ttl: u8, rest: Seq<u8>)
    requires
        data.len() <= u64::MAX,
    ensures
        parse_message(message_bytes(data, ttl) + rest) == Some(MessageView { data, ttl }),
{
    let s = message_bytes(data, ttl) + rest;
    assert(message_bytes(data, ttl) =~= s.subrange(0, message_bytes(data, ttl).len() as int));
    message_fields_layout(s, 0, data, ttl);
}

/// An encoded message is the number zero in four bytes, the length of the
/// data in eight, the data, and the hops in the last byte.
pub proof fn messages_have_a_layout(data: Seq<u8>, ttl: u8)
    ensures
        ({
            let s = message_bytes(data, ttl);
            &&& s.len() == 13 + data.len()
            &&& s.subrange(0, 4) == seq![0u8, 0u8, 0u8, 0u8]
            &&& s.subrange(4, 12) == le_bytes(data.len(), 8)
            &&& s.subrange(12, 12 + data.len() as int) == data
            &&& s.last() == ttl
        }),
{
    let s = message_bytes(data, ttl);
    le_bytes_len(data.len(), 8);
    reveal_with_fuel(le_bytes, 5);
    assert(le_bytes(0, 4) =~= seq![0u8, 0u8, 0u8, 0u8]);
    assert(s.subrange(0, 4) =~= le_bytes(0, 4));
    assert(s.subrange(4, 12) =~= le_bytes(data.len(), 8));
    assert(s.subrange(12, 12 + data.len() as int) =~= data);
}

/// `bincode::serialize` on a message: the variant number as four
/// little-endian bytes, the counted data, the hops. Never fails.
#[verifier::external_body]
fn bincode_serialize_message(variant: u32, data: &[u8], ttl: u8) -> (out: Result<
    Vec<u8>,
    bincode::Error,
>)
    ensures
        out is Ok,
        out->Ok_0@ == message_fields(variant, data@, ttl),
{
    bincode::serialize(&(variant, data, ttl))
}

/// `bincode::deserialize` into a message: it succeeds exactly on bytes that
/// start with encoded fields, returns those fields, and ignores what
/// follows them.
#[verifier::external_body]
fn bincode_deserialize_message(bytes: &[u8]) -> (out: Result<(u32, Vec<u8>, u8), bincode::Error>)
    ensures
        out matches Ok(v) ==> message_fields(v.0, v.1@, v.2).is_prefix_of(bytes@),
        out is Err ==> forall|variant: u32, data: Seq<u8>, ttl: u8|
            data.len() <= u64::MAX ==> !(#[trigger] message_fields(variant, data, ttl)).is_prefix_of(
                bytes@,
            ),
{
    bincode::deserialize(bytes)
}

/// Encodes a message for the wire.
pub fn encode_message(data: &[u8], ttl: u8) -> (out: Result<Vec<u8>, WireError>)
    ensures
        out matches Ok(b) && b@ == message_bytes(data@, ttl),
{
    match bincode_serialize_message(0, data, ttl) {
        Ok(bytes) => Ok(bytes),
        Err(_) => Err(WireError::MalformedMessage),
    }
}

/// Decodes the message at the start of `bytes`.
pub fn decode_message(bytes: &[u8]) -> (out: Result<PrimusMessage, WireError>)
    ensures
        match out {
            Ok(m) => parse_message(bytes@) == Some(m@),
            Err(e) => parse_message(bytes@) is None && e == WireError::MalformedMessage,
        },
{
    match bincode_deserialize_message(bytes) {
        Ok((variant, data, ttl)) => {
            proof {
                assert(data.len() <= usize::MAX);
                message_fields_layout(bytes@, variant, data@, ttl);
            }
            if variant != 0 {
                return Err(WireError::MalformedMessage);
            }
            Ok(PrimusMessage::Envelope(data, ttl))
        },
        Err(_) => {
            proof {
                if parse_message(bytes@) is Some {
                    message_fields_found(bytes@);
                }
            }
            Err(WireError::MalformedMessage)
        },
    }
}

} // verus!
