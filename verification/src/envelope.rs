//! Application-level message schema and its wire format.
use vstd::prelude::*;

use crate::bytes::{
    byte_range_values, copy_bytes, le_bytes, le_bytes_len, le_round_trip, le_value,
    le_value_bound, le_value_round_trip,
};

verus! {

/// Sender-assigned idempotency key. May be random or content-derived.
pub type MessageId = [u8; 32];

/// SHA3-256 of a peer's ML-DSA-87 public key.
pub type NodeId = [u8; 32];

/// What kind of application message an envelope carries.
#[derive(Clone, Copy, Debug, PartialEq, Eq, Structural)]
pub enum MessageKind {
    DirectMessage,
    /// Sent by the recipient's core when it stores a new `DirectMessage`.
    /// Never itself triggers another receipt.
    DeliveryReceipt,
    PresenceUpdate,
}

/// The application envelope carried inside a gossip message's opaque data.
#[derive(Debug)]
pub struct Envelope {
    /// Sender-assigned idempotency key.
    pub message_id: MessageId,
    /// Sender's node identifier.
    pub sender_node_id: NodeId,
    /// Intended recipient's node identifier. Not used for routing.
    pub recipient_node_id: NodeId,
    /// Opaque payload. Not encrypted at this layer.
    pub ciphertext: Vec<u8>,
    /// Unix epoch seconds at creation.
    pub sent_at: u64,
    pub kind: MessageKind,
}

/// What an `Envelope` holds, as mathematical values.
#[verifier::ext_equal]
pub struct EnvelopeView {
    pub message_id: Seq<u8>,
    pub sender_node_id: Seq<u8>,
    pub recipient_node_id: Seq<u8>,
    pub ciphertext: Seq<u8>,
    pub sent_at: u64,
    pub kind: MessageKind,
}

impl View for Envelope {
    type V = EnvelopeView;

    open spec fn view(&self) -> EnvelopeView {
        EnvelopeView {
            message_id: self.message_id@,
            sender_node_id: self.sender_node_id@,
            recipient_node_id: self.recipient_node_id@,
            ciphertext: self.ciphertext@,
            sent_at: self.sent_at,
            kind: self.kind,
        }
    }
}

impl Clone for Envelope {
    fn clone(&self) -> (out: Self)
        ensures
            out@ == self@,
    {
        Envelope {
            message_id: self.message_id,
            sender_node_id: self.sender_node_id,
            recipient_node_id: self.recipient_node_id,
            ciphertext: copy_bytes(self.ciphertext.as_slice()),
            sent_at: self.sent_at,
            kind: self.kind,
        }
    }
}

/// Structured content of a `DeliveryReceipt` envelope, serialized into that
/// envelope's `ciphertext`.
#[derive(Clone, Copy, Debug)]
pub struct ReceiptPayload {
    /// The `message_id` of the message this receipt acknowledges.
    pub message_id: MessageId,
    /// Unix epoch seconds when the recipient stored the message.
    pub received_at: u64,
}

/// What a `ReceiptPayload` holds, as mathematical values.
#[verifier::ext_equal]
pub struct ReceiptView {
    pub message_id: Seq<u8>,
    pub received_at: u64,
}

impl View for ReceiptPayload {
    type V = ReceiptView;

    open spec fn view(&self) -> ReceiptView {
        ReceiptView { message_id: self.message_id@, received_at: self.received_at }
    }
}

/// Local delivery-tracking status of a message.
#[derive(Clone, Copy, Debug, PartialEq, Eq, Structural)]
pub enum DeliveryStatus {
    /// Handed off for sending; no confirmation yet.
    Sent,
    /// A matching receipt arrived, or the message itself was received here.
    Delivered,
    /// The send itself failed at the transport level.
    Failed,
}

/// What the core keeps per accepted or originated message.
#[derive(Debug)]
pub struct StoredMessage {
    pub envelope: Envelope,
    pub status: DeliveryStatus,
}

/// What a `StoredMessage` holds, as mathematical values.
#[verifier::ext_equal]
pub struct StoredView {
    pub envelope: EnvelopeView,
    pub status: DeliveryStatus,
}

impl View for StoredMessage {
    type V = StoredView;

    open spec fn view(&self) -> StoredView {
        StoredView { envelope: self.envelope@, status: self.status }
    }
}

impl Clone for StoredMessage {
    fn clone(&self) -> (out: Self)
        ensures
            out@ == self@,
    {
        StoredMessage { envelope: self.envelope.clone(), status: self.status }
    }
}

/// Why bytes were refused as a wire value.
#[derive(Clone, Copy, Debug, PartialEq, Eq, Structural)]
pub enum WireError {
    /// The bytes do not start with an encoded envelope.
    MalformedEnvelope,
    /// The receipt's content does not start with an encoded receipt payload.
    MalformedReceipt,
    /// The bytes do not start with an encoded gossip message.
    MalformedMessage,
}

// ── Wire format ────────────────────────────────────────────────────────────

/// The variant number of a kind on the wire.
pub open spec fn kind_code(kind: MessageKind) -> u32 {
    match kind {
        MessageKind::DirectMessage => 0,
        MessageKind::DeliveryReceipt => 1,
        MessageKind::PresenceUpdate => 2,
    }
}

/// The kind that a variant number stands for.
pub open spec fn code_kind(code: int) -> Option<MessageKind> {
    if code == 0 {
        Some(MessageKind::DirectMessage)
    } else if code == 1 {
        Some(MessageKind::DeliveryReceipt)
    } else if code == 2 {
        Some(MessageKind::PresenceUpdate)
    } else {
        None
    }
}

/// A length-prefixed byte string: eight little-endian length bytes, then
/// the bytes.
pub open spec fn counted(s: Seq<u8>) -> Seq<u8> {
    le_bytes(s.len(), 8) + s
}

/// The fields of an envelope in wire order, the kind as a bare number.
pub open spec fn envelope_fields(
    id: Seq<u8>,
    sender: Seq<u8>,
    recipient: Seq<u8>,
    ciphertext: Seq<u8>,
    sent_at: u64,
    code: u32,
) -> Seq<u8> {
    id + sender + recipient + counted(ciphertext) + le_bytes(sent_at as nat, 8) + le_bytes(
        code as nat,
        4,
    )
}

/// The bytes of an envelope on the wire.
pub open spec fn envelope_bytes(e: EnvelopeView) -> Seq<u8> {
    envelope_fields(
        e.message_id,
        e.sender_node_id,
        e.recipient_node_id,
        e.ciphertext,
        e.sent_at,
        kind_code(e.kind),
    )
}

/// The envelope that `s` starts with, if it starts with one. Bytes behind
/// the envelope are ignored.
pub open spec fn parse_envelope(s: Seq<u8>) -> Option<EnvelopeView> {
    let n = le_value(s.subrange(96, 104)) as int;
    let kind = code_kind(le_value(s.subrange(112 + n, 116 + n)) as int);
    if s.len() < 104 || s.len() < 116 + n || kind is None {
        None
    } else {
        Some(
            EnvelopeView {
                message_id: s.subrange(0, 32),
                sender_node_id: s.subrange(32, 64),
                recipient_node_id: s.subrange(64, 96),
                ciphertext: s.subrange(104, 104 + n),
                sent_at: le_value(s.subrange(104 + n, 112 + n)) as u64,
                kind: kind->0,
            },
        )
    }
}

/// The bytes of a receipt payload on the wire.
pub open spec fn receipt_bytes(p: ReceiptView) -> Seq<u8> {
    p.message_id + le_bytes(p.received_at as nat, 8)
}

/// The receipt payload that `s` starts with, if it starts with one.
pub open spec fn parse_receipt(s: Seq<u8>) -> Option<ReceiptView> {
    if s.len() < 40 {
        None
    } else {
        Some(
            ReceiptView {
                message_id: s.subrange(0, 32),
                received_at: le_value(s.subrange(32, 40)) as u64,
            },
        )
    }
}

/// Whether the fields have the sizes that every `Envelope` value has.
pub open spec fn envelope_sized(id: Seq<u8>, sender: Seq<u8>, recipient: Seq<u8>, ciphertext: Seq<u8>) -> bool {
    &&& id.len() == 32
    &&& sender.len() == 32
    &&& recipient.len() == 32
    &&& ciphertext.len() <= u64::MAX
}

/// The fields that `envelope_fields` wrote at the start of `s` are read off
/// at fixed places.
proof fn envelope_fields_layout(
    s: Seq<u8>,
    id: Seq<u8>,
    sender: Seq<u8>,
    recipient: Seq<u8>,
    ciphertext: Seq<u8>,
    sent_at: u64,
    code: u32,
)
    requires
        envelope_sized(id, sender, recipient, ciphertext),
        envelope_fields(id, sender, recipient, ciphertext, sent_at, code).is_prefix_of(s),
    ensures
        ({
            let n = ciphertext.len() as int;
            &&& s.len() >= 116 + n
            &&& s.subrange(0, 32) == id
            &&& s.subrange(32, 64) == sender
            &&& s.subrange(64, 96) == recipient
            &&& le_value(s.subrange(96, 104)) == n
            &&& s.subrange(104, 104 + n) == ciphertext
            &&& le_value(s.subrange(104 + n, 112 + n)) == sent_at
            &&& le_value(s.subrange(112 + n, 116 + n)) == code
        }),
{
    let n = ciphertext.len() as int;
    let enc = envelope_fields(id, sender, recipient, ciphertext, sent_at, code);
    byte_range_values();
    le_round_trip(ciphertext.len(), 8);
    le_round_trip(sent_at as nat, 8);
    le_round_trip(code as nat, 4);
    assert(enc.len() == 116 + n);
    assert(enc =~= s.subrange(0, 116 + n));
    assert(forall|i: int| 0 <= i < 116 + n ==> s[i] == enc[i]);
    assert(s.subrange(0, 32) =~= id);
    assert(s.subrange(32, 64) =~= sender);
    assert(s.subrange(64, 96) =~= recipient);
    assert(s.subrange(96, 104) =~= le_bytes(ciphertext.len(), 8));
    assert(s.subrange(104, 104 + n) =~= ciphertext);
    assert(s.subrange(104 + n, 112 + n) =~= le_bytes(sent_at as nat, 8));
    assert(s.subrange(112 + n, 116 + n) =~= le_bytes(code as nat, 4));
}

/// Fields that fit into `s` make up a prefix of it.
proof fn envelope_fields_found(s: Seq<u8>)
    requires
        s.len() >= 104,
        s.len() >= 116 + le_value(s.subrange(96, 104)),
    ensures
        ({
            let n = le_value(s.subrange(96, 104)) as int;
            let sent = le_value(s.subrange(104 + n, 112 + n));
            let code = le_value(s.subrange(112 + n, 116 + n));
            &&& n <= u64::MAX
            &&& sent <= u64::MAX
            &&& code <= u32::MAX
            &&& envelope_fields(
                s.subrange(0, 32),
                s.subrange(32, 64),
                s.subrange(64, 96),
                s.subrange(104, 104 + n),
                sent as u64,
                code as u32,
            ).is_prefix_of(s)
        }),
{
    let n = le_value(s.subrange(96, 104)) as int;
    byte_range_values();
    le_value_bound(s.subrange(96, 104));
    le_value_bound(s.subrange(104 + n, 112 + n));
    le_value_bound(s.subrange(112 + n, 116 + n));
    le_value_round_trip(s.subrange(96, 104));
    le_value_round_trip(s.subrange(104 + n, 112 + n));
    le_value_round_trip(s.subrange(112 + n, 116 + n));
    let sent = le_value(s.subrange(104 + n, 112 + n));
    let code = le_value(s.subrange(112 + n, 116 + n));
    let enc = envelope_fields(
        s.subrange(0, 32),
        s.subrange(32, 64),
        s.subrange(64, 96),
        s.subrange(104, 104 + n),
        sent as u64,
        code as u32,
    );
    assert(enc =~= s.subrange(0, 116 + n));
}

/// Decoding an encoded envelope gives the envelope back, whatever bytes
/// follow it.
pub proof fn envelope_round_trip(e: EnvelopeView, rest: Seq<u8>)
    requires
        envelope_sized(e.message_id, e.sender_node_id, e.recipient_node_id, e.ciphertext),
    ensures
        parse_envelope(envelope_bytes(e) + rest) == Some(e),
{
    let s = envelope_bytes(e) + rest;
    assert(envelope_bytes(e) =~= s.subrange(0, envelope_bytes(e).len() as int));
    envelope_fields_layout(
        s,
        e.message_id,
        e.sender_node_id,
        e.recipient_node_id,
        e.ciphertext,
        e.sent_at,
        kind_code(e.kind),
    );
    assert(parse_envelope(s)->0 =~= e);
}

/// Decoding an encoded receipt payload gives the payload back, whatever
/// bytes follow it.
pub proof fn receipt_round_trip(p: ReceiptView, rest: Seq<u8>)
    requires
        p.message_id.len() == 32,
    ensures
        parse_receipt(receipt_bytes(p) + rest) == Some(p),
{
    byte_range_values();
    le_round_trip(p.received_at as nat, 8);
    let s = receipt_bytes(p) + rest;
    assert(s.subrange(0, 32) =~= p.message_id);
    assert(s.subrange(32, 40) =~= le_bytes(p.received_at as nat, 8));
    assert(parse_receipt(s)->0 =~= p);
}

/// The fields of an encoded envelope stand at fixed places: the message, the
/// sender and the recipient, 32 bytes each, the counted content, the time,
/// and the number of the kind.
pub proof fn envelopes_have_a_layout(e: EnvelopeView)
    requires
        envelope_sized(e.message_id, e.sender_node_id, e.recipient_node_id, e.ciphertext),
    ensures
        ({
            let s = envelope_bytes(e);
            let n = e.ciphertext.len() as int;
            &&& s.len() == 116 + n
            &&& s.subrange(0, 32) == e.message_id
            &&& s.subrange(32, 64) == e.sender_node_id
            &&& s.subrange(64, 96) == e.recipient_node_id
            &&& s.subrange(96, 104) == le_bytes(n as nat, 8)
            &&& s.subrange(104, 104 + n) == e.ciphertext
            &&& s.subrange(104 + n, 112 + n) == le_bytes(e.sent_at as nat, 8)
            &&& s[112 + n] == 0 <==> e.kind == MessageKind::DirectMessage
            &&& s[112 + n] == 1 <==> e.kind == MessageKind::DeliveryReceipt
            &&& s[112 + n] == 2 <==> e.kind == MessageKind::PresenceUpdate
            &&& s.subrange(113 + n, 116 + n) == seq![0u8, 0u8, 0u8]
        }),
{
    let s = envelope_bytes(e);
    let n = e.ciphertext.len() as int;
    le_bytes_len(n as nat, 8);
    le_bytes_len(e.sent_at as nat, 8);
    reveal_with_fuel(le_bytes, 5);
    let code = kind_code(e.kind) as nat;
    let number = le_bytes(code, 4);
    assert(code / 256 == 0 && code % 256 == code);
    assert(number =~= seq![code as u8, 0u8, 0u8, 0u8]);
    assert(s.len() == 116 + n);
    assert(s.subrange(0, 32) =~= e.message_id);
    assert(s.subrange(32, 64) =~= e.sender_node_id);
    assert(s.subrange(64, 96) =~= e.recipient_node_id);
    assert(s.subrange(96, 104) =~= le_bytes(n as nat, 8));
    assert(s.subrange(104, 104 + n) =~= e.ciphertext);
    assert(s.subrange(104 + n, 112 + n) =~= le_bytes(e.sent_at as nat, 8));
    assert(s.subrange(112 + n, 116 + n) =~= number);
    assert(s[112 + n] == s.subrange(112 + n, 116 + n)[0]);
    assert(s.subrange(113 + n, 116 + n) =~= number.subrange(1, 4));
}

/// Bytes that end before the fields do hold no envelope, and no receipt.
pub proof fn cut_envelopes_are_refused(e: EnvelopeView, p: ReceiptView, len: int)
    requires
        envelope_sized(e.message_id, e.sender_node_id, e.recipient_node_id, e.ciphertext),
        p.message_id.len() == 32,
    ensures
        0 <= len < envelope_bytes(e).len() ==> parse_envelope(
            envelope_bytes(e).subrange(0, len),
        ) is None,
        0 <= len < receipt_bytes(p).len() ==> parse_receipt(
            receipt_bytes(p).subrange(0, len),
        ) is None,
{
    envelopes_have_a_layout(e);
    le_bytes_len(p.received_at as nat, 8);
    if 104 <= len < envelope_bytes(e).len() {
        let cut = envelope_bytes(e).subrange(0, len);
        byte_range_values();
        le_round_trip(e.ciphertext.len(), 8);
        assert(cut.subrange(96, 104) =~= envelope_bytes(e).subrange(96, 104));
    }
}

// ── Outside calls ──────────────────────────────────────────────────────────

/// bincode's error.
#[verifier::external_type_specification]
#[verifier::external_body]
pub struct ExBincodeErrorKind(bincode::ErrorKind);

/// `bincode::serialize` on the fields of an envelope: fixed-width
/// little-endian integers, arrays as their bytes, byte vectors behind a
/// 64-bit length. Writing plain data to memory never fails.
#[verifier::external_body]
fn bincode_serialize_envelope(
    id: &[u8; 32],
    sender: &[u8; 32],
    recipient: &[u8; 32],
    ciphertext: &Vec<u8>,
    sent_at: u64,
    code: u32,
) -> (out: Result<Vec<u8>, bincode::Error>)
    ensures
        out is Ok,
        out->Ok_0@ == envelope_fields(id@, sender@, recipient@, ciphertext@, sent_at, code),
{
    bincode::serialize(&(id, sender, recipient, ciphertext, sent_at, code))
}

/// `bincode::deserialize` into the fields of an envelope: it succeeds
/// exactly on bytes that start with encoded fields, returns those fields,
/// and ignores what follows them.
#[verifier::external_body]
fn bincode_deserialize_envelope(bytes: &[u8]) -> (out: Result<
    ([u8; 32], [u8; 32], [u8; 32], Vec<u8>, u64, u32),
    bincode::Error,
>)
    ensures
        out matches Ok(v) ==> envelope_fields(v.0@, v.1@, v.2@, v.3@, v.4, v.5).is_prefix_of(bytes@),
        out is Err ==> forall|
            id: Seq<u8>,
            from: Seq<u8>,
            to: Seq<u8>,
            content: Seq<u8>,
            at: u64,
            code: u32,
        |
            envelope_sized(id, from, to, content) ==> !(#[trigger] envelope_fields(
                id,
                from,
                to,
                content,
                at,
                code,
            )).is_prefix_of(bytes@),
{
    bincode::deserialize(bytes)
}

/// `bincode::serialize` on a receipt payload: the identifier's bytes, then
/// the time as eight little-endian bytes. Never fails.
#[verifier::external_body]
fn bincode_serialize_receipt(id: &[u8; 32], at: u64) -> (out: Result<Vec<u8>, bincode::Error>)
    ensures
        out is Ok,
        out->Ok_0@ == id@ + le_bytes(at as nat, 8),
{
    bincode::serialize(&(id, at))
}

/// `bincode::deserialize` into a receipt payload: it succeeds exactly on
/// bytes that start with an encoded payload, and ignores what follows it.
#[verifier::external_body]
fn bincode_deserialize_receipt(bytes: &[u8]) -> (out: Result<([u8; 32], u64), bincode::Error>)
    ensures
        out matches Ok(v) ==> (v.0@ + le_bytes(v.1 as nat, 8)).is_prefix_of(bytes@),
        out is Err ==> bytes@.len() < 40,
{
    bincode::deserialize(bytes)
}

// ── Encoding and decoding ──────────────────────────────────────────────────

/// The variant number of `kind` on the wire.
fn code_of(kind: MessageKind) -> (code: u32)
    ensures
        code == kind_code(kind),
{
    match kind {
        MessageKind::DirectMessage => 0,
        MessageKind::DeliveryReceipt => 1,
        MessageKind::PresenceUpdate => 2,
    }
}

/// Encodes an envelope for the wire.
pub fn encode_envelope(envelope: &Envelope) -> (out: Result<Vec<u8>, WireError>)
    ensures
        out matches Ok(b) && b@ == envelope_bytes(envelope@),
{
    let encoded = bincode_serialize_envelope(
        &envelope.message_id,
        &envelope.sender_node_id,
        &envelope.recipient_node_id,
        &envelope.ciphertext,
        envelope.sent_at,
        code_of(envelope.kind),
    );
    match encoded {
        Ok(bytes) => Ok(bytes),
        Err(_) => Err(WireError::MalformedEnvelope),
    }
}

/// Decodes the envelope at the start of `bytes`.
pub fn decode_envelope(bytes: &[u8]) -> (out: Result<Envelope, WireError>)
    ensures
        match out {
            Ok(e) => parse_envelope(bytes@) == Some(e@),
            Err(err) => parse_envelope(bytes@) is None && err == WireError::MalformedEnvelope,
        },
{
    match bincode_deserialize_envelope(bytes) {
        Ok((message_id, sender_node_id, recipient_node_id, ciphertext, sent_at, code)) => {
            proof {
                assert(ciphertext.len() <= usize::MAX);
                envelope_fields_layout(
                    bytes@,
                    message_id@,
                    sender_node_id@,
                    recipient_node_id@,
                    ciphertext@,
                    sent_at,
                    code,
                );
            }
            let kind = match code {
                0 => MessageKind::DirectMessage,
                1 => MessageKind::DeliveryReceipt,
                2 => MessageKind::PresenceUpdate,
                _ => return Err(WireError::MalformedEnvelope),
            };
            Ok(
                Envelope {
                    message_id,
                    sender_node_id,
                    recipient_node_id,
                    ciphertext,
                    sent_at,
                    kind,
                },
            )
        },
        Err(_) => {
            proof {
                if parse_envelope(bytes@) is Some {
                    envelope_fields_found(bytes@);
                }
            }
            Err(WireError::MalformedEnvelope)
        },
    }
}

/// Encodes a receipt payload for the wire.
pub fn encode_receipt(payload: &ReceiptPayload) -> (out: Result<Vec<u8>, WireError>)
    ensures
        out matches Ok(b) && b@ == receipt_bytes(payload@),
{
    match bincode_serialize_receipt(&payload.message_id, payload.received_at) {
        Ok(bytes) => Ok(bytes),
        Err(_) => Err(WireError::MalformedReceipt),
    }
}

/// Decodes the receipt payload at the start of `bytes`.
pub fn decode_receipt(bytes: &[u8]) -> (out: Result<ReceiptPayload, WireError>)
    ensures
        match out {
            Ok(p) => parse_receipt(bytes@) == Some(p@),
            Err(err) => parse_receipt(bytes@) is None && err == WireError::MalformedReceipt,
        },
{
    match bincode_deserialize_receipt(bytes) {
        Ok((message_id, received_at)) => {
            proof {
                let enc = message_id@ + le_bytes(received_at as nat, 8);
                byte_range_values();
                le_round_trip(received_at as nat, 8);
                assert(enc =~= bytes@.subrange(0, 40));
                assert(bytes@.subrange(0, 32) =~= enc.subrange(0, 32));
                assert(enc.subrange(0, 32) =~= message_id@);
                assert(bytes@.subrange(32, 40) =~= enc.subrange(32, 40));
                assert(enc.subrange(32, 40) =~= le_bytes(received_at as nat, 8));
            }
            Ok(ReceiptPayload { message_id, received_at })
        },
        Err(_) => Err(WireError::MalformedReceipt),
    }
}

} // verus!
