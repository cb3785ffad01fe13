//! Peer sessions, gossip framing, relay, and the state of the network
//! server. Connections and streams themselves are opened elsewhere; here
//! is what is decided about them.
use tokio_util::bytes::BytesMut;
use tokio_util::codec::{Decoder, LengthDelimitedCodec};
use vstd::prelude::*;
use vstd::string::*;

use crate::bytes::{
    append_be_u32, append_bytes, be_bytes, be_round_trip, be_value, byte_range, byte_range_values,
    copy_bytes,
};
use crate::envelope::WireError;
use crate::hash::{sha3_256, sha3_256_digest};
use crate::ingress::MessageIngress;
use crate::network::{
    decode_message, encode_message, message_bytes, parse_message, MessageView, PrimusMessage,
};
use crate::peer::{NodeAddr, PrimusNR};
use crate::sessions::{lists, SessionTable};
use crate::text::{decimal, decimal_text, hex_of, hex_text};

verus! {

/// Default P2P QUIC port.
pub const P2P_PORT: u16 = 9000;

/// Gossip uni-stream type discriminant, the first byte of the header.
pub const STREAM_TYPE_GOSSIP: u8 = 0x01;

/// Control bi-stream type discriminant.
pub const STREAM_TYPE_CONTROL: u8 = 0x02;

/// Largest gossip payload in bytes: 16 MiB. Larger ones are refused before
/// decryption.
pub const MAX_GOSSIP_PAYLOAD: usize = 16777216;

/// Bytes of a gossip frame's header.
pub const GOSSIP_HEADER_LEN: usize = 8;

/// Most streams that one peer may have open at a time.
pub const MAX_STREAMS_PER_PEER: usize = 100;

/// Bytes that encryption adds to a message.
pub const NOISE_TAG_LEN: usize = 16;

/// Largest encrypted message in bytes.
pub const NOISE_MAX_MESSAGE: usize = 65535;

/// Why a session refused to encrypt or decrypt. The nonce is the one that
/// was used up.
#[derive(Clone, Copy, Debug, PartialEq, Eq, Structural)]
pub enum SessionError {
    Encryption { nonce: u64 },
    Decryption { nonce: u64 },
}

impl SessionError {
    /// The error in words.
    pub open spec fn text(self) -> Seq<char> {
        match self {
            SessionError::Encryption { nonce } => "Noise encryption failed (nonce="@
                + decimal_text(nonce as nat) + ")"@,
            SessionError::Decryption { nonce } => "Noise decryption failed (nonce="@
                + decimal_text(nonce as nat) + ")"@,
        }
    }

    /// The error in words.
    pub fn message(&self) -> (out: String)
        ensures
            out@ == self.text(),
    {
        let (mut out, nonce) = match self {
            SessionError::Encryption { nonce } => (
                String::from_str("Noise encryption failed (nonce="),
                *nonce,
            ),
            SessionError::Decryption { nonce } => (
                String::from_str("Noise decryption failed (nonce="),
                *nonce,
            ),
        };
        out.append(decimal(nonce).as_str());
        out.append(")");
        out
    }
}

/// Why a gossip stream was given up.
#[derive(Clone, Copy, Debug, PartialEq, Eq, Structural)]
pub enum GossipError {
    /// The stream ended before any byte of a frame.
    ClosedBeforeHeader,
    /// The frame is over the size limit, or the stream ended or failed
    /// inside it.
    FrameDropped,
    /// The frame is shorter than its header.
    FrameTooShort,
    /// The stream is not a gossip stream.
    UnexpectedStreamType(u8),
    /// There is no session for the sender.
    NoSession,
    /// The payload could not be decrypted.
    Session(SessionError),
    /// The decrypted payload is no message.
    Message(WireError),
    /// The application refused the envelope.
    Ingress(WireError),
}

impl GossipError {
    /// The error in words, for a stream from `remote`.
    pub open spec fn text(self, remote: Seq<char>) -> Seq<char> {
        match self {
            GossipError::ClosedBeforeHeader => "Gossip: stream closed before header"@,
            GossipError::FrameDropped => "Gossip: frame size limit exceeded or IO error from "@
                + remote,
            GossipError::FrameTooShort => "Gossip: frame too short from "@ + remote,
            GossipError::UnexpectedStreamType(t) => "Gossip: unexpected stream type 0x"@
                + hex_text(seq![t]) + " from "@ + remote + " (expected 0x01)"@,
            GossipError::NoSession => "Gossip: received data from "@ + remote
                + " before Noise handshake completed"@,
            GossipError::Session(e) => e.text(),
            GossipError::Message(_) => "Gossip: envelope deserialization failed"@,
            GossipError::Ingress(_) => "Gossip: envelope ingestion failed for payload from "@
                + remote,
        }
    }

    /// The error in words, for a stream from `remote`.
    pub fn message(&self, remote: &str) -> (out: String)
        ensures
            out@ == self.text(remote@),
    {
        match self {
            GossipError::ClosedBeforeHeader => String::from_str(
                "Gossip: stream closed before header",
            ),
            GossipError::FrameDropped => {
                let mut out = String::from_str(
                    "Gossip: frame size limit exceeded or IO error from ",
                );
                out.append(remote);
                out
            },
            GossipError::FrameTooShort => {
                let mut out = String::from_str("Gossip: frame too short from ");
                out.append(remote);
                out
            },
            GossipError::UnexpectedStreamType(t) => {
                let byte: [u8; 1] = [*t];
                assert(byte@ =~= seq![*t]);
                let mut out = String::from_str("Gossip: unexpected stream type 0x");
                out.append(hex_of(byte.as_slice()).as_str());
                out.append(" from ");
                out.append(remote);
                out.append(" (expected 0x01)");
                out
            },
            GossipError::NoSession => {
                let mut out = String::from_str("Gossip: received data from ");
                out.append(remote);
                out.append(" before Noise handshake completed");
                out
            },
            GossipError::Session(e) => e.message(),
            GossipError::Message(_) => String::from_str("Gossip: envelope deserialization failed"),
            GossipError::Ingress(_) => {
                let mut out = String::from_str(
                    "Gossip: envelope ingestion failed for payload from ",
                );
                out.append(remote);
                out
            },
        }
    }
}

// ── Encryption ─────────────────────────────────────────────────────────────

/// snow's transport state after a finished handshake.
#[verifier::external_type_specification]
#[verifier::external_body]
pub struct ExStatelessTransportState(snow::StatelessTransportState);

/// snow's error.
#[verifier::external_type_specification]
#[verifier::external_body]
pub struct ExSnowError(snow::Error);

/// What a transport state encrypts `payload` to under `nonce`, or `None`
/// where it refuses.
pub uninterp spec fn noise_ciphertext(
    state: snow::StatelessTransportState,
    nonce: u64,
    payload: Seq<u8>,
) -> Option<Seq<u8>>;

/// What a transport state decrypts `ciphertext` to under `nonce`, or `None`
/// where it refuses.
pub uninterp spec fn noise_plaintext(
    state: snow::StatelessTransportState,
    nonce: u64,
    ciphertext: Seq<u8>,
) -> Option<Seq<u8>>;

/// `snow::StatelessTransportState::write_message` into a buffer with room
/// for the payload and its tag. The result is a function of state, nonce
/// and payload, and sixteen bytes longer than the payload. Messages over
/// 65535 bytes and the largest nonce are refused.
#[verifier::external_body]
fn noise_write_message(
    state: &snow::StatelessTransportState,
    nonce: u64,
    payload: &[u8],
    out: &mut Vec<u8>,
) -> (written: Result<usize, snow::Error>)
    requires
        old(out)@.len() >= payload@.len() + NOISE_TAG_LEN,
    ensures
        final(out)@.len() == old(out)@.len(),
        written is Ok <==> noise_ciphertext(*state, nonce, payload@) is Some,
        written is Ok ==> written->Ok_0 == payload@.len() + NOISE_TAG_LEN,
        written is Ok ==> noise_ciphertext(*state, nonce, payload@)->0 == final(out)@.subrange(
            0,
            written->Ok_0 as int,
        ),
        payload@.len() + NOISE_TAG_LEN > NOISE_MAX_MESSAGE ==> written is Err,
        nonce == u64::MAX ==> written is Err,
{
    state.write_message(nonce, payload, out)
}

/// `snow::StatelessTransportState::read_message` into a buffer with room
/// for the whole message. The result is a function of state, nonce and
/// message, and sixteen bytes shorter than the message. Messages over 65535
/// bytes or shorter than the tag, and the largest nonce, are refused.
#[verifier::external_body]
fn noise_read_message(
    state: &snow::StatelessTransportState,
    nonce: u64,
    message: &[u8],
    out: &mut Vec<u8>,
) -> (read: Result<usize, snow::Error>)
    requires
        old(out)@.len() >= message@.len(),
    ensures
        final(out)@.len() == old(out)@.len(),
        read is Ok <==> noise_plaintext(*state, nonce, message@) is Some,
        read is Ok ==> read->Ok_0 + NOISE_TAG_LEN == message@.len(),
        read is Ok ==> noise_plaintext(*state, nonce, message@)->0 == final(out)@.subrange(
            0,
            read->Ok_0 as int,
        ),
        message@.len() > NOISE_MAX_MESSAGE ==> read is Err,
        nonce == u64::MAX ==> read is Err,
{
    state.read_message(nonce, message, out)
}

/// Whether what `a` encrypts, `b` decrypts: the two ends of one handshake.
pub open spec fn paired(
    a: snow::StatelessTransportState,
    b: snow::StatelessTransportState,
) -> bool {
    forall|nonce: u64, payload: Seq<u8>|
        (#[trigger] noise_ciphertext(a, nonce, payload)) is Some ==> noise_plaintext(
            b,
            nonce,
            noise_ciphertext(a, nonce, payload)->0,
        ) == Some(payload)
}

/// `n` zero bytes.
fn zeros(n: usize) -> (out: Vec<u8>)
    ensures
        out@.len() == n,
{
    let mut out: Vec<u8> = Vec::new();
    while out.len() < n
        invariant
            out@.len() <= n,
        decreases n - out@.len(),
    {
        out.push(0);
    }
    out
}

/// A nonce counter one further. It wraps.
pub open spec fn next_nonce(nonce: u64) -> u64 {
    if nonce == u64::MAX {
        0
    } else {
        (nonce + 1) as u64
    }
}

/// Per-connection session state. Each message uses up one nonce of its
/// direction.
pub struct PeerSession {
    noise: snow::StatelessTransportState,
    recv_nonce: u64,
    send_nonce: u64,
}

impl PeerSession {
    /// The transport state of the session.
    pub closed spec fn transport(self) -> snow::StatelessTransportState {
        self.noise
    }

    /// The nonce that the next message received is decrypted under.
    pub closed spec fn recv_nonce(self) -> u64 {
        self.recv_nonce
    }

    /// The nonce that the next message sent is encrypted under.
    pub closed spec fn send_nonce(self) -> u64 {
        self.send_nonce
    }

    /// A session over a finished handshake. Both counters start at zero.
    pub fn new(noise: snow::StatelessTransportState) -> (out: Self)
        ensures
            out.transport() == noise,
            out.recv_nonce() == 0,
            out.send_nonce() == 0,
    {
        PeerSession { noise, recv_nonce: 0, send_nonce: 0 }
    }

    /// Decrypts `ciphertext` under the next nonce. The nonce is used up
    /// even on failure, so a session that failed is to be closed.
    pub fn decrypt(&mut self, ciphertext: &[u8]) -> (out: Result<Vec<u8>, SessionError>)
        ensures
            final(self).transport() == old(self).transport(),
            final(self).send_nonce() == old(self).send_nonce(),
            final(self).recv_nonce() == next_nonce(old(self).recv_nonce()),
            match out {
                Ok(p) => noise_plaintext(
                    old(self).transport(),
                    old(self).recv_nonce(),
                    ciphertext@,
                ) == Some(p@),
                Err(e) => noise_plaintext(
                    old(self).transport(),
                    old(self).recv_nonce(),
                    ciphertext@,
                ) is None && e == (SessionError::Decryption { nonce: old(self).recv_nonce() }),
            },
    {
        let nonce: u64 = self.recv_nonce;
        self.recv_nonce = nonce.wrapping_add(1);
        let mut plaintext = zeros(ciphertext.len());
        match noise_read_message(&self.noise, nonce, ciphertext, &mut plaintext) {
            Ok(n) => {
                plaintext.truncate(n);
                Ok(plaintext)
            },
            Err(_) => Err(SessionError::Decryption { nonce }),
        }
    }

    /// Encrypts `payload` under the next nonce and frames it. The result is
    /// what goes out on a new uni-stream.
    pub fn send_gossip(&mut self, payload: &[u8]) -> (out: Result<Vec<u8>, SessionError>)
        ensures
            final(self).transport() == old(self).transport(),
            final(self).recv_nonce() == old(self).recv_nonce(),
            final(self).send_nonce() == next_nonce(old(self).send_nonce()),
            ({
                let sealed = noise_ciphertext(
                    old(self).transport(),
                    old(self).send_nonce(),
                    payload@,
                );
                let too_long = payload@.len() + NOISE_TAG_LEN > NOISE_MAX_MESSAGE;
                match out {
                    Ok(b) => !too_long && sealed is Some && sealed->0.len() == payload@.len()
                        + NOISE_TAG_LEN && b@ == gossip_frame(sealed->0),
                    Err(e) => (too_long || sealed is None) && e == (SessionError::Encryption {
                        nonce: old(self).send_nonce(),
                    }),
                }
            }),
    {
        let nonce: u64 = self.send_nonce;
        self.send_nonce = nonce.wrapping_add(1);
        if payload.len() > NOISE_MAX_MESSAGE - NOISE_TAG_LEN {
            return Err(SessionError::Encryption { nonce });
        }
        let mut ciphertext = zeros(payload.len() + NOISE_TAG_LEN);
        match noise_write_message(&self.noise, nonce, payload, &mut ciphertext) {
            Ok(n) => {
                ciphertext.truncate(n);
                Ok(frame_ciphertext(ciphertext.as_slice()))
            },
            Err(_) => Err(SessionError::Encryption { nonce }),
        }
    }
}

// ── Framing ────────────────────────────────────────────────────────────────

/// The header of a gossip frame: stream type, flags, length as four
/// big-endian bytes, two bytes of padding.
pub open spec fn gossip_header(len: nat) -> Seq<u8> {
    seq![STREAM_TYPE_GOSSIP, 0u8] + be_bytes(len, 4) + seq![0u8, 0u8]
}

/// A gossip frame: the header, then the ciphertext.
pub open spec fn gossip_frame(ciphertext: Seq<u8>) -> Seq<u8> {
    gossip_header(ciphertext.len()) + ciphertext
}

/// Puts the header in front of `ciphertext`.
fn frame_ciphertext(ciphertext: &[u8]) -> (out: Vec<u8>)
    requires
        ciphertext@.len() <= u32::MAX,
    ensures
        out@ == gossip_frame(ciphertext@),
{
    let mut out: Vec<u8> = Vec::new();
    out.push(STREAM_TYPE_GOSSIP);
    out.push(0);
    append_be_u32(&mut out, ciphertext.len() as u32);
    out.push(0);
    out.push(0);
    assert(out@ =~= gossip_header(ciphertext@.len()));
    append_bytes(&mut out, ciphertext);
    out
}

/// What has arrived of a frame.
pub enum FrameStatus {
    /// More bytes are needed.
    Incomplete,
    /// The announced payload is over the limit.
    TooLong,
    /// The frame, header and payload.
    Complete(Seq<u8>),
}

/// What the bytes `received` so far hold of a length-delimited frame, where
/// `field` length bytes stand at `offset`, the frame is the announced
/// length plus `extra` bytes long and starts `skip` bytes in, and `limit`
/// bounds the announced length.
pub open spec fn delimited(
    received: Seq<u8>,
    offset: nat,
    field: nat,
    extra: nat,
    skip: nat,
    limit: nat,
) -> FrameStatus {
    let announced = be_value(received.subrange(offset as int, (offset + field) as int));
    if received.len() < offset + field {
        FrameStatus::Incomplete
    } else if announced > limit {
        FrameStatus::TooLong
    } else if received.len() < skip + announced + extra {
        FrameStatus::Incomplete
    } else {
        FrameStatus::Complete(
            received.subrange(skip as int, (skip + announced + extra) as int),
        )
    }
}

/// What the bytes `received` so far hold of a gossip frame.
pub open spec fn gossip_status(received: Seq<u8>) -> FrameStatus {
    delimited(received, 2, 4, GOSSIP_HEADER_LEN as nat, 0, MAX_GOSSIP_PAYLOAD as nat)
}

/// I/O errors of the codec.
#[verifier::external_type_specification]
#[verifier::external_body]
pub struct ExIoError(std::io::Error);

/// `tokio_util::codec::LengthDelimitedCodec::decode` with a big-endian
/// length field: the frame at the start of the bytes, `None` where more
/// bytes are needed, and an error where the announced length is over the
/// limit.
#[verifier::external_body]
fn length_delimited_decode(
    received: &[u8],
    offset: usize,
    field: usize,
    extra: isize,
    skip: usize,
    limit: usize,
) -> (out: Result<Option<Vec<u8>>, std::io::Error>)
    requires
        0 < field <= 8,
        offset + field <= 1024,
        skip <= offset + field,
        0 <= extra <= 1024,
        limit <= 0x4000_0000,
        limit < byte_range(field as nat),
    ensures
        out is Err <==> delimited(
            received@,
            offset as nat,
            field as nat,
            extra as nat,
            skip as nat,
            limit as nat,
        ) is TooLong,
        out matches Ok(found) ==> match found {
            None => delimited(
                received@,
                offset as nat,
                field as nat,
                extra as nat,
                skip as nat,
                limit as nat,
            ) is Incomplete,
            Some(frame) => delimited(
                received@,
                offset as nat,
                field as nat,
                extra as nat,
                skip as nat,
                limit as nat,
            ) == FrameStatus::Complete(frame@),
        },
{
    let mut codec = LengthDelimitedCodec::builder()
        .length_field_offset(offset)
        .length_field_length(field)
        .length_adjustment(extra)
        .num_skip(skip)
        .max_frame_length(limit)
        .new_codec();
    let frame = codec.decode(&mut BytesMut::from(received))?;
    Ok(frame.map(|bytes| bytes.to_vec()))
}

/// What to do with a gossip stream next.
pub enum StreamStep {
    /// Read more of the stream.
    ReadMore,
    /// Decrypt `ciphertext` with the session `session` and hand it on.
    Deliver { session: u64, ciphertext: Vec<u8> },
    /// Close the connection and forget its session.
    GiveUp(GossipError),
}

/// What to do with a gossip stream next, as mathematical values.
pub enum StepView {
    ReadMore,
    Deliver { session: u64, ciphertext: Seq<u8> },
    GiveUp(GossipError),
}

impl View for StreamStep {
    type V = StepView;

    open spec fn view(&self) -> StepView {
        match self {
            StreamStep::ReadMore => StepView::ReadMore,
            StreamStep::Deliver { session, ciphertext } => StepView::Deliver {
                session: *session,
                ciphertext: ciphertext@,
            },
            StreamStep::GiveUp(e) => StepView::GiveUp(*e),
        }
    }
}

/// The ciphertext of a frame, or why the frame is refused.
pub open spec fn frame_ciphertext_of(frame: Seq<u8>) -> Result<Seq<u8>, GossipError> {
    if frame.len() < GOSSIP_HEADER_LEN {
        Err(GossipError::FrameTooShort)
    } else if frame[0] != STREAM_TYPE_GOSSIP {
        Err(GossipError::UnexpectedStreamType(frame[0]))
    } else {
        Ok(frame.subrange(GOSSIP_HEADER_LEN as int, frame.len() as int))
    }
}

/// The ciphertext of a frame.
pub fn open_frame(frame: &[u8]) -> (out: Result<Vec<u8>, GossipError>)
    ensures
        match out {
            Ok(c) => frame_ciphertext_of(frame@) == Ok::<Seq<u8>, GossipError>(c@),
            Err(e) => frame_ciphertext_of(frame@) == Err::<Seq<u8>, GossipError>(e),
        },
{
    if frame.len() < GOSSIP_HEADER_LEN {
        return Err(GossipError::FrameTooShort);
    }
    if frame[0] != STREAM_TYPE_GOSSIP {
        return Err(GossipError::UnexpectedStreamType(frame[0]));
    }
    Ok(copy_bytes(vstd::slice::slice_subrange(frame, GOSSIP_HEADER_LEN, frame.len())))
}

/// What to do with a stream from `remote` of which `received` has arrived.
pub open spec fn stream_step(
    received: Seq<u8>,
    at_end: bool,
    sessions: Map<Seq<char>, u64>,
    remote: Seq<char>,
) -> StepView {
    match gossip_status(received) {
        FrameStatus::TooLong => StepView::GiveUp(GossipError::FrameDropped),
        FrameStatus::Incomplete => if !at_end {
            StepView::ReadMore
        } else if received.len() == 0 {
            StepView::GiveUp(GossipError::ClosedBeforeHeader)
        } else {
            StepView::GiveUp(GossipError::FrameDropped)
        },
        FrameStatus::Complete(frame) => match frame_ciphertext_of(frame) {
            Err(e) => StepView::GiveUp(e),
            Ok(ciphertext) => if sessions.dom().contains(remote) {
                StepView::Deliver { session: sessions[remote], ciphertext }
            } else {
                StepView::GiveUp(GossipError::NoSession)
            },
        },
    }
}

/// One incoming gossip uni-stream.
pub struct GossipStream {
    remote: NodeAddr,
    received: Vec<u8>,
}

impl GossipStream {
    /// Who sends.
    pub closed spec fn remote(self) -> Seq<char> {
        self.remote@
    }

    /// What has arrived.
    pub closed spec fn received(self) -> Seq<u8> {
        self.received@
    }

    /// A stream from `remote` of which nothing has arrived.
    pub fn new(remote: NodeAddr) -> (out: Self)
        ensures
            out.remote() == remote@,
            out.received() == Seq::<u8>::empty(),
    {
        GossipStream { remote, received: Vec::new() }
    }

    /// Takes the next bytes of the stream, or learns that it has ended, and
    /// decides what to do. Frames that are dropped are counted.
    pub fn feed(
        &mut self,
        chunk: &[u8],
        at_end: bool,
        sessions: &SessionTable,
        frame_drops: &mut u64,
    ) -> (step: StreamStep)
        ensures
            final(self).remote() == old(self).remote(),
            final(self).received() == old(self).received() + chunk@,
            step@ == stream_step(
                old(self).received() + chunk@,
                at_end,
                sessions@,
                old(self).remote(),
            ),
            *final(frame_drops) == if step@ == StepView::GiveUp(GossipError::FrameDropped) {
                next_nonce(*old(frame_drops))
            } else {
                *old(frame_drops)
            },
    {
        append_bytes(&mut self.received, chunk);
        proof {
            byte_range_values();
        }
        let found = length_delimited_decode(
            self.received.as_slice(),
            2,
            4,
            8,
            0,
            MAX_GOSSIP_PAYLOAD,
        );
        let frame = match found {
            Ok(Some(frame)) => frame,
            Ok(None) => {
                if !at_end {
                    return StreamStep::ReadMore;
                }
                if self.received.len() == 0 {
                    return StreamStep::GiveUp(GossipError::ClosedBeforeHeader);
                }
                *frame_drops = frame_drops.wrapping_add(1);
                return StreamStep::GiveUp(GossipError::FrameDropped);
            },
            Err(_) => {
                *frame_drops = frame_drops.wrapping_add(1);
                return StreamStep::GiveUp(GossipError::FrameDropped);
            },
        };
        match open_frame(frame.as_slice()) {
            Err(e) => StreamStep::GiveUp(e),
            Ok(ciphertext) => match sessions.get(&self.remote) {
                Some(session) => StreamStep::Deliver { session, ciphertext },
                None => StreamStep::GiveUp(GossipError::NoSession),
            },
        }
    }
}

/// Takes note of a gossip stream that could not be read on: its frame is
/// dropped and counted.
pub fn read_failed(frame_drops: &mut u64) -> (out: GossipError)
    ensures
        out == GossipError::FrameDropped,
        *final(frame_drops) == next_nonce(*old(frame_drops)),
{
    *frame_drops = frame_drops.wrapping_add(1);
    GossipError::FrameDropped
}

// ── Delivery to the application ────────────────────────────────────────────

/// The message inside `ciphertext`, or why there is none.
pub open spec fn opened(session: PeerSession, ciphertext: Seq<u8>) -> Result<
    MessageView,
    GossipError,
> {
    match noise_plaintext(session.transport(), session.recv_nonce(), ciphertext) {
        None => Err(
            GossipError::Session(SessionError::Decryption { nonce: session.recv_nonce() }),
        ),
        Some(plaintext) => match parse_message(plaintext) {
            None => Err(GossipError::Message(WireError::MalformedMessage)),
            Some(m) => Ok(m),
        },
    }
}

/// Decrypts `ciphertext` and reads the message in it.
pub fn open_gossip(session: &mut PeerSession, ciphertext: &[u8]) -> (out: Result<
    PrimusMessage,
    GossipError,
>)
    ensures
        final(session).transport() == old(session).transport(),
        final(session).send_nonce() == old(session).send_nonce(),
        final(session).recv_nonce() == next_nonce(old(session).recv_nonce()),
        match out {
            Ok(m) => opened(*old(session), ciphertext@) == Ok::<MessageView, GossipError>(m@),
            Err(e) => opened(*old(session), ciphertext@) == Err::<MessageView, GossipError>(e),
        },
{
    match session.decrypt(ciphertext) {
        Ok(plaintext) => match decode_message(plaintext.as_slice()) {
            Ok(message) => Ok(message),
            Err(e) => Err(GossipError::Message(e)),
        },
        Err(e) => Err(GossipError::Session(e)),
    }
}

/// Whether `out` is what follows the application's answer to the envelope
/// in `message`: it is relayed with its data and hops unless the application
/// refused it.
pub open spec fn settled(
    message: MessageView,
    answer: Result<bool, WireError>,
    out: Result<(Vec<u8>, u8), GossipError>,
) -> bool {
    match answer {
        Ok(_) => out matches Ok(r) && message == (MessageView { data: r.0@, ttl: r.1 }),
        Err(e) => out matches Err(g) && g == GossipError::Ingress(e),
    }
}

/// What follows the application's answer to an envelope.
pub fn settle_gossip(message: PrimusMessage, answer: Result<bool, WireError>) -> (out: Result<
    (Vec<u8>, u8),
    GossipError,
>)
    ensures
        settled(message@, answer, out),
{
    match answer {
        Ok(_) => match message {
            PrimusMessage::Envelope(data, ttl) => Ok((data, ttl)),
        },
        Err(e) => Err(GossipError::Ingress(e)),
    }
}

/// Whether the application took the envelope in `message`, once, and `out`
/// is what follows its answer.
pub open spec fn handed_over<M: MessageIngress>(
    before: M,
    after: M,
    message: MessageView,
    out: Result<(Vec<u8>, u8), GossipError>,
) -> bool {
    exists|answer: Result<bool, WireError>|
        before.taken(message.data, after, answer) && #[trigger] settled(message, answer, out)
}

/// Decrypts a gossip payload, hands its envelope to the application, and
/// returns the data and hops to relay. What the application answers is its
/// own: a payload that opens is either relayed or refused by it.
pub fn deliver_gossip<M: MessageIngress>(
    session: &mut PeerSession,
    ingress: &mut M,
    ciphertext: &[u8],
) -> (out: Result<(Vec<u8>, u8), GossipError>)
    requires
        old(ingress).ready(),
    ensures
        final(ingress).ready(),
        final(session).transport() == old(session).transport(),
        final(session).send_nonce() == old(session).send_nonce(),
        final(session).recv_nonce() == next_nonce(old(session).recv_nonce()),
        match opened(*old(session), ciphertext@) {
            Err(e) => *final(ingress) == *old(ingress) && (out matches Err(g) && g == e),
            Ok(m) => handed_over(*old(ingress), *final(ingress), m, out),
        },
{
    match open_gossip(session, ciphertext) {
        Ok(message) => {
            let ghost opened = message@;
            let answer = match &message {
                PrimusMessage::Envelope(data, _) => ingress.on_envelope(data.as_slice()),
            };
            let out = settle_gossip(message, answer);
            assert(settled(opened, answer, out));
            out
        },
        Err(e) => Err(e),
    }
}

/// Whether a gossip error takes the session down. An envelope that the
/// application refuses is dropped, and the session stays.
pub fn closes_session(error: &GossipError) -> (out: bool)
    ensures
        out == !(error is Ingress),
{
    match error {
        GossipError::Ingress(_) => false,
        _ => true,
    }
}

// ── Relay ──────────────────────────────────────────────────────────────────

/// What to send to whom.
pub struct RelayPlan {
    /// The encoded message.
    pub payload: Vec<u8>,
    /// Addresses and session handles.
    pub targets: Vec<(NodeAddr, u64)>,
}

/// Re-broadcasts received envelopes to the other peers that this node has
/// sessions with, one hop fewer each time.
pub struct GossipRelay {
    pub sessions: SessionTable,
}

impl GossipRelay {
    /// A relay over a session table.
    pub fn new(sessions: SessionTable) -> (out: Self)
        ensures
            out.sessions == sessions,
    {
        GossipRelay { sessions }
    }

    /// Plans the relay of `data` to every session but the one with `from`,
    /// with one hop fewer. Nothing is relayed once no hop is left.
    pub fn relay(&self, data: &[u8], ttl: u8, from: &NodeAddr) -> (out: Option<RelayPlan>)
        ensures
            match out {
                None => ttl == 0,
                Some(plan) => ttl > 0 && plan.payload@ == message_bytes(data@, (ttl - 1) as u8)
                    && lists(plan.targets@, self.sessions@.remove(from@)),
            },
    {
        if ttl == 0 {
            return None;
        }
        let payload = match encode_message(data, ttl - 1) {
            Ok(payload) => payload,
            Err(_) => return None,
        };
        Some(RelayPlan { payload, targets: self.sessions.all_but(from) })
    }
}

// ── Server ─────────────────────────────────────────────────────────────────

/// How a peer is connected.
#[derive(Clone, Copy, Debug, PartialEq, Eq, Structural)]
pub enum Transport {
    /// QUIC, node to node.
    Native,
    /// WebTransport, a browser client. Such clients are leaves: they take
    /// no part in Kademlia routing.
    Web,
}

/// A stream that a peer opened.
#[derive(Clone, Copy, Debug, PartialEq, Eq, Structural)]
pub enum StreamKind {
    Uni,
    Bi,
}

/// What to do with a stream that a peer opened.
#[derive(Clone, Copy, Debug, PartialEq, Eq, Structural)]
pub enum StreamAction {
    /// Read a gossip frame from it, under the session.
    Gossip { session: u64 },
    /// Answer a Kademlia request on it, under the session.
    Rpc { session: u64 },
    /// Drop it.
    Ignore,
}

/// What a stream of `kind` over `transport` is for, given the peer's
/// session.
pub open spec fn stream_action(
    transport: Transport,
    kind: StreamKind,
    session: Option<u64>,
) -> StreamAction {
    match session {
        None => StreamAction::Ignore,
        Some(session) => match (kind, transport) {
            (StreamKind::Uni, _) => StreamAction::Gossip { session },
            (StreamKind::Bi, Transport::Native) => StreamAction::Rpc { session },
            (StreamKind::Bi, Transport::Web) => StreamAction::Ignore,
        },
    }
}

/// The state of the network server.
pub struct PrimusNetworkServer {
    /// The QUIC port.
    pub port: u16,
    /// This node's record.
    pub local_nr: PrimusNR,
    /// The X25519 static key of handshakes.
    pub noise_static: [u8; 32],
    pub relay: GossipRelay,
    pub frame_drops: u64,
    /// The address that peers outside the local network reach, where known.
    pub external_addr: Option<NodeAddr>,
}

impl PrimusNetworkServer {
    /// A server on `port` without sessions. Its handshake key is SHA3-256
    /// of the signing key, so it needs no storage of its own.
    pub fn new(port: u16, local_nr: PrimusNR, ml_dsa_sk: &[u8]) -> (out: Self)
        ensures
            out.port == port,
            out.local_nr == local_nr,
            out.noise_static == sha3_256(ml_dsa_sk@),
            out.relay.sessions@ == Map::<Seq<char>, u64>::empty(),
            out.frame_drops == 0,
            out.external_addr is None,
    {
        PrimusNetworkServer {
            port,
            local_nr,
            noise_static: sha3_256_digest(ml_dsa_sk),
            relay: GossipRelay::new(SessionTable::new()),
            frame_drops: 0,
            external_addr: None,
        }
    }

    /// Takes note of the address that peers outside the local network reach.
    pub fn set_external_addr(&mut self, addr: NodeAddr)
        ensures
            *final(self) == (PrimusNetworkServer { external_addr: Some(addr), ..*old(self) }),
    {
        self.external_addr = Some(addr);
    }

    /// The WebTransport port, one above the QUIC port.
    pub fn web_port(&self) -> (out: u16)
        requires
            self.port < u16::MAX,
        ensures
            out == self.port + 1,
    {
        self.port + 1
    }

    /// Takes note of a finished handshake with `remote`.
    pub fn connected(&mut self, remote: NodeAddr, session: u64)
        ensures
            final(self).relay.sessions@ == old(self).relay.sessions@.insert(remote@, session),
            final(self).frame_drops == old(self).frame_drops,
            final(self).local_nr == old(self).local_nr,
            final(self).port == old(self).port,
            final(self).noise_static == old(self).noise_static,
            final(self).external_addr == old(self).external_addr,
    {
        self.relay.sessions.insert(remote, session);
    }

    /// Takes note of a gossip stream from `remote` that was given up. A
    /// failed decryption leaves the two nonce counters apart, so the session
    /// goes and the next message needs a new handshake.
    pub fn stream_failed(&mut self, remote: &NodeAddr)
        ensures
            final(self).relay.sessions@ == old(self).relay.sessions@.remove(remote@),
            final(self).frame_drops == old(self).frame_drops,
            final(self).local_nr == old(self).local_nr,
            final(self).port == old(self).port,
            final(self).noise_static == old(self).noise_static,
            final(self).external_addr == old(self).external_addr,
    {
        self.relay.sessions.remove(remote);
    }

    /// Whether to dial the address of a discovered peer: where it parsed
    /// and there is no session with it yet.
    pub fn discovered(&self, addr: Option<NodeAddr>) -> (out: Option<NodeAddr>)
        ensures
            match addr {
                None => out is None,
                Some(a) => if self.relay.sessions@.dom().contains(a@) {
                    out is None
                } else {
                    out == Some(a)
                },
            },
    {
        match addr {
            None => None,
            Some(addr) => if self.relay.sessions.get(&addr).is_some() {
                None
            } else {
                Some(addr)
            },
        }
    }

    /// What to do with a stream that `remote` opened.
    pub fn dispatch(&self, remote: &NodeAddr, transport: Transport, kind: StreamKind) -> (out:
        StreamAction)
        ensures
            out == stream_action(
                transport,
                kind,
                if self.relay.sessions@.dom().contains(remote@) {
                    Some(self.relay.sessions@[remote@])
                } else {
                    None
                },
            ),
    {
        match self.relay.sessions.get(remote) {
            None => StreamAction::Ignore,
            Some(session) => match kind {
                StreamKind::Uni => StreamAction::Gossip { session },
                StreamKind::Bi => match transport {
                    Transport::Native => StreamAction::Rpc { session },
                    Transport::Web => StreamAction::Ignore,
                },
            },
        }
    }
}

// ── Laws ───────────────────────────────────────────────────────────────────

/// A framed ciphertext is found again at the start of whatever arrives,
/// and opens to the ciphertext.
pub proof fn frame_round_trip(ciphertext: Seq<u8>, rest: Seq<u8>)
    requires
        ciphertext.len() <= MAX_GOSSIP_PAYLOAD,
    ensures
        gossip_status(gossip_frame(ciphertext) + rest) == FrameStatus::Complete(
            gossip_frame(ciphertext),
        ),
        frame_ciphertext_of(gossip_frame(ciphertext)) == Ok::<Seq<u8>, GossipError>(ciphertext),
{
    let frame = gossip_frame(ciphertext);
    let s = frame + rest;
    byte_range_values();
    be_round_trip(ciphertext.len(), 4);
    assert(frame.len() == 8 + ciphertext.len());
    assert(s.subrange(2, 6) =~= be_bytes(ciphertext.len(), 4));
    assert(s.subrange(0, (8 + ciphertext.len()) as int) =~= frame);
    assert(frame.subrange(8, frame.len() as int) =~= ciphertext);
}

/// A frame is the header and the ciphertext: the gossip type, no flags, the
/// length in four bytes, the highest first, and two bytes of padding.
pub proof fn frames_have_a_header(ciphertext: Seq<u8>)
    requires
        ciphertext.len() <= u32::MAX,
    ensures
        gossip_frame(ciphertext).len() == 8 + ciphertext.len(),
        gossip_frame(ciphertext)[0] == 1,
        gossip_frame(ciphertext)[1] == 0,
        gossip_frame(ciphertext)[2] * 16777216 + gossip_frame(ciphertext)[3] * 65536
            + gossip_frame(ciphertext)[4] * 256 + gossip_frame(ciphertext)[5] == ciphertext.len(),
        gossip_frame(ciphertext)[6] == 0,
        gossip_frame(ciphertext)[7] == 0,
        gossip_frame(ciphertext).skip(8) == ciphertext,
{
    let n = ciphertext.len();
    let frame = gossip_frame(ciphertext);
    byte_range_values();
    be_round_trip(n, 4);
    let len = be_bytes(n, 4);
    assert(len.len() == 4);
    assert(frame.subrange(2, 6) =~= len);
    assert(len[0] == frame[2] && len[1] == frame[3] && len[2] == frame[4] && len[3] == frame[5]);
    four_bytes(len);
    assert(frame.skip(8) =~= ciphertext);
}

/// The value of four bytes, the highest first.
proof fn four_bytes(s: Seq<u8>)
    requires
        s.len() == 4,
    ensures
        be_value(s) == s[0] * 16777216 + s[1] * 65536 + s[2] * 256 + s[3],
{
    reveal_with_fuel(be_value, 5);
    let a = s.drop_last();
    let b = a.drop_last();
    let c = b.drop_last();
    assert(a[2] == s[2] && b[1] == s[1] && c[0] == s[0]);
    assert(c.drop_last() =~= Seq::empty());
}

/// A whole gossip frame is delivered under the session with its sender, with
/// exactly its ciphertext, whatever follows it on the stream; without such a
/// session it is refused.
pub proof fn whole_frames_are_delivered(
    ciphertext: Seq<u8>,
    rest: Seq<u8>,
    at_end: bool,
    sessions: Map<Seq<char>, u64>,
    remote: Seq<char>,
)
    requires
        ciphertext.len() <= MAX_GOSSIP_PAYLOAD,
    ensures
        stream_step(gossip_frame(ciphertext) + rest, at_end, sessions, remote)
            == if sessions.dom().contains(remote) {
            StepView::Deliver { session: sessions[remote], ciphertext }
        } else {
            StepView::GiveUp(GossipError::NoSession)
        },
{
    frame_round_trip(ciphertext, rest);
}

/// A frame of another type is refused with that type, and a stream that
/// ends early with an error that tells whether anything had arrived.
pub proof fn broken_streams_are_refused(
    received: Seq<u8>,
    at_end: bool,
    sessions: Map<Seq<char>, u64>,
    remote: Seq<char>,
)
    requires
        received.len() >= 6 ==> be_value(received.subrange(2, 6)) <= MAX_GOSSIP_PAYLOAD,
    ensures
        ({
            let whole = received.len() >= 6 && received.len() >= 8 + be_value(
                received.subrange(2, 6),
            );
            &&& whole && received[0] != 1 ==> stream_step(received, at_end, sessions, remote)
                == StepView::GiveUp(GossipError::UnexpectedStreamType(received[0]))
            &&& !whole && !at_end ==> stream_step(received, at_end, sessions, remote)
                == StepView::ReadMore
            &&& !whole && at_end && received.len() == 0 ==> stream_step(
                received,
                at_end,
                sessions,
                remote,
            ) == StepView::GiveUp(GossipError::ClosedBeforeHeader)
            &&& !whole && at_end && received.len() > 0 ==> stream_step(
                received,
                at_end,
                sessions,
                remote,
            ) == StepView::GiveUp(GossipError::FrameDropped)
        }),
{
}

/// A payload that does not decrypt is a session error that names the nonce;
/// one that decrypts to no message is a message error.
pub proof fn unreadable_payloads_are_refused(session: PeerSession, ciphertext: Seq<u8>)
    ensures
        ({
            let plaintext = noise_plaintext(session.transport(), session.recv_nonce(), ciphertext);
            &&& plaintext is None <==> opened(session, ciphertext) == Err::<
                MessageView,
                GossipError,
            >(GossipError::Session(SessionError::Decryption { nonce: session.recv_nonce() }))
            &&& plaintext is Some && parse_message(plaintext->0) is None ==> opened(
                session,
                ciphertext,
            ) == Err::<MessageView, GossipError>(GossipError::Message(WireError::MalformedMessage))
            &&& plaintext is Some ==> (opened(session, ciphertext) is Ok <==> parse_message(
                plaintext->0,
            ) is Some)
        }),
{
}

/// An envelope is relayed, with its own data and hops, exactly where the
/// application took it, new to it or not; one it refused is not relayed.
pub proof fn taken_envelopes_are_relayed(
    message: MessageView,
    answer: Result<bool, WireError>,
    out: Result<(Vec<u8>, u8), GossipError>,
)
    requires
        settled(message, answer, out),
    ensures
        out is Ok <==> answer is Ok,
        out matches Ok(r) ==> r.0@ == message.data && r.1 == message.ttl,
        out matches Err(e) ==> e is Ingress && answer == Err::<bool, WireError>(e->Ingress_0),
{
}

/// Gossip comes on uni-streams and requests on bi-streams of nodes; a
/// browser's bi-streams, and all streams of peers without a session, are
/// dropped.
pub proof fn streams_have_one_purpose(transport: Transport, kind: StreamKind, session: Option<u64>)
    ensures
        stream_action(transport, kind, session) is Gossip <==> session is Some && kind
            == StreamKind::Uni,
        stream_action(transport, kind, session) is Rpc <==> session is Some && kind
            == StreamKind::Bi && transport == Transport::Native,
        stream_action(transport, kind, session) matches StreamAction::Gossip { session: s }
            ==> session == Some(s),
        stream_action(transport, kind, session) matches StreamAction::Rpc { session: s } ==> session
            == Some(s),
{
}

/// A strict part of a frame within the limit is never taken for a frame
/// and never refused while the stream goes on.
pub proof fn partial_frame_waits(ciphertext: Seq<u8>, n: int, sessions: Map<Seq<char>, u64>, remote: Seq<char>)
    requires
        ciphertext.len() <= MAX_GOSSIP_PAYLOAD,
        0 <= n < gossip_frame(ciphertext).len(),
    ensures
        stream_step(gossip_frame(ciphertext).subrange(0, n), false, sessions, remote)
            == StepView::ReadMore,
{
    let frame = gossip_frame(ciphertext);
    let s = frame.subrange(0, n);
    byte_range_values();
    be_round_trip(ciphertext.len(), 4);
    if n >= 6 {
        assert(s.subrange(2, 6) =~= be_bytes(ciphertext.len(), 4));
    }
}

/// A frame that announces more than the limit is refused as soon as its
/// length has arrived, before anything is decrypted.
pub proof fn long_frame_is_refused(
    received: Seq<u8>,
    at_end: bool,
    sessions: Map<Seq<char>, u64>,
    remote: Seq<char>,
)
    requires
        received.len() >= 6,
        be_value(received.subrange(2, 6)) > MAX_GOSSIP_PAYLOAD,
    ensures
        stream_step(received, at_end, sessions, remote) == StepView::GiveUp(
            GossipError::FrameDropped,
        ),
{
}

/// What one end of a session sends, the other end reads: with the counters
/// in step, the framed payload opens to the message that was sent, and the
/// counters are in step again.
pub proof fn sessions_stay_in_step(sender: PeerSession, receiver: PeerSession, data: Seq<u8>, ttl: u8)
    requires
        data.len() <= u64::MAX,
    ensures
        ({
            let sealed = noise_ciphertext(
                sender.transport(),
                sender.send_nonce(),
                message_bytes(data, ttl),
            );
            paired(sender.transport(), receiver.transport()) && sender.send_nonce()
                == receiver.recv_nonce() && sealed is Some ==> {
                &&& opened(receiver, sealed->0) == Ok::<MessageView, GossipError>(
                    MessageView { data, ttl },
                )
                &&& next_nonce(sender.send_nonce()) == next_nonce(receiver.recv_nonce())
            }
        }),
{
    crate::network::message_round_trip(data, ttl, Seq::empty());
    assert(message_bytes(data, ttl) + Seq::<u8>::empty() =~= message_bytes(data, ttl));
}

/// The nonce that a counter that started at zero shows after `uses` uses.
pub open spec fn nonce_after(uses: nat) -> u64
    decreases uses,
{
    if uses == 0 {
        0
    } else {
        next_nonce(nonce_after((uses - 1) as nat))
    }
}

/// The `n`th message of a session uses nonce `n`.
proof fn nonce_counts(uses: nat)
    requires
        uses <= u64::MAX,
    ensures
        nonce_after(uses) == uses,
    decreases uses,
{
    if uses > 0 {
        nonce_counts((uses - 1) as nat);
    }
}

/// No two messages that one end of a session sends use the same nonce.
pub proof fn nonces_never_repeat(first: nat, second: nat)
    requires
        first < second <= u64::MAX,
    ensures
        nonce_after(first) != nonce_after(second),
        nonce_after(second) == second,
{
    nonce_counts(first);
    nonce_counts(second);
}

/// A relayed message never goes back to the peer it came from, and goes to
/// every other peer with a session.
pub proof fn relay_spares_the_sender(
    targets: Seq<(String, u64)>,
    sessions: Map<Seq<char>, u64>,
    from: Seq<char>,
)
    requires
        lists(targets, sessions.remove(from)),
    ensures
        forall|i: int| 0 <= i < targets.len() ==> (#[trigger] targets[i]).0@ != from,
        forall|a: Seq<char>| #[trigger]
            sessions.dom().contains(a) && a != from ==> exists|i: int|
                0 <= i < targets.len() && (#[trigger] targets[i]).0@ == a,
{
    let rest = sessions.remove(from);
    assert forall|i: int| 0 <= i < targets.len() implies (#[trigger] targets[i]).0@ != from by {
        assert(rest.dom().contains(targets[i].0@));
    }
    assert forall|a: Seq<char>| #[trigger] sessions.dom().contains(a) && a != from implies exists|
        i: int,
    | 0 <= i < targets.len() && (#[trigger] targets[i]).0@ == a by {
        assert(rest.dom().contains(a));
    }
}

/// A message stops after as many relays as it had hops: of the hops that a
/// chain of relayed copies carries, each one fewer than the last, there are
/// no more than the first had, and one.
pub proof fn hops_run_out(hops: Seq<u8>)
    requires
        hops.len() > 0,
        forall|i: int|
            0 <= i < hops.len() - 1 ==> (#[trigger] hops[i]) > 0 && hops[i + 1] == hops[i] - 1,
    ensures
        hops.len() <= hops[0] + 1,
    decreases hops.len(),
{
    if hops.len() > 1 {
        let rest = hops.drop_first();
        assert(hops[1] == hops[0] - 1);
        assert forall|i: int| 0 <= i < rest.len() - 1 implies (#[trigger] rest[i]) > 0 && rest[i + 1]
            == rest[i] - 1 by {
            assert(rest[i] == hops[i + 1]);
            assert(rest[i + 1] == hops[i + 1 + 1]);
        }
        hops_run_out(rest);
    }
}

} // verus!
