//! The application core: the in-memory message store and the envelopes it
//! wants sent.
use std::collections::VecDeque;
use vstd::prelude::*;
use vstd::string::*;
use vstd::utf8::encode_utf8;

use crate::bytes::{append_be_u64, append_bytes, be_bytes, copy_bytes, same_id};
use crate::clock::{unix_now, unix_timestamp};
use crate::envelope::{
    decode_envelope, decode_receipt, encode_receipt, envelope_bytes, envelope_round_trip,
    envelope_sized, parse_envelope, parse_receipt, receipt_bytes, receipt_round_trip,
    DeliveryStatus, Envelope, EnvelopeView, MessageId, MessageKind, NodeId, ReceiptPayload,
    ReceiptView, StoredMessage, StoredView, WireError,
};
use crate::hash::{sha3_256, sha3_256_digest};
use crate::id_map::IdMap;
use crate::ingress::MessageIngress;

verus! {

/// One outbound send that the core decided on but does not perform itself.
#[derive(Debug)]
pub struct PendingSend {
    pub recipient_node_id: NodeId,
    pub envelope: Envelope,
}

/// What a `PendingSend` holds, as mathematical values.
#[verifier::ext_equal]
pub struct PendingSendView {
    pub recipient_node_id: Seq<u8>,
    pub envelope: EnvelopeView,
}

impl View for PendingSend {
    type V = PendingSendView;

    open spec fn view(&self) -> PendingSendView {
        PendingSendView {
            recipient_node_id: self.recipient_node_id@,
            envelope: self.envelope@,
        }
    }
}

/// Application core: owns the message store.
pub struct MessengerCore {
    store: IdMap<StoredMessage>,
    local_node_id: NodeId,
    outbound: VecDeque<PendingSend>,
}

/// What a `MessengerCore` holds, as mathematical values.
#[verifier::ext_equal]
pub struct CoreView {
    /// Every message held, by its identifier.
    pub store: Map<Seq<u8>, StoredView>,
    pub local_node_id: Seq<u8>,
    /// Sends decided on and not yet handed out, oldest first.
    pub outbound: Seq<PendingSendView>,
}

impl View for MessengerCore {
    type V = CoreView;

    closed spec fn view(&self) -> CoreView {
        CoreView {
            store: self.store@,
            local_node_id: self.local_node_id@,
            outbound: self.outbound@.map_values(|p: PendingSend| p@),
        }
    }
}

// ── Model ──────────────────────────────────────────────────────────────────

/// What is hashed for the identifier of a delivery receipt: a tag, the
/// acknowledged message, the acknowledging node, and the time.
pub open spec fn receipt_id_input(original_id: Seq<u8>, local: Seq<u8>, at: u64) -> Seq<u8> {
    receipt_tag() + original_id + local + be_bytes(at as nat, 8)
}

/// What sets receipt identifiers apart from other digests.
pub open spec fn receipt_tag() -> Seq<u8> {
    encode_utf8("primus-messenger-core:delivery-receipt"@)
}

/// The receipt that `local` sends for `original`, stored at `at`.
pub open spec fn receipt_for(original: EnvelopeView, local: Seq<u8>, at: u64) -> PendingSendView {
    PendingSendView {
        recipient_node_id: original.sender_node_id,
        envelope: EnvelopeView {
            message_id: sha3_256(receipt_id_input(original.message_id, local, at))@,
            sender_node_id: local,
            recipient_node_id: original.sender_node_id,
            ciphertext: receipt_bytes(
                ReceiptView { message_id: original.message_id, received_at: at },
            ),
            sent_at: at,
            kind: MessageKind::DeliveryReceipt,
        },
    }
}

impl CoreView {
    /// The core with the status of message `id` changed, if it holds one.
    pub open spec fn with_status(self, id: Seq<u8>, status: DeliveryStatus) -> CoreView {
        if self.store.dom().contains(id) {
            CoreView {
                store: self.store.insert(
                    id,
                    StoredView { envelope: self.store[id].envelope, status },
                ),
                ..self
            }
        } else {
            self
        }
    }

    /// The core with `envelope` stored under `status`.
    pub open spec fn with_stored(self, envelope: EnvelopeView, status: DeliveryStatus) -> CoreView {
        CoreView {
            store: self.store.insert(envelope.message_id, StoredView { envelope, status }),
            ..self
        }
    }

    /// The core with `send` queued last.
    pub open spec fn with_outbound(self, send: PendingSendView) -> CoreView {
        CoreView { outbound: self.outbound.push(send), ..self }
    }

    /// The core after recording an outbound message. Only direct messages
    /// are tracked, and a message already held keeps its status.
    pub open spec fn recorded(self, envelope: EnvelopeView) -> CoreView {
        if envelope.kind != MessageKind::DirectMessage || self.store.dom().contains(
            envelope.message_id,
        ) {
            self
        } else {
            self.with_stored(envelope, DeliveryStatus::Sent)
        }
    }

    /// The core, and the answer, after the receipt with content `content`.
    pub open spec fn receipt_taken(self, content: Seq<u8>) -> (CoreView, Result<bool, WireError>) {
        match parse_receipt(content) {
            None => (self, Err(WireError::MalformedReceipt)),
            Some(p) => if self.store.dom().contains(p.message_id)
                && self.store[p.message_id].status != DeliveryStatus::Delivered {
                (self.with_status(p.message_id, DeliveryStatus::Delivered), Ok(true))
            } else {
                (self, Ok(false))
            },
        }
    }

    /// The core, and the answer, after `envelope` arrived at `now`.
    pub open spec fn envelope_taken(self, envelope: EnvelopeView, now: u64) -> (
        CoreView,
        Result<bool, WireError>,
    ) {
        if envelope.kind == MessageKind::DeliveryReceipt {
            self.receipt_taken(envelope.ciphertext)
        } else if self.store.dom().contains(envelope.message_id) {
            (self, Ok(false))
        } else if envelope.kind == MessageKind::DirectMessage {
            (
                self.with_stored(envelope, DeliveryStatus::Delivered).with_outbound(
                    receipt_for(envelope, self.local_node_id, now),
                ),
                Ok(true),
            )
        } else {
            (self.with_stored(envelope, DeliveryStatus::Delivered), Ok(true))
        }
    }

    /// The core, and the answer, after `bytes` arrived at `now`.
    pub open spec fn bytes_taken(self, bytes: Seq<u8>, now: u64) -> (
        CoreView,
        Result<bool, WireError>,
    ) {
        match parse_envelope(bytes) {
            None => (self, Err(WireError::MalformedEnvelope)),
            Some(e) => self.envelope_taken(e, now),
        }
    }
}

/// Whether a message is part of the conversation with `peer`.
pub open spec fn belongs(m: StoredView, peer: Seq<u8>) -> bool {
    m.envelope.kind == MessageKind::DirectMessage && (m.envelope.sender_node_id == peer
        || m.envelope.recipient_node_id == peer)
}

/// Whether `m` is held under `id` and part of the conversation with `peer`.
pub open spec fn is_entry(
    store: Map<Seq<u8>, StoredView>,
    peer: Seq<u8>,
    id: Seq<u8>,
    m: StoredView,
) -> bool {
    store.dom().contains(id) && store[id] == m && m.envelope.message_id == id && belongs(m, peer)
}

/// Whether no message is older than one in front of it.
pub open spec fn by_age(list: Seq<StoredMessage>) -> bool {
    forall|m: int, n: int|
        0 <= m < n < list.len() ==> (#[trigger] list[m])@.envelope.sent_at <= (
        #[trigger] list[n])@.envelope.sent_at
}

/// Whether `list` is the conversation with `peer`: every message of it that
/// is held, each once, oldest first.
pub open spec fn is_conversation(
    list: Seq<StoredMessage>,
    store: Map<Seq<u8>, StoredView>,
    peer: Seq<u8>,
) -> bool {
    &&& by_age(list)
    &&& forall|m: int|
        0 <= m < list.len() ==> is_entry(
            store,
            peer,
            (#[trigger] list[m])@.envelope.message_id,
            list[m]@,
        )
    &&& forall|k: Seq<u8>| #[trigger]
        store.dom().contains(k) && belongs(store[k], peer) ==> exists|m: int|
            0 <= m < list.len() && (#[trigger] list[m])@ == store[k]
    &&& forall|m: int, n: int|
        0 <= m < n < list.len() ==> (#[trigger] list[m])@.envelope.message_id != (
        #[trigger] list[n])@.envelope.message_id
}

// ── Implementation ─────────────────────────────────────────────────────────

/// Behind which messages one sent at `sent_at` comes.
fn age_position(list: &Vec<StoredMessage>, sent_at: u64) -> (at: usize)
    requires
        by_age(list@),
    ensures
        at <= list@.len(),
        forall|m: int| 0 <= m < at ==> (#[trigger] list@[m])@.envelope.sent_at <= sent_at,
        forall|m: int| at <= m < list@.len() ==> sent_at < (#[trigger] list@[m])@.envelope.sent_at,
{
    let mut at: usize = list.len();
    while at > 0 && sent_at < list[at - 1].envelope.sent_at
        invariant
            at <= list@.len(),
            forall|m: int|
                at <= m < list@.len() ==> sent_at < (#[trigger] list@[m])@.envelope.sent_at,
        decreases at,
    {
        at = at - 1;
    }
    if at > 0 {
        assert(list@[at - 1]@.envelope.sent_at <= sent_at);
    }
    at
}

/// A message put in its place keeps the order.
proof fn age_grows(list: Seq<StoredMessage>, at: int, added: StoredMessage)
    requires
        by_age(list),
        0 <= at <= list.len(),
        forall|m: int|
            0 <= m < at ==> (#[trigger] list[m])@.envelope.sent_at <= added@.envelope.sent_at,
        forall|m: int|
            at <= m < list.len() ==> added@.envelope.sent_at < (
            #[trigger] list[m])@.envelope.sent_at,
    ensures
        by_age(list.insert(at, added)),
{
    let after = list.insert(at, added);
    assert forall|m: int, n: int| 0 <= m < n < after.len() implies (
    #[trigger] after[m])@.envelope.sent_at <= (#[trigger] after[n])@.envelope.sent_at by {
        if m != at {
            assert(after[m] == list[if m < at { m } else { m - 1 }]);
        }
        if n != at {
            assert(after[n] == list[if n < at { n } else { n - 1 }]);
        }
    }
}

/// A message with a new identifier keeps the identifiers distinct.
proof fn ids_grow(list: Seq<StoredMessage>, at: int, added: StoredMessage)
    requires
        0 <= at <= list.len(),
        forall|m: int, n: int|
            0 <= m < n < list.len() ==> (#[trigger] list[m])@.envelope.message_id != (
            #[trigger] list[n])@.envelope.message_id,
        forall|m: int|
            0 <= m < list.len() ==> (#[trigger] list[m])@.envelope.message_id
                != added@.envelope.message_id,
    ensures
        forall|m: int, n: int|
            0 <= m < n < list.len() + 1 ==> (#[trigger] list.insert(
                at,
                added,
            )[m])@.envelope.message_id != (#[trigger] list.insert(
                at,
                added,
            )[n])@.envelope.message_id,
{
    let after = list.insert(at, added);
    assert forall|m: int, n: int| 0 <= m < n < after.len() implies (
    #[trigger] after[m])@.envelope.message_id != (#[trigger] after[n])@.envelope.message_id by {
        if m != at {
            assert(after[m] == list[if m < at { m } else { m - 1 }]);
        }
        if n != at {
            assert(after[n] == list[if n < at { n } else { n - 1 }]);
        }
    }
}

/// One more message that belongs to the conversation, put in its place.
#[verifier::rlimit(40)]
proof fn conversation_grows(
    list: Seq<StoredMessage>,
    at: int,
    added: StoredMessage,
    store: Map<Seq<u8>, StoredView>,
    peer: Seq<u8>,
    done: Set<Seq<u8>>,
    key: Seq<u8>,
)
    requires
        is_conversation(list, store.restrict(done), peer),
        !done.contains(key),
        is_entry(store, peer, key, added@),
        0 <= at <= list.len(),
        forall|m: int|
            0 <= m < at ==> (#[trigger] list[m])@.envelope.sent_at <= added@.envelope.sent_at,
        forall|m: int|
            at <= m < list.len() ==> added@.envelope.sent_at < (
            #[trigger] list[m])@.envelope.sent_at,
    ensures
        is_conversation(list.insert(at, added), store.restrict(done.insert(key)), peer),
{
    let after = list.insert(at, added);
    let some = store.restrict(done);
    let more = store.restrict(done.insert(key));
    age_grows(list, at, added);
    assert forall|m: int| 0 <= m < list.len() implies (#[trigger] list[m])@.envelope.message_id
        != added@.envelope.message_id by {
        assert(is_entry(some, peer, list[m]@.envelope.message_id, list[m]@));
    }
    ids_grow(list, at, added);
    assert forall|m: int| 0 <= m < after.len() implies is_entry(
        more,
        peer,
        (#[trigger] after[m])@.envelope.message_id,
        after[m]@,
    ) by {
        if m != at {
            let o = if m < at { m } else { m - 1 };
            assert(after[m] == list[o]);
            assert(is_entry(some, peer, list[o]@.envelope.message_id, list[o]@));
        }
    }
    assert forall|k: Seq<u8>| #[trigger] more.dom().contains(k) && belongs(more[k], peer) implies exists|
        m: int,
    | 0 <= m < after.len() && (#[trigger] after[m])@ == more[k] by {
        if k == key {
            assert(after[at]@ == more[k]);
        } else {
            assert(some.dom().contains(k));
            let o = choose|o: int| 0 <= o < list.len() && (#[trigger] list[o])@ == some[k];
            let m = if o < at { o } else { o + 1 };
            assert(after[m] == list[o]);
        }
    }
}

/// One more message that does not belong to the conversation.
proof fn conversation_skips(
    list: Seq<StoredMessage>,
    store: Map<Seq<u8>, StoredView>,
    peer: Seq<u8>,
    done: Set<Seq<u8>>,
    key: Seq<u8>,
)
    requires
        is_conversation(list, store.restrict(done), peer),
        !belongs(store[key], peer),
    ensures
        is_conversation(list, store.restrict(done.insert(key)), peer),
{
    let some = store.restrict(done);
    let more = store.restrict(done.insert(key));
    assert forall|m: int| 0 <= m < list.len() implies is_entry(
        more,
        peer,
        (#[trigger] list[m])@.envelope.message_id,
        list[m]@,
    ) by {
        assert(is_entry(some, peer, list[m]@.envelope.message_id, list[m]@));
    }
    assert forall|k: Seq<u8>| #[trigger] more.dom().contains(k) && belongs(more[k], peer) implies exists|
        m: int,
    | 0 <= m < list.len() && (#[trigger] list[m])@ == more[k] by {
        assert(some.dom().contains(k));
    }
}

/// The identifier of a delivery receipt.
pub fn receipt_id(original_id: &MessageId, local_node_id: &NodeId, received_at: u64) -> (out:
    MessageId)
    ensures
        out == sha3_256(receipt_id_input(original_id@, local_node_id@, received_at)),
{
    let mut input = copy_bytes("primus-messenger-core:delivery-receipt".as_bytes());
    append_bytes(&mut input, original_id.as_slice());
    append_bytes(&mut input, local_node_id.as_slice());
    append_be_u64(&mut input, received_at);
    assert(input@ =~= receipt_id_input(original_id@, local_node_id@, received_at));
    sha3_256_digest(input.as_slice())
}

impl MessengerCore {
    /// Every message is held under its own identifier.
    pub closed spec fn wf(self) -> bool {
        &&& self.store.wf()
        &&& forall|k: Seq<u8>| #[trigger]
            self.store@.dom().contains(k) ==> self.store@[k].envelope.message_id == k
    }

    /// Every message is held under its own identifier.
    pub proof fn held_under_own_id(self, id: Seq<u8>)
        requires
            self.wf(),
            self@.store.dom().contains(id),
        ensures
            self@.store[id].envelope.message_id == id,
    {
    }

    /// A core for the node `local_node_id`, holding nothing.
    pub fn new(local_node_id: NodeId) -> (out: Self)
        ensures
            out.wf(),
            out@ == (CoreView {
                store: Map::empty(),
                local_node_id: local_node_id@,
                outbound: Seq::empty(),
            }),
    {
        let out = MessengerCore {
            store: IdMap::new(),
            local_node_id,
            outbound: VecDeque::new(),
        };
        assert(out@.outbound =~= Seq::empty());
        out
    }

    /// A copy of the message `id`, received or originated here.
    pub fn get(&self, id: &MessageId) -> (out: Option<StoredMessage>)
        requires
            self.wf(),
        ensures
            match out {
                Some(m) => self@.store.dom().contains(id@) && m@ == self@.store[id@],
                None => !self@.store.dom().contains(id@),
            },
    {
        match self.store.get(id) {
            Some(m) => Some(m.clone()),
            None => None,
        }
    }

    /// Number of messages held.
    pub fn len(&self) -> (n: usize)
        requires
            self.wf(),
        ensures
            n == self@.store.dom().len(),
            self@.store.dom().finite(),
    {
        self.store.len()
    }

    /// The direct messages held that were sent to or by `peer`, each once,
    /// oldest first.
    pub fn conversation(&self, peer: &NodeId) -> (out: Vec<StoredMessage>)
        requires
            self.wf(),
        ensures
            is_conversation(out@, self@.store, peer@),
    {
        let keys = self.store.keys();
        let mut out: Vec<StoredMessage> = Vec::new();
        let mut i: usize = 0;
        let ghost mut done = Set::<Seq<u8>>::empty();
        while i < keys.len()
            invariant
                self.wf(),
                i <= keys@.len(),
                forall|j: int|
                    0 <= j < keys@.len() ==> self.store@.dom().contains((#[trigger] keys@[j])@),
                forall|j: int, k: int|
                    0 <= j < k < keys@.len() ==> (#[trigger] keys@[j])@ != (#[trigger] keys@[k])@,
                forall|j: int| 0 <= j < i ==> done.contains((#[trigger] keys@[j])@),
                forall|j: int| i <= j < keys@.len() ==> !done.contains((#[trigger] keys@[j])@),
                is_conversation(out@, self.store@.restrict(done), peer@),
            decreases keys@.len() - i,
        {
            let ghost before = out@;
            let ghost key = keys@[i as int]@;
            match self.store.get(&keys[i]) {
                Some(stored) => {
                    if stored.envelope.kind == MessageKind::DirectMessage && (same_id(
                        &stored.envelope.sender_node_id,
                        peer,
                    ) || same_id(&stored.envelope.recipient_node_id, peer)) {
                        let message = stored.clone();
                        let ghost added = message;
                        let at = age_position(&out, message.envelope.sent_at);
                        out.insert(at, message);
                        proof {
                            conversation_grows(
                                before,
                                at as int,
                                added,
                                self.store@,
                                peer@,
                                done,
                                key,
                            );
                        }
                    } else {
                        proof {
                            conversation_skips(before, self.store@, peer@, done, key);
                        }
                    }
                },
                None => {},
            }
            proof {
                done = done.insert(key);
            }
            i = i + 1;
        }
        assert(self.store@.restrict(done) =~= self@.store);
        out
    }

    /// Takes the oldest queued send.
    pub fn next_outbound(&mut self) -> (out: Option<PendingSend>)
        requires
            old(self).wf(),
        ensures
            final(self).wf(),
            match out {
                Some(p) => old(self)@.outbound.len() > 0 && p@ == old(self)@.outbound[0]
                    && final(self)@ == (CoreView {
                    outbound: old(self)@.outbound.drop_first(),
                    ..old(self)@
                }),
                None => old(self)@.outbound.len() == 0 && final(self)@ == old(self)@,
            },
    {
        let out = self.outbound.pop_front();
        proof {
            if old(self).outbound@.len() > 0 {
                assert(self@.outbound =~= old(self)@.outbound.drop_first());
            } else {
                assert(self@.outbound =~= old(self)@.outbound);
            }
        }
        out
    }

    /// Records that `envelope` is being sent by this node, so that a later
    /// receipt has something to update. Does nothing for any kind but
    /// `DirectMessage`, and never overwrites a message already held.
    pub fn record_sent(&mut self, envelope: Envelope)
        requires
            old(self).wf(),
        ensures
            final(self).wf(),
            final(self)@ == old(self)@.recorded(envelope@),
    {
        if envelope.kind != MessageKind::DirectMessage {
            return;
        }
        if !self.store.contains_key(&envelope.message_id) {
            let id = envelope.message_id;
            self.store.insert(id, StoredMessage { envelope, status: DeliveryStatus::Sent });
        }
    }

    /// Sets the status of message `id`, if it is held.
    fn set_status(&mut self, id: &MessageId, status: DeliveryStatus)
        requires
            old(self).wf(),
        ensures
            final(self).wf(),
            final(self)@ == old(self)@.with_status(id@, status),
    {
        match self.store.remove(id) {
            Some(stored) => {
                self.store.insert(*id, StoredMessage { envelope: stored.envelope, status });
                assert(self@.store =~= old(self)@.with_status(id@, status).store);
            },
            None => {
                assert(self@.store =~= old(self)@.store);
            },
        }
    }

    /// Marks a message as failed at the transport level. Does nothing for a
    /// message that is not held.
    pub fn mark_failed(&mut self, message_id: &MessageId)
        requires
            old(self).wf(),
        ensures
            final(self).wf(),
            final(self)@ == old(self)@.with_status(message_id@, DeliveryStatus::Failed),
    {
        self.set_status(message_id, DeliveryStatus::Failed);
    }

    /// Stores a received envelope unless its identifier is already held.
    /// Returns whether it was stored.
    fn store_new(&mut self, envelope: Envelope) -> (is_new: bool)
        requires
            old(self).wf(),
        ensures
            final(self).wf(),
            is_new == !old(self)@.store.dom().contains(envelope.message_id@),
            final(self)@ == if is_new {
                old(self)@.with_stored(envelope@, DeliveryStatus::Delivered)
            } else {
                old(self)@
            },
    {
        if self.store.contains_key(&envelope.message_id) {
            return false;
        }
        let id = envelope.message_id;
        self.store.insert(id, StoredMessage { envelope, status: DeliveryStatus::Delivered });
        true
    }

    /// Queues a delivery receipt for `original`, stamped `received_at`.
    fn queue_receipt(&mut self, original: &Envelope, received_at: u64)
        requires
            old(self).wf(),
        ensures
            final(self).wf(),
            final(self)@ == old(self)@.with_outbound(
                receipt_for(original@, old(self)@.local_node_id, received_at),
            ),
    {
        let payload = ReceiptPayload { message_id: original.message_id, received_at };
        let ciphertext = match encode_receipt(&payload) {
            Ok(bytes) => bytes,
            Err(_) => return,
        };
        let receipt = Envelope {
            message_id: receipt_id(&original.message_id, &self.local_node_id, received_at),
            sender_node_id: self.local_node_id,
            recipient_node_id: original.sender_node_id,
            ciphertext,
            sent_at: received_at,
            kind: MessageKind::DeliveryReceipt,
        };
        let send = PendingSend { recipient_node_id: original.sender_node_id, envelope: receipt };
        let ghost queued = send@;
        self.outbound.push_back(send);
        assert(queued =~= receipt_for(original@, old(self)@.local_node_id, received_at));
        assert(self@.outbound =~= old(self)@.outbound.push(queued));
    }

    /// Marks the message named in `receipt`'s content as delivered, if it
    /// is held and not already so.
    fn ingest_receipt(&mut self, receipt: &Envelope) -> (out: Result<bool, WireError>)
        requires
            old(self).wf(),
        ensures
            final(self).wf(),
            (final(self)@, out) == old(self)@.receipt_taken(receipt.ciphertext@),
    {
        let payload = match decode_receipt(receipt.ciphertext.as_slice()) {
            Ok(payload) => payload,
            Err(e) => return Err(e),
        };
        let pending = match self.store.get(&payload.message_id) {
            Some(stored) => stored.status != DeliveryStatus::Delivered,
            None => false,
        };
        if pending {
            self.set_status(&payload.message_id, DeliveryStatus::Delivered);
        }
        Ok(pending)
    }

    /// Takes envelope bytes that arrived at `now`.
    pub fn on_envelope_at(&mut self, bytes: &[u8], now: u64) -> (out: Result<bool, WireError>)
        requires
            old(self).wf(),
        ensures
            final(self).wf(),
            (final(self)@, out) == old(self)@.bytes_taken(bytes@, now),
    {
        let envelope = match decode_envelope(bytes) {
            Ok(envelope) => envelope,
            Err(e) => return Err(e),
        };
        if envelope.kind == MessageKind::DeliveryReceipt {
            return self.ingest_receipt(&envelope);
        }
        let is_new = self.store_new(envelope.clone());
        if is_new && envelope.kind == MessageKind::DirectMessage {
            self.queue_receipt(&envelope, now);
        }
        Ok(is_new)
    }
}

impl MessageIngress for MessengerCore {
    open spec fn ready(&self) -> bool {
        self.wf()
    }

    /// The bytes are taken at a time that the clock shows.
    open spec fn taken(&self, bytes: Seq<u8>, after: Self, out: Result<bool, WireError>) -> bool {
        exists|time: std::time::SystemTime|
            (after@, out) == self@.bytes_taken(bytes, #[trigger] unix_timestamp(time))
    }

    /// Takes envelope bytes at the time that the clock shows.
    fn on_envelope(&mut self, bytes: &[u8]) -> (out: Result<bool, WireError>) {
        let now: u64 = unix_now();
        self.on_envelope_at(bytes, now)
    }
}

// ── Laws ───────────────────────────────────────────────────────────────────

/// A delivery receipt never causes another send: whatever arrives as a
/// receipt leaves the queue of sends as it was.
pub proof fn receipts_queue_nothing(core: CoreView, bytes: Seq<u8>, now: u64)
    requires
        parse_envelope(bytes) is Some,
        parse_envelope(bytes)->0.kind == MessageKind::DeliveryReceipt,
    ensures
        core.bytes_taken(bytes, now).0.outbound == core.outbound,
{
}

/// A new direct message is stored as delivered and queues exactly one
/// receipt: from this node to the message's sender, naming the message and
/// the time, under an identifier that all of these determine.
pub proof fn new_message_queues_one_receipt(core: CoreView, envelope: EnvelopeView, now: u64)
    requires
        envelope_sized(
            envelope.message_id,
            envelope.sender_node_id,
            envelope.recipient_node_id,
            envelope.ciphertext,
        ),
        envelope.kind == MessageKind::DirectMessage,
        !core.store.dom().contains(envelope.message_id),
    ensures
        ({
            let (after, answer) = core.bytes_taken(envelope_bytes(envelope), now);
            let receipt = after.outbound.last();
            &&& answer == Ok::<bool, WireError>(true)
            &&& after.store == core.store.insert(
                envelope.message_id,
                StoredView { envelope, status: DeliveryStatus::Delivered },
            )
            &&& after.outbound.len() == core.outbound.len() + 1
            &&& after.outbound.drop_last() == core.outbound
            &&& after.local_node_id == core.local_node_id
            &&& receipt.recipient_node_id == envelope.sender_node_id
            &&& receipt.envelope.sender_node_id == core.local_node_id
            &&& receipt.envelope.recipient_node_id == envelope.sender_node_id
            &&& receipt.envelope.sent_at == now
            &&& receipt.envelope.message_id == sha3_256(
                encode_utf8("primus-messenger-core:delivery-receipt"@) + envelope.message_id
                    + core.local_node_id + be_bytes(now as nat, 8),
            )@
            &&& receipt.envelope.kind == MessageKind::DeliveryReceipt
            &&& parse_receipt(receipt.envelope.ciphertext) == Some(
                ReceiptView { message_id: envelope.message_id, received_at: now },
            )
        }),
{
    let s = envelope_bytes(envelope);
    envelope_round_trip(envelope, Seq::empty());
    assert(s + Seq::<u8>::empty() =~= s);
    let p = ReceiptView { message_id: envelope.message_id, received_at: now };
    receipt_round_trip(p, Seq::empty());
    assert(receipt_bytes(p) + Seq::<u8>::empty() =~= receipt_bytes(p));
    let after = core.bytes_taken(s, now).0;
    assert(after.outbound.drop_last() =~= core.outbound);
}

/// A receipt that names a held message leaves it delivered, whatever its
/// status was, sent or failed. It is news exactly where the message was not
/// delivered before, and nothing else changes.
pub proof fn receipts_deliver_their_message(
    core: CoreView,
    bytes: Seq<u8>,
    receipt: EnvelopeView,
    named: ReceiptView,
    now: u64,
)
    requires
        parse_envelope(bytes) == Some(receipt),
        receipt.kind == MessageKind::DeliveryReceipt,
        parse_receipt(receipt.ciphertext) == Some(named),
        core.store.dom().contains(named.message_id),
    ensures
        ({
            let (after, answer) = core.bytes_taken(bytes, now);
            let id = named.message_id;
            &&& after.store.dom() == core.store.dom()
            &&& after.store[id].status == DeliveryStatus::Delivered
            &&& after.store[id].envelope == core.store[id].envelope
            &&& after.store.remove(id) == core.store.remove(id)
            &&& after.outbound == core.outbound
            &&& after.local_node_id == core.local_node_id
            &&& answer == Ok::<bool, WireError>(core.store[id].status != DeliveryStatus::Delivered)
        }),
{
    let after = core.bytes_taken(bytes, now).0;
    assert(after.store.dom() =~= core.store.dom());
    assert(after.store.remove(named.message_id) =~= core.store.remove(named.message_id));
}

/// A receipt for a message that is not held is dropped, and one whose
/// content is no receipt refused. Neither changes anything.
pub proof fn stray_receipts_change_nothing(
    core: CoreView,
    bytes: Seq<u8>,
    receipt: EnvelopeView,
    now: u64,
)
    requires
        parse_envelope(bytes) == Some(receipt),
        receipt.kind == MessageKind::DeliveryReceipt,
        match parse_receipt(receipt.ciphertext) {
            Some(named) => !core.store.dom().contains(named.message_id),
            None => true,
        },
    ensures
        core.bytes_taken(bytes, now).0 == core,
        core.bytes_taken(bytes, now).1 == if parse_receipt(receipt.ciphertext) is Some {
            Ok::<bool, WireError>(false)
        } else {
            Err(WireError::MalformedReceipt)
        },
{
}

/// Whatever is new and no receipt is stored as it came, as delivered, and
/// leaves every other message alone. Only a direct message queues a send.
pub proof fn new_envelopes_are_stored(
    core: CoreView,
    bytes: Seq<u8>,
    envelope: EnvelopeView,
    now: u64,
)
    requires
        parse_envelope(bytes) == Some(envelope),
        envelope.kind != MessageKind::DeliveryReceipt,
        !core.store.dom().contains(envelope.message_id),
    ensures
        ({
            let (after, answer) = core.bytes_taken(bytes, now);
            let id = envelope.message_id;
            &&& answer == Ok::<bool, WireError>(true)
            &&& after.store.dom() == core.store.dom().insert(id)
            &&& after.store[id].envelope == envelope
            &&& after.store[id].status == DeliveryStatus::Delivered
            &&& after.store.remove(id) == core.store
            &&& after.outbound.len() == core.outbound.len() + if envelope.kind
                == MessageKind::DirectMessage {
                1int
            } else {
                0
            }
        }),
{
    let after = core.bytes_taken(bytes, now).0;
    assert(after.store.dom() =~= core.store.dom().insert(envelope.message_id));
    assert(after.store.remove(envelope.message_id) =~= core.store);
}

/// A direct message that this node sends is held as sent from then on,
/// unless it was held before; what else is sent, and what was held before,
/// is left alone.
pub proof fn recording_tracks_direct_messages(core: CoreView, envelope: EnvelopeView)
    ensures
        ({
            let after = core.recorded(envelope);
            let id = envelope.message_id;
            let new = envelope.kind == MessageKind::DirectMessage && !core.store.dom().contains(
                id,
            );
            &&& !new ==> after == core
            &&& new ==> {
                &&& after.store.dom() == core.store.dom().insert(id)
                &&& after.store[id].envelope == envelope
                &&& after.store[id].status == DeliveryStatus::Sent
                &&& after.store.remove(id) == core.store
                &&& after.outbound == core.outbound
                &&& after.local_node_id == core.local_node_id
            }
        }),
{
    let after = core.recorded(envelope);
    if envelope.kind == MessageKind::DirectMessage && !core.store.dom().contains(
        envelope.message_id,
    ) {
        assert(after.store.dom() =~= core.store.dom().insert(envelope.message_id));
        assert(after.store.remove(envelope.message_id) =~= core.store);
    }
}

/// Setting a status changes that of one message and nothing else; for a
/// message that is not held it changes nothing.
pub proof fn marking_changes_one_message(core: CoreView, id: Seq<u8>, status: DeliveryStatus)
    ensures
        ({
            let after = core.with_status(id, status);
            &&& !core.store.dom().contains(id) ==> after == core
            &&& core.store.dom().contains(id) ==> {
                &&& after.store.dom() == core.store.dom()
                &&& after.store[id].status == status
                &&& after.store[id].envelope == core.store[id].envelope
                &&& after.store.remove(id) == core.store.remove(id)
                &&& after.outbound == core.outbound
                &&& after.local_node_id == core.local_node_id
            }
        }),
{
    let after = core.with_status(id, status);
    if core.store.dom().contains(id) {
        assert(after.store.dom() =~= core.store.dom());
        assert(after.store.remove(id) =~= core.store.remove(id));
    }
}

/// A message whose first send failed ends as delivered all the same once its
/// receipt arrives.
pub proof fn failed_messages_can_be_confirmed(
    core: CoreView,
    sent: EnvelopeView,
    bytes: Seq<u8>,
    receipt: EnvelopeView,
    at: u64,
    now: u64,
)
    requires
        sent.kind == MessageKind::DirectMessage,
        !core.store.dom().contains(sent.message_id),
        parse_envelope(bytes) == Some(receipt),
        receipt.kind == MessageKind::DeliveryReceipt,
        parse_receipt(receipt.ciphertext) == Some(
            ReceiptView { message_id: sent.message_id, received_at: at },
        ),
    ensures
        ({
            let failed = core.recorded(sent).with_status(sent.message_id, DeliveryStatus::Failed);
            let (after, answer) = failed.bytes_taken(bytes, now);
            &&& failed.store[sent.message_id].status == DeliveryStatus::Failed
            &&& after.store[sent.message_id].status == DeliveryStatus::Delivered
            &&& answer == Ok::<bool, WireError>(true)
        }),
{
}

/// A conversation lists exactly the direct messages held that the peer sent
/// or is to receive, each once, and none behind a younger one.
pub proof fn conversations_are_complete(
    list: Seq<StoredMessage>,
    store: Map<Seq<u8>, StoredView>,
    peer: Seq<u8>,
    id: Seq<u8>,
)
    requires
        is_conversation(list, store, peer),
        store.dom().contains(id),
        store[id].envelope.message_id == id,
    ensures
        (exists|m: int| 0 <= m < list.len() && (#[trigger] list[m])@ == store[id]) <==> (
        store[id].envelope.kind == MessageKind::DirectMessage && (
        store[id].envelope.sender_node_id == peer || store[id].envelope.recipient_node_id
            == peer)),
        forall|m: int|
            0 <= m < list.len() ==> store.dom().contains(
                (#[trigger] list[m])@.envelope.message_id,
            ) && store[list[m]@.envelope.message_id] == list[m]@,
        forall|m: int, n: int|
            0 <= m < n < list.len() ==> (#[trigger] list[m])@.envelope.sent_at <= (
            #[trigger] list[n])@.envelope.sent_at && list[m]@.envelope.message_id
                != list[n]@.envelope.message_id,
{
    if exists|m: int| 0 <= m < list.len() && (#[trigger] list[m])@ == store[id] {
        let m = choose|m: int| 0 <= m < list.len() && (#[trigger] list[m])@ == store[id];
        assert(is_entry(store, peer, list[m]@.envelope.message_id, list[m]@));
    }
    if belongs(store[id], peer) {
        assert(store.dom().contains(id) && belongs(store[id], peer));
    }
    assert forall|m: int| 0 <= m < list.len() implies store.dom().contains(
        (#[trigger] list[m])@.envelope.message_id,
    ) && store[list[m]@.envelope.message_id] == list[m]@ by {
        assert(is_entry(store, peer, list[m]@.envelope.message_id, list[m]@));
    }
}

/// A message whose identifier is already held changes nothing, whatever
/// its content.
pub proof fn duplicates_change_nothing(core: CoreView, bytes: Seq<u8>, now: u64)
    requires
        parse_envelope(bytes) is Some,
        parse_envelope(bytes)->0.kind != MessageKind::DeliveryReceipt,
        core.store.dom().contains(parse_envelope(bytes)->0.message_id),
    ensures
        core.bytes_taken(bytes, now) == (core, Ok::<bool, WireError>(false)),
{
}

/// Bytes delivered a second time change nothing and are never news.
pub proof fn second_arrival_changes_nothing(core: CoreView, bytes: Seq<u8>, now: u64, later: u64)
    ensures
        ({
            let (once, first) = core.bytes_taken(bytes, now);
            let (twice, second) = once.bytes_taken(bytes, later);
            &&& twice == once
            &&& second != Ok::<bool, WireError>(true)
            &&& (first is Err <==> second is Err)
        }),
{
}

/// Malformed bytes are refused and change nothing.
pub proof fn malformed_bytes_change_nothing(core: CoreView, bytes: Seq<u8>, now: u64)
    ensures
        parse_envelope(bytes) is None <==> core.bytes_taken(bytes, now).1 == Err::<bool, WireError>(
            WireError::MalformedEnvelope,
        ),
        core.bytes_taken(bytes, now).1 is Err ==> core.bytes_taken(bytes, now).0 == core,
{
}

/// `Ok(true)` is answered exactly when the store changed.
pub proof fn news_is_a_change(core: CoreView, bytes: Seq<u8>, now: u64)
    ensures
        core.bytes_taken(bytes, now).1 == Ok::<bool, WireError>(true) <==> core.bytes_taken(
            bytes,
            now,
        ).0.store != core.store,
{
    if let Some(e) = parse_envelope(bytes) {
        let after = core.bytes_taken(bytes, now).0.store;
        if e.kind == MessageKind::DeliveryReceipt {
            if let Some(p) = parse_receipt(e.ciphertext) {
                if core.store.dom().contains(p.message_id) && core.store[p.message_id].status
                    != DeliveryStatus::Delivered {
                    assert(after[p.message_id].status == DeliveryStatus::Delivered);
                }
            }
        } else if !core.store.dom().contains(e.message_id) {
            assert(after.dom().contains(e.message_id));
        }
    }
}

/// No operation drops a message or changes the envelope stored for it.
pub proof fn stored_envelopes_stay(
    core: CoreView,
    bytes: Seq<u8>,
    now: u64,
    sent: EnvelopeView,
    failed: Seq<u8>,
    id: Seq<u8>,
)
    requires
        core.store.dom().contains(id),
    ensures
        ({
            let taken = core.bytes_taken(bytes, now).0;
            let recorded = core.recorded(sent);
            let marked = core.with_status(failed, DeliveryStatus::Failed);
            &&& taken.store.dom().contains(id)
            &&& taken.store[id].envelope == core.store[id].envelope
            &&& recorded.store.dom().contains(id)
            &&& recorded.store[id] == core.store[id]
            &&& marked.store.dom().contains(id)
            &&& marked.store[id].envelope == core.store[id].envelope
        }),
{
}

/// Whatever arrives, a message that is delivered stays delivered.
pub proof fn delivered_stays_delivered(core: CoreView, bytes: Seq<u8>, now: u64, id: Seq<u8>)
    requires
        core.store.dom().contains(id),
        core.store[id].status == DeliveryStatus::Delivered,
    ensures
        core.bytes_taken(bytes, now).0.store[id].status == DeliveryStatus::Delivered,
{
}

/// What a node sends with tracking, and the other node receives, ends as
/// delivered on the sender's side once the queued receipt comes back.
pub proof fn delivery_is_confirmed(
    sender: CoreView,
    receiver: CoreView,
    envelope: EnvelopeView,
    received_at: u64,
    confirmed_at: u64,
)
    requires
        envelope_sized(
            envelope.message_id,
            envelope.sender_node_id,
            envelope.recipient_node_id,
            envelope.ciphertext,
        ),
        receiver.local_node_id.len() == 32,
        envelope.kind == MessageKind::DirectMessage,
        !sender.store.dom().contains(envelope.message_id),
        !receiver.store.dom().contains(envelope.message_id),
    ensures
        ({
            let sent = sender.recorded(envelope);
            let received = receiver.bytes_taken(envelope_bytes(envelope), received_at).0;
            let receipt = received.outbound.last().envelope;
            let (confirmed, answer) = sent.bytes_taken(envelope_bytes(receipt), confirmed_at);
            &&& sent.store[envelope.message_id].status == DeliveryStatus::Sent
            &&& answer == Ok::<bool, WireError>(true)
            &&& confirmed.store[envelope.message_id] == (StoredView {
                envelope,
                status: DeliveryStatus::Delivered,
            })
            &&& confirmed.outbound == sender.outbound
        }),
{
    new_message_queues_one_receipt(receiver, envelope, received_at);
    let received = receiver.bytes_taken(envelope_bytes(envelope), received_at).0;
    envelope_round_trip(envelope, Seq::empty());
    assert(envelope_bytes(envelope) + Seq::<u8>::empty() =~= envelope_bytes(envelope));
    let receipt = received.outbound.last().envelope;
    assert(receipt == receipt_for(envelope, receiver.local_node_id, received_at).envelope);
    crate::bytes::le_bytes_len(received_at as nat, 8);
    envelope_round_trip(receipt, Seq::empty());
    assert(envelope_bytes(receipt) + Seq::<u8>::empty() =~= envelope_bytes(receipt));
}

} // verus!
