//! What the network's events do to the terminal interface.
use vstd::prelude::*;
use vstd::string::*;

use crate::app_state::{
    line_position, line_position_bound, line_views, lines_are_found_where_they_first_stand,
    peer_views, App, ChatLine, ChatLineView,
    ChatStatus, PeerEntry, PeerEntryView,
};
use crate::bytes::{copy_bytes, same_id};
use crate::delivery::DeliveryResult;
use crate::envelope::{
    decode_envelope, decode_receipt, envelope_bytes, envelope_round_trip, envelope_sized,
    parse_envelope, parse_receipt, DeliveryStatus, EnvelopeView, MessageId, MessageKind, NodeId,
    StoredMessage, StoredView, WireError,
};
use crate::ingress::MessageIngress;
use crate::keys::{handle_key, key_handled, Key, KeyAction};
use crate::messenger_core::{conversations_are_complete, is_conversation, is_entry, MessengerCore};
use crate::network::{
    decode_message, message_bytes, message_round_trip, parse_message, PrimusMessage,
};
use crate::peer::PrimusNR;
use crate::sessions::SessionTable;
use crate::text::{from_utf8_lossy, utf8_lossy};

verus! {

/// What the interface hears of.
#[derive(Debug)]
pub enum TuiEvent {
    /// An envelope arrived, with so many hops left.
    IncomingEnvelope(Vec<u8>, u8),
    /// A send ended.
    DeliveryUpdate(MessageId, DeliveryResult),
    BootstrapStarted,
    BootstrapCompleted,
}

/// What the interface hears of, as mathematical values.
pub enum EventView {
    IncomingEnvelope(Seq<u8>, u8),
    DeliveryUpdate(Seq<u8>, DeliveryResult),
    BootstrapStarted,
    BootstrapCompleted,
}

impl View for TuiEvent {
    type V = EventView;

    open spec fn view(&self) -> EventView {
        match self {
            TuiEvent::IncomingEnvelope(data, ttl) => EventView::IncomingEnvelope(data@, *ttl),
            TuiEvent::DeliveryUpdate(id, result) => EventView::DeliveryUpdate(id@, *result),
            TuiEvent::BootstrapStarted => EventView::BootstrapStarted,
            TuiEvent::BootstrapCompleted => EventView::BootstrapCompleted,
        }
    }
}

/// What the events of a list hold.
pub open spec fn event_views(list: Seq<TuiEvent>) -> Seq<EventView> {
    list.map_values(|e: TuiEvent| e@)
}

/// Turns envelopes that arrive into events.
pub struct TuiIngress {
    pub events: Vec<TuiEvent>,
}

/// The event for bytes that arrived: a message carries the envelope and how
/// many hops are left, a bare envelope has none left. What is neither makes
/// no event.
pub open spec fn arrival(bytes: Seq<u8>) -> Option<EventView> {
    match parse_message(bytes) {
        Some(m) => Some(EventView::IncomingEnvelope(m.data, m.ttl)),
        None => match parse_envelope(bytes) {
            Some(_) => Some(EventView::IncomingEnvelope(bytes, 0)),
            None => None,
        },
    }
}

/// The event for bytes that arrived.
fn arrival_event(bytes: &[u8]) -> (out: Option<TuiEvent>)
    ensures
        match out {
            Some(e) => arrival(bytes@) == Some(e@),
            None => arrival(bytes@) is None,
        },
{
    match decode_message(bytes) {
        Ok(PrimusMessage::Envelope(data, ttl)) => Some(TuiEvent::IncomingEnvelope(data, ttl)),
        Err(_) => match decode_envelope(bytes) {
            Ok(_) => Some(TuiEvent::IncomingEnvelope(copy_bytes(bytes), 0)),
            Err(_) => None,
        },
    }
}

impl MessageIngress for TuiIngress {
    open spec fn ready(&self) -> bool {
        true
    }

    /// The event for the bytes is queued, if they make one.
    open spec fn taken(&self, bytes: Seq<u8>, after: Self, out: Result<bool, WireError>) -> bool {
        &&& out == Ok::<bool, WireError>(true)
        &&& event_views(after.events@) == match arrival(bytes) {
            Some(e) => event_views(self.events@).push(e),
            None => event_views(self.events@),
        }
    }

    /// Queues an event for an envelope. What is none is passed over.
    fn on_envelope(&mut self, bytes: &[u8]) -> (out: Result<bool, WireError>) {
        match arrival_event(bytes) {
            Some(event) => {
                let ghost before = event_views(self.events@);
                let ghost added = event@;
                self.events.push(event);
                assert(event_views(self.events@) =~= before.push(added));
            },
            None => {},
        }
        Ok(true)
    }
}

// ── Peer list ──────────────────────────────────────────────────────────────

/// Whether a message that is neither delivered nor failed may be on its way
/// to or from `id`.
pub open spec fn awaits(lines: Seq<ChatLineView>, id: Seq<u8>) -> bool {
    exists|i: int|
        0 <= i < lines.len() && (#[trigger] lines[i]).status == ChatStatus::Sent && (
        lines[i].sender_id == id || lines[i].is_mine)
}

/// The sidebar's entry for a record.
pub open spec fn entry_for(
    nr: PrimusNR,
    sessions: Map<Seq<char>, u64>,
    lines: Seq<ChatLineView>,
) -> PeerEntryView {
    let connected = sessions.dom().contains(nr@.addr);
    PeerEntryView {
        node_id: nr@.node_id()@,
        addr: nr@.addr,
        connected,
        dialing: !connected && awaits(lines, nr@.node_id()@),
    }
}

/// A selection kept within a list of `len` peers.
pub open spec fn kept_selection(selected: Option<usize>, len: nat) -> Option<usize> {
    match selected {
        Some(i) => if i < len {
            Some(i)
        } else if len == 0 {
            None
        } else {
            Some((len - 1) as usize)
        },
        None => None,
    }
}

/// Whether such a message is in the chat.
fn awaits_message(app: &App, id: &NodeId) -> (r: bool)
    ensures
        r == awaits(line_views(app.messages@), id@),
{
    let ghost lines = line_views(app.messages@);
    let mut i: usize = 0;
    while i < app.messages.len()
        invariant
            i <= app.messages@.len(),
            lines == line_views(app.messages@),
            forall|j: int|
                0 <= j < i ==> !((#[trigger] lines[j]).status == ChatStatus::Sent && (
                lines[j].sender_id == id@ || lines[j].is_mine)),
        decreases app.messages@.len() - i,
    {
        let line = &app.messages[i];
        assert(lines[i as int] == line@);
        if line.status == ChatStatus::Sent && (same_id(&line.sender_id, id) || line.is_mine) {
            return true;
        }
        i = i + 1;
    }
    false
}

/// Lists the known peers anew and keeps the selection within them.
pub fn refresh_peer_list(app: &mut App, records: &Vec<PrimusNR>, sessions: &SessionTable)
    requires
        old(app).wf(),
    ensures
        final(app).wf(),
        peer_views(final(app).peers@) == records@.map_values(
            |nr: PrimusNR| entry_for(nr, sessions@, line_views(old(app).messages@)),
        ),
        *final(app) == (App {
            peers: final(app).peers,
            selected_peer: kept_selection(old(app).selected_peer, records@.len()),
            ..*old(app)
        }),
{
    let ghost lines = line_views(app.messages@);
    let ghost all = records@.map_values(|nr: PrimusNR| entry_for(nr, sessions@, lines));
    let mut peers: Vec<PeerEntry> = Vec::new();
    let mut i: usize = 0;
    assert(peer_views(peers@) =~= all.subrange(0, 0));
    while i < records.len()
        invariant
            i <= records@.len(),
            *app == *old(app),
            lines == line_views(app.messages@),
            all == records@.map_values(|nr: PrimusNR| entry_for(nr, sessions@, lines)),
            peer_views(peers@) == all.subrange(0, i as int),
        decreases records@.len() - i,
    {
        let ghost before = peer_views(peers@);
        let nr = &records[i];
        let node_id = nr.node_id();
        let addr = nr.addr();
        let connected = sessions.get(&addr).is_some();
        let dialing = !connected && awaits_message(app, &node_id);
        let entry = PeerEntry { node_id, addr, connected, dialing };
        let ghost added = entry@;
        peers.push(entry);
        assert(peer_views(peers@) =~= before.push(added));
        assert(added =~= all[i as int]);
        assert(all.subrange(0, i + 1) =~= all.subrange(0, i as int).push(added));
        i = i + 1;
    }
    assert(all.subrange(0, i as int) =~= all);
    assert(peers@.len() == records@.len()) by {
        assert(peer_views(peers@).len() == all.len());
    }
    app.peers = peers;
    if let Some(selected) = app.selected_peer {
        if selected >= app.peers.len() {
            app.selected_peer = if app.peers.len() == 0 {
                None
            } else {
                Some(app.peers.len() - 1)
            };
        }
    }
}

/// The peers with their sessions looked up anew.
pub open spec fn reconnected(peers: Seq<PeerEntryView>, sessions: Map<Seq<char>, u64>) -> Seq<
    PeerEntryView,
> {
    peers.map_values(
        |p: PeerEntryView| PeerEntryView { connected: sessions.dom().contains(p.addr), ..p },
    )
}

/// Looks up anew which of the listed peers are connected.
pub fn refresh_connections(app: &mut App, sessions: &SessionTable)
    requires
        old(app).wf(),
    ensures
        final(app).wf(),
        peer_views(final(app).peers@) == reconnected(peer_views(old(app).peers@), sessions@),
        *final(app) == (App { peers: final(app).peers, ..*old(app) }),
{
    let ghost all = reconnected(peer_views(app.peers@), sessions@);
    let ghost before = peer_views(app.peers@);
    let mut i: usize = 0;
    assert(peer_views(app.peers@) =~= all.subrange(0, 0) + before.skip(0));
    while i < app.peers.len()
        invariant
            i <= app.peers@.len(),
            before.len() == all.len(),
            before == peer_views(old(app).peers@),
            all == reconnected(before, sessions@),
            app.peers@.len() == before.len(),
            peer_views(app.peers@) == all.subrange(0, i as int) + before.skip(i as int),
            *app == (App { peers: app.peers, ..*old(app) }),
        decreases app.peers@.len() - i,
    {
        let ghost now = peer_views(app.peers@);
        assert(now[i as int] == before[i as int]);
        assert(now[i as int] == app.peers@[i as int]@);
        let connected = sessions.get(&app.peers[i].addr).is_some();
        app.peers[i].connected = connected;
        assert(peer_views(app.peers@) =~= now.update(
            i as int,
            PeerEntryView { connected, ..now[i as int] },
        ));
        assert(peer_views(app.peers@) =~= all.subrange(0, i + 1) + before.skip(i + 1));
        i = i + 1;
    }
    assert(peer_views(app.peers@) =~= all);
}

// ── Chat ───────────────────────────────────────────────────────────────────

/// The chat's status for a stored message.
pub open spec fn chat_status(status: DeliveryStatus) -> ChatStatus {
    match status {
        DeliveryStatus::Sent => ChatStatus::Sent,
        DeliveryStatus::Delivered => ChatStatus::Delivered,
        DeliveryStatus::Failed => ChatStatus::Failed,
    }
}

/// The chat's line for a stored message.
pub open spec fn line_for(m: StoredView, local: Seq<u8>) -> ChatLineView {
    ChatLineView {
        message_id: m.envelope.message_id,
        sender_id: m.envelope.sender_node_id,
        text: utf8_lossy(m.envelope.ciphertext),
        sent_at: m.envelope.sent_at,
        is_mine: m.envelope.sender_node_id == local,
        status: chat_status(m.status),
        animates: false,
    }
}

/// The chat's line for a stored message.
fn chat_line(stored: &StoredMessage, local: &NodeId) -> (out: ChatLine)
    ensures
        out@ == line_for(stored@, local@),
{
    ChatLine {
        message_id: stored.envelope.message_id,
        sender_id: stored.envelope.sender_node_id,
        text: from_utf8_lossy(stored.envelope.ciphertext.as_slice()),
        sent_at: stored.envelope.sent_at,
        is_mine: same_id(&stored.envelope.sender_node_id, local),
        status: match stored.status {
            DeliveryStatus::Sent => ChatStatus::Sent,
            DeliveryStatus::Delivered => ChatStatus::Delivered,
            DeliveryStatus::Failed => ChatStatus::Failed,
        },
        animates: false,
    }
}

/// Whether `lines` show the conversation with `peer`.
pub open spec fn shows_conversation(
    lines: Seq<ChatLineView>,
    store: Map<Seq<u8>, StoredView>,
    peer: Seq<u8>,
    local: Seq<u8>,
) -> bool {
    exists|list: Seq<StoredMessage>| #[trigger]
        is_conversation(list, store, peer) && lines == list.map_values(
            |m: StoredMessage| line_for(m@, local),
        )
}

/// The chat shows the conversation of the active tab, or nothing without
/// one.
pub open spec fn chat_shown(before: App, after: App, store: Map<Seq<u8>, StoredView>) -> bool {
    &&& after == (App { messages: after.messages, ..before })
    &&& if before.active_tab_index < before.open_tabs@.len() {
        shows_conversation(
            line_views(after.messages@),
            store,
            before.open_tabs@[before.active_tab_index as int]@,
            before.local_node_id@,
        )
    } else {
        after.messages@.len() == 0
    }
}

/// Shows the conversation of the active tab.
pub fn refresh_chat(app: &mut App, core: &MessengerCore)
    requires
        old(app).wf(),
        core.wf(),
    ensures
        final(app).wf(),
        chat_shown(*old(app), *final(app), core@.store),
{
    let mut messages: Vec<ChatLine> = Vec::new();
    if app.active_tab_index < app.open_tabs.len() {
        let peer = app.open_tabs[app.active_tab_index];
        let local = app.local_node_id;
        let stored = core.conversation(&peer);
        let ghost all = stored@.map_values(|m: StoredMessage| line_for(m@, local@));
        let mut i: usize = 0;
        assert(line_views(messages@) =~= all.subrange(0, 0));
        while i < stored.len()
            invariant
                i <= stored@.len(),
                all == stored@.map_values(|m: StoredMessage| line_for(m@, local@)),
                line_views(messages@) == all.subrange(0, i as int),
            decreases stored@.len() - i,
        {
            let ghost before = line_views(messages@);
            let line = chat_line(&stored[i], &local);
            let ghost added = line@;
            messages.push(line);
            assert(line_views(messages@) =~= before.push(added));
            assert(all.subrange(0, i + 1) =~= all.subrange(0, i as int).push(added));
            i = i + 1;
        }
        assert(all.subrange(0, i as int) =~= all);
        assert(is_conversation(stored@, core@.store, peer@));
    }
    app.messages = messages;
}

// ── Events ─────────────────────────────────────────────────────────────────

/// The first line for message `id` has `status`, if there is one.
pub open spec fn line_marked(before: App, after: App, id: Seq<u8>, status: ChatStatus) -> bool {
    let lines = line_views(before.messages@);
    &&& after == (App { messages: after.messages, ..before })
    &&& line_views(after.messages@) == match line_position(lines, id) {
        Some(i) => lines.update(i, ChatLineView { status, ..lines[i] }),
        None => lines,
    }
}

/// The identifier of the message that arriving bytes acknowledge, if they
/// are a receipt.
pub open spec fn acknowledged(data: Seq<u8>) -> Option<Seq<u8>> {
    match parse_envelope(data) {
        Some(e) => if e.kind == MessageKind::DeliveryReceipt {
            match parse_receipt(e.ciphertext) {
                Some(p) => Some(p.message_id),
                None => None,
            }
        } else {
            None
        },
        None => None,
    }
}

/// Whether arriving bytes are a direct message from or to the selected
/// peer.
pub open spec fn concerns_selection(app: App, data: Seq<u8>) -> bool {
    match (parse_envelope(data), app.selected_peer) {
        (Some(e), Some(i)) => e.kind == MessageKind::DirectMessage && (e.sender_node_id
            == app.peers@[i as int].node_id@ || e.recipient_node_id
            == app.peers@[i as int].node_id@),
        _ => false,
    }
}

/// The same lines, the last one sliding in.
pub open spec fn last_animates(lines: Seq<ChatLineView>) -> Seq<ChatLineView> {
    if lines.len() == 0 {
        lines
    } else {
        lines.update(lines.len() - 1, ChatLineView { animates: true, ..lines.last() })
    }
}

/// The message that arriving bytes acknowledge is marked as delivered.
pub open spec fn receipt_marked(before: App, after: App, data: Seq<u8>) -> bool {
    match acknowledged(data) {
        Some(id) => line_marked(before, after, id, ChatStatus::Delivered),
        None => after == before,
    }
}

/// The chat after an envelope arrived: an acknowledged message is marked,
/// and the conversation shown anew where the envelope is part of it.
pub open spec fn envelope_shown(
    before: App,
    after: App,
    data: Seq<u8>,
    store: Map<Seq<u8>, StoredView>,
) -> bool {
    exists|marked: App| #[trigger]
        receipt_marked(before, marked, data) && if concerns_selection(before, data) {
            exists|shown: App| #[trigger]
                chat_shown(marked, shown, store) && line_views(after.messages@) == last_animates(
                    line_views(shown.messages@),
                ) && after == (App { messages: after.messages, ..before })
        } else {
            after == marked
        }
}

/// The chat after a send ended: a failure is marked, and a success takes
/// back an earlier failure.
pub open spec fn delivery_shown(before: App, after: App, id: Seq<u8>, result: DeliveryResult) -> bool {
    let lines = line_views(before.messages@);
    match line_position(lines, id) {
        None => after == before,
        Some(i) => if result == DeliveryResult::Failed {
            line_marked(before, after, id, ChatStatus::Failed)
        } else if lines[i].status == ChatStatus::Failed {
            line_marked(before, after, id, ChatStatus::Sent)
        } else {
            after == before
        },
    }
}

/// Marks the first line for message `id`.
fn mark_line(app: &mut App, id: &MessageId, status: ChatStatus)
    requires
        old(app).wf(),
    ensures
        final(app).wf(),
        line_marked(*old(app), *final(app), id@, status),
{
    proof {
        line_position_bound(line_views(app.messages@), id@);
    }
    match app.find_line(id) {
        Some(i) => {
            app.set_line_status(i, status);
        },
        None => {},
    }
}

/// The identifier of the message that `data` acknowledges.
fn acknowledged_id(data: &[u8]) -> (out: Option<MessageId>)
    ensures
        match out {
            Some(id) => acknowledged(data@) == Some(id@),
            None => acknowledged(data@) is None,
        },
{
    match decode_envelope(data) {
        Ok(envelope) => if envelope.kind == MessageKind::DeliveryReceipt {
            match decode_receipt(envelope.ciphertext.as_slice()) {
                Ok(payload) => Some(payload.message_id),
                Err(_) => None,
            }
        } else {
            None
        },
        Err(_) => None,
    }
}

/// Whether `data` is a direct message from or to the selected peer.
fn is_for_selection(app: &App, data: &[u8]) -> (r: bool)
    requires
        app.wf(),
    ensures
        r == concerns_selection(*app, data@),
{
    match (decode_envelope(data), app.selected_peer_entry()) {
        (Ok(envelope), Some(peer)) => envelope.kind == MessageKind::DirectMessage && (same_id(
            &envelope.sender_node_id,
            &peer.node_id,
        ) || same_id(&envelope.recipient_node_id, &peer.node_id)),
        _ => false,
    }
}

/// Takes an envelope that arrived at `now` into the core and the chat.
pub fn on_incoming(app: &mut App, core: &mut MessengerCore, data: &[u8], now: u64)
    requires
        old(app).wf(),
        old(core).wf(),
    ensures
        final(app).wf(),
        final(core).wf(),
        final(core)@ == old(core)@.bytes_taken(data@, now).0,
        envelope_shown(*old(app), *final(app), data@, final(core)@.store),
{
    if let Some(id) = acknowledged_id(data) {
        mark_line(app, &id, ChatStatus::Delivered);
    }
    let ghost marked = *app;
    let _ = core.on_envelope_at(data, now);
    assert(concerns_selection(marked, data@) == concerns_selection(*old(app), data@));
    if is_for_selection(app, data) {
        refresh_chat(app, core);
        let ghost shown = *app;
        let n: usize = app.messages.len();
        if n > 0 {
            let ghost lines = line_views(app.messages@);
            app.messages[n - 1].animates = true;
            assert(line_views(app.messages@) =~= lines.update(
                n - 1,
                ChatLineView { animates: true, ..lines[n - 1] },
            ));
        }
        assert(chat_shown(marked, shown, core@.store));
        assert(line_views(app.messages@) == last_animates(line_views(shown.messages@)));
    }
    assert(receipt_marked(*old(app), marked, data@));
}

/// Takes note in the chat of how a send ended.
pub fn on_delivery_update(app: &mut App, id: &MessageId, result: DeliveryResult)
    requires
        old(app).wf(),
    ensures
        final(app).wf(),
        delivery_shown(*old(app), *final(app), id@, result),
{
    proof {
        line_position_bound(line_views(app.messages@), id@);
    }
    match app.find_line(id) {
        Some(i) => {
            assert(line_views(app.messages@)[i as int] == app.messages@[i as int]@);
            if result == DeliveryResult::Failed {
                app.set_line_status(i, ChatStatus::Failed);
            } else if app.messages[i].status == ChatStatus::Failed {
                app.set_line_status(i, ChatStatus::Sent);
            }
        },
        None => {},
    }
}

/// Takes an event at `now`.
pub fn handle_event(app: &mut App, core: &mut MessengerCore, event: TuiEvent, now: u64)
    requires
        old(app).wf(),
        old(core).wf(),
    ensures
        final(app).wf(),
        final(core).wf(),
        match event@ {
            EventView::IncomingEnvelope(data, _) => final(core)@ == old(core)@.bytes_taken(
                data,
                now,
            ).0 && envelope_shown(*old(app), *final(app), data, final(core)@.store),
            EventView::DeliveryUpdate(id, result) => final(core)@ == old(core)@ && delivery_shown(
                *old(app),
                *final(app),
                id,
                result,
            ),
            EventView::BootstrapStarted => final(core)@ == old(core)@ && *final(app) == (App {
                bootstrap_running: true,
                ..*old(app)
            }),
            EventView::BootstrapCompleted => final(core)@ == old(core)@ && *final(app) == (App {
                bootstrap_running: false,
                ..*old(app)
            }),
        },
{
    match event {
        TuiEvent::IncomingEnvelope(data, _) => {
            on_incoming(app, core, data.as_slice(), now);
        },
        TuiEvent::DeliveryUpdate(id, result) => {
            on_delivery_update(app, &id, result);
        },
        TuiEvent::BootstrapStarted => {
            app.bootstrap_running = true;
        },
        TuiEvent::BootstrapCompleted => {
            app.bootstrap_running = false;
        },
    }
}

// ── Event loop ─────────────────────────────────────────────────────────────

/// Ticks between two refreshes of the peer list.
pub const PEER_REFRESH_TICKS: u64 = 20;

/// Handles a key event, and shows the conversation anew where the key
/// changed the selection.
pub fn on_key(app: &mut App, core: &MessengerCore, key: Key, now: u64) -> (action: KeyAction)
    requires
        old(app).wf(),
        old(app).input.chars@.len() < usize::MAX,
        core.wf(),
    ensures
        final(app).wf(),
        exists|handled: App| #[trigger]
            key_handled(*old(app), handled, key, now, action@) && if handled.selected_peer
                != old(app).selected_peer {
                chat_shown(handled, *final(app), core@.store)
            } else {
                *final(app) == handled
            },
{
    let selected = app.selected_peer;
    let action = handle_key(app, key, now);
    let ghost handled = *app;
    let changed = match (selected, app.selected_peer) {
        (Some(a), Some(b)) => a != b,
        (None, None) => false,
        _ => true,
    };
    if changed {
        refresh_chat(app, core);
    }
    assert(key_handled(*old(app), handled, key, now, action@));
    action
}

/// Takes note of a tick: counts it and looks up which peers are connected.
/// Returns whether the peer list is to be refreshed.
pub fn on_tick(app: &mut App, sessions: &SessionTable, ticks: &mut u64) -> (due: bool)
    requires
        old(app).wf(),
        *old(ticks) < u64::MAX,
    ensures
        final(app).wf(),
        *final(ticks) == *old(ticks) + 1,
        due == (*final(ticks) % PEER_REFRESH_TICKS == 0),
        peer_views(final(app).peers@) == reconnected(peer_views(old(app).peers@), sessions@),
        *final(app) == (App { peers: final(app).peers, ..*old(app) }),
{
    *ticks = *ticks + 1;
    refresh_connections(app, sessions);
    *ticks % PEER_REFRESH_TICKS == 0
}

// ── Laws ───────────────────────────────────────────────────────────────────

/// An envelope that arrives is queued for the interface as it is, unless its
/// bytes also read as a message.
pub proof fn arriving_envelopes_are_queued(
    before: TuiIngress,
    after: TuiIngress,
    envelope: EnvelopeView,
    out: Result<bool, WireError>,
)
    requires
        envelope_sized(
            envelope.message_id,
            envelope.sender_node_id,
            envelope.recipient_node_id,
            envelope.ciphertext,
        ),
        parse_message(envelope_bytes(envelope)) is None,
        before.taken(envelope_bytes(envelope), after, out),
    ensures
        event_views(after.events@) == event_views(before.events@).push(
            EventView::IncomingEnvelope(envelope_bytes(envelope), 0),
        ),
{
    envelope_round_trip(envelope, Seq::empty());
    assert(envelope_bytes(envelope) + Seq::<u8>::empty() =~= envelope_bytes(envelope));
}

/// The lines of a conversation are the direct messages held that the peer
/// sent or is to receive, each once, none behind a younger one. A line shows
/// what is stored: who sent the message and when, its text, whether it is
/// this node's own, and exactly the status it has.
pub proof fn lines_show_what_is_stored(
    lines: Seq<ChatLineView>,
    store: Map<Seq<u8>, StoredView>,
    peer: Seq<u8>,
    local: Seq<u8>,
)
    requires
        shows_conversation(lines, store, peer, local),
    ensures
        forall|i: int|
            0 <= i < lines.len() ==> {
                let line = #[trigger] lines[i];
                let m = store[line.message_id];
                &&& store.dom().contains(line.message_id)
                &&& m.envelope.message_id == line.message_id
                &&& m.envelope.kind == MessageKind::DirectMessage
                &&& m.envelope.sender_node_id == peer || m.envelope.recipient_node_id == peer
                &&& line.sender_id == m.envelope.sender_node_id
                &&& line.text == utf8_lossy(m.envelope.ciphertext)
                &&& line.sent_at == m.envelope.sent_at
                &&& line.is_mine <==> m.envelope.sender_node_id == local
                &&& line.status == ChatStatus::Sent <==> m.status == DeliveryStatus::Sent
                &&& line.status == ChatStatus::Delivered <==> m.status == DeliveryStatus::Delivered
                &&& line.status == ChatStatus::Failed <==> m.status == DeliveryStatus::Failed
                &&& !line.animates
            },
        forall|i: int, j: int|
            0 <= i < j < lines.len() ==> (#[trigger] lines[i]).sent_at <= (
            #[trigger] lines[j]).sent_at && lines[i].message_id != lines[j].message_id,
{
    let list = choose|list: Seq<StoredMessage>| #[trigger]
        is_conversation(list, store, peer) && lines == list.map_values(
            |m: StoredMessage| line_for(m@, local),
        );
    assert forall|i: int| 0 <= i < lines.len() implies {
        let line = #[trigger] lines[i];
        let m = store[line.message_id];
        &&& store.dom().contains(line.message_id)
        &&& m == list[i]@
        &&& m.envelope.message_id == line.message_id
        &&& m.envelope.kind == MessageKind::DirectMessage
        &&& m.envelope.sender_node_id == peer || m.envelope.recipient_node_id == peer
    } by {
        assert(lines[i] == line_for(list[i]@, local));
        assert(is_entry(store, peer, list[i]@.envelope.message_id, list[i]@));
    }
    assert forall|i: int, j: int| 0 <= i < j < lines.len() implies (#[trigger] lines[i]).sent_at
        <= (#[trigger] lines[j]).sent_at && lines[i].message_id != lines[j].message_id by {
        assert(lines[i] == line_for(list[i]@, local));
        assert(lines[j] == line_for(list[j]@, local));
    }
}

/// Every direct message held that the peer sent or is to receive has its
/// line in the conversation.
pub proof fn no_message_is_missing_from_the_chat(
    lines: Seq<ChatLineView>,
    store: Map<Seq<u8>, StoredView>,
    peer: Seq<u8>,
    local: Seq<u8>,
    id: Seq<u8>,
)
    requires
        shows_conversation(lines, store, peer, local),
        store.dom().contains(id),
        store[id].envelope.message_id == id,
        store[id].envelope.kind == MessageKind::DirectMessage,
        store[id].envelope.sender_node_id == peer || store[id].envelope.recipient_node_id == peer,
    ensures
        exists|i: int| 0 <= i < lines.len() && (#[trigger] lines[i]).message_id == id,
{
    let list = choose|list: Seq<StoredMessage>| #[trigger]
        is_conversation(list, store, peer) && lines == list.map_values(
            |m: StoredMessage| line_for(m@, local),
        );
    conversations_are_complete(list, store, peer, id);
    let m = choose|m: int| 0 <= m < list.len() && (#[trigger] list[m])@ == store[id];
    assert(lines[m] == line_for(list[m]@, local));
    assert(lines[m].message_id == id);
}

/// The chat shows the conversation of the active tab and nothing where no
/// tab is open; nothing else of the interface changes.
pub proof fn the_active_tab_is_shown(before: App, after: App, store: Map<Seq<u8>, StoredView>)
    requires
        chat_shown(before, after, store),
    ensures
        after.messages@.len() > 0 ==> before.active_tab_index < before.open_tabs@.len(),
        before.active_tab_index < before.open_tabs@.len() ==> shows_conversation(
            line_views(after.messages@),
            store,
            before.open_tabs@[before.active_tab_index as int]@,
            before.local_node_id@,
        ),
        after == (App { messages: after.messages, ..before }),
{
}

/// Marking a message changes the status of the first line that shows it,
/// and nothing else.
pub proof fn marking_changes_one_line(before: App, after: App, id: Seq<u8>, status: ChatStatus, i: int)
    requires
        line_marked(before, after, id, status),
        0 <= i < before.messages@.len(),
    ensures
        after == (App { messages: after.messages, ..before }),
        after.messages@.len() == before.messages@.len(),
        ({
            let was = line_views(before.messages@)[i];
            let is = line_views(after.messages@)[i];
            let first = was.message_id == id && forall|j: int|
                0 <= j < i ==> (#[trigger] line_views(before.messages@)[j]).message_id != id;
            is == if first {
                ChatLineView { status, ..was }
            } else {
                was
            }
        }),
{
    let lines = line_views(before.messages@);
    lines_are_found_where_they_first_stand(lines, id);
    assert(line_views(after.messages@).len() == lines.len());
    match line_position(lines, id) {
        Some(p) => {
            if p < i {
                assert(lines[p].message_id == id);
            }
        },
        None => {},
    }
}

/// A send that failed marks its line as failed. One that went out takes back
/// an earlier failure and leaves every other status alone, so a message that
/// is confirmed stays so.
pub proof fn outcomes_show_in_the_chat(
    before: App,
    after: App,
    id: Seq<u8>,
    result: DeliveryResult,
    i: int,
)
    requires
        delivery_shown(before, after, id, result),
        0 <= i < before.messages@.len(),
        line_views(before.messages@)[i].message_id == id,
        forall|j: int|
            0 <= j < i ==> (#[trigger] line_views(before.messages@)[j]).message_id != id,
    ensures
        ({
            let was = line_views(before.messages@)[i];
            let is = line_views(after.messages@)[i];
            &&& result == DeliveryResult::Failed ==> is.status == ChatStatus::Failed
            &&& result != DeliveryResult::Failed && was.status == ChatStatus::Failed ==> is.status
                == ChatStatus::Sent
            &&& result != DeliveryResult::Failed && was.status != ChatStatus::Failed ==> is.status
                == was.status
            &&& is == (ChatLineView { status: is.status, ..was })
        }),
        forall|j: int|
            0 <= j < before.messages@.len() && j != i ==> #[trigger] line_views(
                after.messages@,
            )[j] == line_views(before.messages@)[j],
        after == (App { messages: after.messages, ..before }),
{
    let lines = line_views(before.messages@);
    lines_are_found_where_they_first_stand(lines, id);
    assert(line_position(lines, id) == Some(i)) by {
        match line_position(lines, id) {
            Some(p) => {
                if p < i {
                    assert(lines[p].message_id == id);
                }
            },
            None => {
                assert(lines[i].message_id != id);
            },
        }
    }
}

/// An encoded receipt acknowledges the message it names, and nothing else
/// that arrives acknowledges anything.
pub proof fn receipts_acknowledge_what_they_name(data: Seq<u8>, e: EnvelopeView)
    requires
        parse_envelope(data) == Some(e),
    ensures
        acknowledged(data) is Some <==> e.kind == MessageKind::DeliveryReceipt && parse_receipt(
            e.ciphertext,
        ) is Some,
        acknowledged(data) matches Some(id) ==> parse_receipt(e.ciphertext)->0.message_id == id,
{
}

/// A message that arrives is queued with its data and hops.
pub proof fn arriving_messages_are_queued(data: Seq<u8>, ttl: u8)
    requires
        data.len() <= u64::MAX,
    ensures
        arrival(message_bytes(data, ttl)) == Some(EventView::IncomingEnvelope(data, ttl)),
{
    message_round_trip(data, ttl, Seq::empty());
    assert(message_bytes(data, ttl) + Seq::<u8>::empty() =~= message_bytes(data, ttl));
}

/// The sidebar shows a peer as connected exactly where there is a session
/// with its address, and as being dialed only where there is none and a
/// message waits.
pub proof fn entries_tell_the_session(
    nr: PrimusNR,
    sessions: Map<Seq<char>, u64>,
    lines: Seq<ChatLineView>,
)
    ensures
        ({
            let entry = entry_for(nr, sessions, lines);
            &&& entry.node_id == nr@.node_id()@
            &&& entry.addr == nr@.addr
            &&& entry.connected <==> sessions.dom().contains(nr@.addr)
            &&& entry.dialing <==> !sessions.dom().contains(nr@.addr) && exists|i: int|
                0 <= i < lines.len() && (#[trigger] lines[i]).status == ChatStatus::Sent && (
                lines[i].is_mine || lines[i].sender_id == nr@.node_id()@)
        }),
{
}

/// Looking up the sessions anew changes which peers are connected and
/// nothing else about them.
pub proof fn reconnecting_keeps_the_peers(
    peers: Seq<PeerEntryView>,
    sessions: Map<Seq<char>, u64>,
    i: int,
)
    requires
        0 <= i < peers.len(),
    ensures
        reconnected(peers, sessions).len() == peers.len(),
        reconnected(peers, sessions)[i].connected <==> sessions.dom().contains(peers[i].addr),
        reconnected(peers, sessions)[i].node_id == peers[i].node_id,
        reconnected(peers, sessions)[i].addr == peers[i].addr,
        reconnected(peers, sessions)[i].dialing == peers[i].dialing,
{
}

/// A selection stays where it is while there is a peer at its place, moves
/// to the last peer where there is not, and goes where there are none.
pub proof fn selections_stay_in_the_list(selected: usize, len: nat)
    requires
        len <= usize::MAX,
    ensures
        kept_selection(None, len) is None,
        selected < len ==> kept_selection(Some(selected), len) == Some(selected),
        0 < len <= selected ==> kept_selection(Some(selected), len) == Some((len - 1) as usize),
        len == 0 ==> kept_selection(Some(selected), len) is None,
{
}

/// A direct message that arrives is shown at once where it is from or to the
/// selected peer, with the last line sliding in.
pub proof fn arrivals_for_the_selection_are_shown(
    before: App,
    after: App,
    data: Seq<u8>,
    e: EnvelopeView,
    store: Map<Seq<u8>, StoredView>,
)
    requires
        before.wf(),
        envelope_shown(before, after, data, store),
        parse_envelope(data) == Some(e),
        e.kind == MessageKind::DirectMessage,
        before.selected_peer is Some,
        ({
            let peer = before.peers@[before.selected_peer->0 as int].node_id@;
            e.sender_node_id == peer || e.recipient_node_id == peer
        }),
    ensures
        exists|shown: App| #[trigger]
            chat_shown(before, shown, store) && shown.messages@.len() == after.messages@.len()
                && forall|i: int|
                0 <= i < shown.messages@.len() ==> #[trigger] line_views(after.messages@)[i] == (
                ChatLineView {
                    animates: i == shown.messages@.len() - 1,
                    ..line_views(shown.messages@)[i]
                }),
        after == (App { messages: after.messages, ..before }),
{
    assert(acknowledged(data) is None);
    assert(concerns_selection(before, data));
    let marked = choose|marked: App| #[trigger]
        receipt_marked(before, marked, data) && if concerns_selection(before, data) {
            exists|shown: App| #[trigger]
                chat_shown(marked, shown, store) && line_views(after.messages@) == last_animates(
                    line_views(shown.messages@),
                ) && after == (App { messages: after.messages, ..before })
        } else {
            after == marked
        };
    assert(marked == before);
    let shown = choose|shown: App| #[trigger]
        chat_shown(marked, shown, store) && line_views(after.messages@) == last_animates(
            line_views(shown.messages@),
        ) && after == (App { messages: after.messages, ..before });
    let lines = line_views(shown.messages@);
    assert(line_views(after.messages@).len() == lines.len());
    if before.active_tab_index < before.open_tabs@.len() {
        lines_show_what_is_stored(
            lines,
            store,
            before.open_tabs@[before.active_tab_index as int]@,
            before.local_node_id@,
        );
    }
    assert forall|i: int| 0 <= i < shown.messages@.len() implies #[trigger] line_views(
        after.messages@,
    )[i] == (ChatLineView {
        animates: i == shown.messages@.len() - 1,
        ..line_views(shown.messages@)[i]
    }) by {
        assert(!lines[i].animates);
    }
    assert(chat_shown(before, shown, store));
}

/// A receipt that arrives marks its message as delivered in the chat,
/// wherever it stands, and leaves every other line alone.
pub proof fn receipts_mark_the_chat(
    before: App,
    after: App,
    data: Seq<u8>,
    store: Map<Seq<u8>, StoredView>,
)
    requires
        before.wf(),
        acknowledged(data) is Some,
        envelope_shown(before, after, data, store),
    ensures
        line_marked(before, after, acknowledged(data)->0, ChatStatus::Delivered),
{
    let marked = choose|marked: App| #[trigger]
        receipt_marked(before, marked, data) && if concerns_selection(before, data) {
            exists|shown: App| #[trigger]
                chat_shown(marked, shown, store) && line_views(after.messages@) == last_animates(
                    line_views(shown.messages@),
                ) && after == (App { messages: after.messages, ..before })
        } else {
            after == marked
        };
    assert(!concerns_selection(before, data));
    assert(after == marked);
}

} // verus!
