//! Routing of direct messages.
//!
//! A send resolves the recipient to an address, uses the session it has
//! with that address or dials one, and falls back to flooding every session
//! where neither works out. Lookups, dials and writes happen elsewhere:
//! [`DirectSend`] says which one is next and takes note of how it went.
use vstd::prelude::*;

use crate::envelope::{encode_envelope, envelope_bytes, Envelope, NodeId};
use crate::network::{encode_message, message_bytes};
use crate::peer::{find_addr, first_addr, NodeAddr, PrimusNR};
use crate::sessions::{lists, SessionTable};

verus! {

/// Hops that a message has left on the flooding path.
pub const GOSSIP_FALLBACK_TTL: u8 = 32;

/// Outcome of a direct send.
#[derive(Clone, Copy, Debug, PartialEq, Eq, Structural)]
pub enum DeliveryResult {
    /// Sent over the recipient's own session, not to be relayed.
    DirectDelivered,
    /// Flooded to at least one session, as a last resort.
    RelayedViaGossip,
    /// Nothing worked.
    Failed,
}

/// What a send waits for.
enum SendPhase {
    /// The recipient's address.
    Lookup,
    /// A connection to the address.
    Dial(NodeAddr),
    /// A write to the recipient's session. `dialed` says whether the
    /// session was opened for it.
    Direct { session: u64, dialed: bool },
    /// A write to the next of the flooded sessions.
    Flood { targets: Vec<(NodeAddr, u64)>, next: usize, any_sent: bool },
    /// Nothing: the send is over.
    Done(DeliveryResult),
}

/// What a send waits for, as mathematical values.
pub enum PhaseView {
    Lookup,
    Dial(Seq<char>),
    Direct { session: u64, dialed: bool },
    /// The sessions still to be written to, the current one first.
    Flood { rest: Seq<u64>, any_sent: bool },
    Done(DeliveryResult),
}

/// What is to be done next for a send.
pub enum SendAction {
    /// Look up the records closest to `recipient`.
    LookUp(NodeId),
    /// Connect to the address.
    Dial(NodeAddr),
    /// Write the payload to the session.
    Send { session: u64, payload: Vec<u8> },
    /// Nothing: this is the outcome.
    Finished(DeliveryResult),
}

/// What is to be done next, as mathematical values.
pub enum ActionView {
    LookUp(Seq<u8>),
    Dial(Seq<char>),
    Send { session: u64, payload: Seq<u8> },
    Finished(DeliveryResult),
}

impl View for SendAction {
    type V = ActionView;

    open spec fn view(&self) -> ActionView {
        match self {
            SendAction::LookUp(id) => ActionView::LookUp(id@),
            SendAction::Dial(addr) => ActionView::Dial(addr@),
            SendAction::Send { session, payload } => ActionView::Send {
                session: *session,
                payload: payload@,
            },
            SendAction::Finished(result) => ActionView::Finished(*result),
        }
    }
}

/// One direct message on its way out.
pub struct DirectSend {
    recipient: NodeId,
    data: Vec<u8>,
    phase: SendPhase,
}

/// What a `DirectSend` holds, as mathematical values.
pub struct SendView {
    pub recipient: Seq<u8>,
    /// The encoded envelope.
    pub data: Seq<u8>,
    pub phase: PhaseView,
}

impl View for DirectSend {
    type V = SendView;

    closed spec fn view(&self) -> SendView {
        SendView {
            recipient: self.recipient@,
            data: self.data@,
            phase: match self.phase {
                SendPhase::Lookup => PhaseView::Lookup,
                SendPhase::Dial(addr) => PhaseView::Dial(addr@),
                SendPhase::Direct { session, dialed } => PhaseView::Direct { session, dialed },
                SendPhase::Flood { targets, next, any_sent } => PhaseView::Flood {
                    rest: handles(targets@).subrange(next as int, targets@.len() as int),
                    any_sent,
                },
                SendPhase::Done(result) => PhaseView::Done(result),
            },
        }
    }
}

// ── Model ──────────────────────────────────────────────────────────────────

/// The session handles of a list of sessions.
pub open spec fn handles(list: Seq<(String, u64)>) -> Seq<u64> {
    list.map_values(|t: (String, u64)| t.1)
}

/// What is to be done next for `send`.
pub open spec fn send_action(send: SendView) -> ActionView {
    match send.phase {
        PhaseView::Lookup => ActionView::LookUp(send.recipient),
        PhaseView::Dial(addr) => ActionView::Dial(addr),
        PhaseView::Direct { session, .. } => ActionView::Send {
            session,
            payload: message_bytes(send.data, 0),
        },
        PhaseView::Flood { rest, .. } => ActionView::Send {
            session: rest[0],
            payload: message_bytes(send.data, GOSSIP_FALLBACK_TTL),
        },
        PhaseView::Done(result) => ActionView::Finished(result),
    }
}

/// `phase` starts flooding: every session stands in it once, in some order.
/// Without sessions the send has failed.
pub open spec fn floods(phase: PhaseView, sessions: Map<Seq<char>, u64>) -> bool {
    exists|list: Seq<(String, u64)>| #[trigger]
        lists(list, sessions) && phase == if list.len() == 0 {
            PhaseView::Done(DeliveryResult::Failed)
        } else {
            PhaseView::Flood { rest: handles(list), any_sent: false }
        }
}

/// `after` follows `Lookup` once the recipient's address is `addr`.
pub open spec fn looked_up(
    after: PhaseView,
    addr: Option<Seq<char>>,
    sessions: Map<Seq<char>, u64>,
) -> bool {
    match addr {
        None => floods(after, sessions),
        Some(a) => if sessions.dom().contains(a) {
            after == (PhaseView::Direct { session: sessions[a], dialed: false })
        } else {
            after == PhaseView::Dial(a)
        },
    }
}

/// `after` follows `Dial(addr)` once the dial went as `connected` says.
pub open spec fn dialed(
    after: PhaseView,
    addr: Seq<char>,
    connected: bool,
    sessions: Map<Seq<char>, u64>,
) -> bool {
    if connected && sessions.dom().contains(addr) {
        after == (PhaseView::Direct { session: sessions[addr], dialed: true })
    } else {
        floods(after, sessions)
    }
}

/// `after` follows `before` once a write went as `ok` says.
pub open spec fn sent(
    after: PhaseView,
    before: PhaseView,
    ok: bool,
    sessions: Map<Seq<char>, u64>,
) -> bool {
    match before {
        PhaseView::Direct { dialed, .. } => if ok {
            after == PhaseView::Done(DeliveryResult::DirectDelivered)
        } else if dialed {
            floods(after, sessions)
        } else {
            after == PhaseView::Done(DeliveryResult::Failed)
        },
        PhaseView::Flood { rest, any_sent } => if rest.len() > 1 {
            after == (PhaseView::Flood { rest: rest.drop_first(), any_sent: any_sent || ok })
        } else if any_sent || ok {
            after == PhaseView::Done(DeliveryResult::RelayedViaGossip)
        } else {
            after == PhaseView::Done(DeliveryResult::Failed)
        },
        _ => after == before,
    }
}

// ── Implementation ─────────────────────────────────────────────────────────

/// The phase in which every session is written to.
fn start_flood(sessions: &SessionTable) -> (out: SendPhase)
    ensures
        match out {
            SendPhase::Flood { targets, next, any_sent } => targets@.len() > 0 && next == 0
                && !any_sent && lists(targets@, sessions@),
            SendPhase::Done(result) => result == DeliveryResult::Failed && lists(
                Seq::<(String, u64)>::empty(),
                sessions@,
            ),
            _ => false,
        },
{
    let targets = sessions.all();
    if targets.len() == 0 {
        assert(targets@ =~= Seq::<(String, u64)>::empty());
        return SendPhase::Done(DeliveryResult::Failed);
    }
    SendPhase::Flood { targets, next: 0, any_sent: false }
}

/// Starts sending `envelope` to `recipient_node_id`. An envelope that
/// cannot be encoded has failed at once.
pub fn send_direct_message(recipient_node_id: NodeId, envelope: &Envelope) -> (out: DirectSend)
    ensures
        out.wf(),
        out@ == (SendView {
            recipient: recipient_node_id@,
            data: envelope_bytes(envelope@),
            phase: PhaseView::Lookup,
        }),
{
    match encode_envelope(envelope) {
        Ok(data) => DirectSend {
            recipient: recipient_node_id,
            data,
            phase: SendPhase::Lookup,
        },
        Err(_) => DirectSend {
            recipient: recipient_node_id,
            data: Vec::new(),
            phase: SendPhase::Done(DeliveryResult::Failed),
        },
    }
}

impl DirectSend {
    /// While flooding there is a session left to write to.
    pub closed spec fn wf(self) -> bool {
        match self.phase {
            SendPhase::Flood { targets, next, .. } => next < targets@.len(),
            _ => true,
        }
    }

    /// Where the send is flooding, a session is left to write to.
    pub proof fn flood_has_a_target(self)
        requires
            self.wf(),
        ensures
            self@.phase matches PhaseView::Flood { rest, .. } ==> rest.len() > 0,
    {
    }

    /// `start_flood` is what the model calls flooding.
    proof fn flooding(self, sessions: Map<Seq<char>, u64>)
        requires
            match self.phase {
                SendPhase::Flood { targets, next, any_sent } => targets@.len() > 0 && next == 0
                    && !any_sent && lists(targets@, sessions),
                SendPhase::Done(result) => result == DeliveryResult::Failed && lists(
                    Seq::<(String, u64)>::empty(),
                    sessions,
                ),
                _ => false,
            },
        ensures
            self.wf(),
            floods(self@.phase, sessions),
    {
        match self.phase {
            SendPhase::Flood { targets, next, any_sent } => {
                let list = targets@;
                assert(lists(list, sessions));
                assert(handles(list).subrange(0, list.len() as int) =~= handles(list));
            },
            _ => {
                assert(lists(Seq::<(String, u64)>::empty(), sessions));
            },
        }
    }

    /// What is to be done next.
    pub fn action(&self) -> (out: SendAction)
        requires
            self.wf(),
        ensures
            out@ == send_action(self@),
    {
        match &self.phase {
            SendPhase::Lookup => SendAction::LookUp(self.recipient),
            SendPhase::Dial(addr) => SendAction::Dial(addr.clone()),
            SendPhase::Direct { session, .. } => match encode_message(self.data.as_slice(), 0) {
                Ok(payload) => SendAction::Send { session: *session, payload },
                Err(_) => SendAction::Finished(DeliveryResult::Failed),
            },
            SendPhase::Flood { targets, next, .. } => {
                assert(handles(targets@).subrange(*next as int, targets@.len() as int)[0]
                    == targets@[*next as int].1);
                match encode_message(self.data.as_slice(), GOSSIP_FALLBACK_TTL) {
                    Ok(payload) => SendAction::Send { session: targets[*next].1, payload },
                    Err(_) => SendAction::Finished(DeliveryResult::Failed),
                }
            },
            SendPhase::Done(result) => SendAction::Finished(*result),
        }
    }

    /// Takes note of the records that the lookup returned. Only a record
    /// with exactly the recipient's identifier counts.
    pub fn on_closest(&mut self, closest: &Vec<PrimusNR>, sessions: &SessionTable)
        requires
            old(self).wf(),
        ensures
            final(self).wf(),
            final(self)@.recipient == old(self)@.recipient,
            final(self)@.data == old(self)@.data,
            if old(self)@.phase is Lookup {
                looked_up(
                    final(self)@.phase,
                    first_addr(closest@, old(self)@.recipient),
                    sessions@,
                )
            } else {
                final(self)@.phase == old(self)@.phase
            },
    {
        match &self.phase {
            SendPhase::Lookup => {},
            _ => return,
        }
        match find_addr(closest, &self.recipient) {
            None => {
                self.phase = start_flood(sessions);
                proof {
                    self.flooding(sessions@);
                }
            },
            Some(addr) => match sessions.get(&addr) {
                Some(session) => {
                    self.phase = SendPhase::Direct { session, dialed: false };
                },
                None => {
                    self.phase = SendPhase::Dial(addr);
                },
            },
        }
    }

    /// Takes note of how the dial went. The session is looked up again,
    /// since the connection may have come out under another address.
    pub fn on_dialed(&mut self, connected: bool, sessions: &SessionTable)
        requires
            old(self).wf(),
        ensures
            final(self).wf(),
            final(self)@.recipient == old(self)@.recipient,
            final(self)@.data == old(self)@.data,
            match old(self)@.phase {
                PhaseView::Dial(addr) => dialed(final(self)@.phase, addr, connected, sessions@),
                _ => final(self)@.phase == old(self)@.phase,
            },
    {
        let session = match &self.phase {
            SendPhase::Dial(addr) => if connected {
                sessions.get(addr)
            } else {
                None
            },
            _ => return,
        };
        match session {
            Some(session) => {
                self.phase = SendPhase::Direct { session, dialed: true };
            },
            None => {
                self.phase = start_flood(sessions);
                proof {
                    self.flooding(sessions@);
                }
            },
        }
    }

    /// Takes note of how the write went.
    pub fn on_sent(&mut self, ok: bool, sessions: &SessionTable)
        requires
            old(self).wf(),
        ensures
            final(self).wf(),
            final(self)@.recipient == old(self)@.recipient,
            final(self)@.data == old(self)@.data,
            sent(final(self)@.phase, old(self)@.phase, ok, sessions@),
    {
        let ghost before = *self;
        match &mut self.phase {
            SendPhase::Direct { dialed, .. } => {
                let dialed = *dialed;
                if ok {
                    self.phase = SendPhase::Done(DeliveryResult::DirectDelivered);
                } else if dialed {
                    self.phase = start_flood(sessions);
                    proof {
                        self.flooding(sessions@);
                    }
                } else {
                    self.phase = SendPhase::Done(DeliveryResult::Failed);
                }
            },
            SendPhase::Flood { targets, next, any_sent } => {
                let any = *any_sent || ok;
                if targets.len() - *next > 1 {
                    *next = *next + 1;
                    *any_sent = any;
                } else if any {
                    self.phase = SendPhase::Done(DeliveryResult::RelayedViaGossip);
                } else {
                    self.phase = SendPhase::Done(DeliveryResult::Failed);
                }
                proof {
                    if let SendPhase::Flood { targets, next, .. } = before.phase {
                        let rest = handles(targets@).subrange(next as int, targets@.len() as int);
                        assert(rest.drop_first() =~= handles(targets@).subrange(
                            next + 1,
                            targets@.len() as int,
                        ));
                    }
                }
            },
            _ => {},
        }
    }
}

// ── Laws ───────────────────────────────────────────────────────────────────

/// Flooding writes to every session there is, each once, and starts with
/// nothing sent. Without sessions there is nothing to write to and the send
/// has failed.
pub proof fn floods_cover_the_sessions(phase: PhaseView, sessions: Map<Seq<char>, u64>)
    requires
        floods(phase, sessions),
    ensures
        phase == PhaseView::Done(DeliveryResult::Failed) <==> sessions.dom() =~= Set::empty(),
        phase is Flood <==> !(sessions.dom() =~= Set::empty()),
        phase matches PhaseView::Flood { rest, any_sent } ==> {
            &&& !any_sent
            &&& rest.len() > 0
            &&& sessions.dom().finite()
            &&& rest.len() == sessions.dom().len()
            &&& forall|a: Seq<char>| #[trigger]
                sessions.dom().contains(a) ==> rest.contains(sessions[a])
            &&& forall|i: int|
                0 <= i < rest.len() ==> exists|a: Seq<char>| #[trigger]
                    sessions.dom().contains(a) && sessions[a] == #[trigger] rest[i]
        },
{
    let list = choose|list: Seq<(String, u64)>| #[trigger]
        lists(list, sessions) && phase == if list.len() == 0 {
            PhaseView::Done(DeliveryResult::Failed)
        } else {
            PhaseView::Flood { rest: handles(list), any_sent: false }
        };
    let names = list.map_values(|t: (String, u64)| t.0@);
    assert(names.no_duplicates());
    names.unique_seq_to_set();
    assert(names.to_set() =~= sessions.dom()) by {
        assert forall|a: Seq<char>| names.to_set().contains(a) <==> sessions.dom().contains(a) by {
            if names.to_set().contains(a) {
                let i = choose|i: int| 0 <= i < names.len() && names[i] == a;
                assert(list[i].0@ == a);
            }
            if sessions.dom().contains(a) {
                let i = choose|i: int| 0 <= i < list.len() && (#[trigger] list[i]).0@ == a;
                assert(names[i] == a);
            }
        }
    }
    if list.len() > 0 {
        assert(sessions.dom().contains(list[0].0@));
    }
    let rest = handles(list);
    assert forall|a: Seq<char>| #[trigger] sessions.dom().contains(a) implies rest.contains(
        sessions[a],
    ) by {
        let i = choose|i: int| 0 <= i < list.len() && (#[trigger] list[i]).0@ == a;
        assert(rest[i] == sessions[a]);
    }
    assert forall|i: int| 0 <= i < rest.len() implies exists|a: Seq<char>| #[trigger]
        sessions.dom().contains(a) && sessions[a] == #[trigger] rest[i] by {
        assert(sessions.dom().contains(list[i].0@));
    }
}

/// A recipient whose address is known is written to over the session with
/// that address, dialed where there is none; one whose address is not known
/// is reached by flooding.
pub proof fn lookups_decide_the_way(
    recipient: Seq<u8>,
    data: Seq<u8>,
    after: PhaseView,
    addr: Option<Seq<char>>,
    sessions: Map<Seq<char>, u64>,
)
    requires
        looked_up(after, addr, sessions),
    ensures
        addr is None ==> floods(after, sessions),
        addr matches Some(a) ==> send_action(SendView { recipient, data, phase: after })
            == if sessions.dom().contains(a) {
            ActionView::Send { session: sessions[a], payload: message_bytes(data, 0) }
        } else {
            ActionView::Dial(a)
        },
{
}

/// A dial that worked out is followed by a write to the session it opened;
/// one that did not, or that left no session, by flooding.
pub proof fn dials_decide_the_way(
    recipient: Seq<u8>,
    data: Seq<u8>,
    after: PhaseView,
    addr: Seq<char>,
    connected: bool,
    sessions: Map<Seq<char>, u64>,
)
    requires
        dialed(after, addr, connected, sessions),
    ensures
        connected && sessions.dom().contains(addr) ==> send_action(
            SendView { recipient, data, phase: after },
        ) == (ActionView::Send { session: sessions[addr], payload: message_bytes(data, 0) }),
        !connected || !sessions.dom().contains(addr) ==> floods(after, sessions),
{
}

/// A direct write that worked out ends the send as delivered. One that did
/// not ends it as failed where the session was there before, and is followed
/// by flooding where it was opened for the send.
pub proof fn writes_decide_the_outcome(
    after: PhaseView,
    session: u64,
    was_dialed: bool,
    ok: bool,
    sessions: Map<Seq<char>, u64>,
)
    requires
        sent(after, PhaseView::Direct { session, dialed: was_dialed }, ok, sessions),
    ensures
        ok ==> after == PhaseView::Done(DeliveryResult::DirectDelivered),
        !ok && was_dialed ==> floods(after, sessions),
        !ok && !was_dialed ==> after == PhaseView::Done(DeliveryResult::Failed),
{
}

/// A send that is over stays over, with the outcome it had.
pub proof fn outcomes_are_final(
    send: SendView,
    result: DeliveryResult,
    after: PhaseView,
    ok: bool,
    sessions: Map<Seq<char>, u64>,
)
    requires
        send.phase == PhaseView::Done(result),
        sent(after, send.phase, ok, sessions),
    ensures
        after == send.phase,
        send_action(send) == ActionView::Finished(result),
{
}

/// A send begins with looking its recipient up, and a dial goes to the
/// address that was found.
pub proof fn sends_begin_with_a_lookup(recipient: Seq<u8>, data: Seq<u8>, addr: Seq<char>)
    ensures
        send_action(SendView { recipient, data, phase: PhaseView::Lookup }) == ActionView::LookUp(
            recipient,
        ),
        send_action(SendView { recipient, data, phase: PhaseView::Dial(addr) })
            == ActionView::Dial(addr),
{
}

/// A message sent to its recipient directly arrives without hops, so the
/// recipient relays it to nobody; a flooded one arrives with all of them.
pub proof fn hops_of_a_send(send: SendView)
    requires
        send.data.len() <= u64::MAX,
        send_action(send) is Send,
    ensures
        crate::network::parse_message(send_action(send)->payload) == Some(
            crate::network::MessageView {
                data: send.data,
                ttl: if send.phase is Direct {
                    0
                } else {
                    GOSSIP_FALLBACK_TTL
                },
            },
        ),
{
    let ttl: u8 = if send.phase is Direct {
        0
    } else {
        GOSSIP_FALLBACK_TTL
    };
    crate::network::message_round_trip(send.data, ttl, Seq::empty());
    assert(message_bytes(send.data, ttl) + Seq::<u8>::empty() =~= message_bytes(send.data, ttl));
}

/// A flood writes to each of its sessions once, in order, and ends as
/// relayed exactly where at least one write worked.
pub proof fn flood_reaches_every_session(
    phases: Seq<PhaseView>,
    oks: Seq<bool>,
    rest: Seq<u64>,
    any_sent: bool,
    sessions: Map<Seq<char>, u64>,
)
    requires
        rest.len() > 0,
        oks.len() == rest.len(),
        phases.len() == oks.len() + 1,
        phases[0] == (PhaseView::Flood { rest, any_sent }),
        forall|i: int|
            0 <= i < oks.len() ==> sent(phases[i + 1], #[trigger] phases[i], oks[i], sessions),
    ensures
        forall|i: int|
            0 <= i < oks.len() ==> (#[trigger] phases[i] matches PhaseView::Flood { rest: r, .. }
                && r.len() > 0 && r[0] == rest[i]),
        phases.last() == PhaseView::Done(
            if any_sent || oks.contains(true) {
                DeliveryResult::RelayedViaGossip
            } else {
                DeliveryResult::Failed
            },
        ),
    decreases rest.len(),
{
    assert(sent(phases[1], phases[0], oks[0], sessions));
    if rest.len() == 1 {
        assert(phases.last() == phases[1]);
        if oks.contains(true) {
            assert(oks[0]);
        }
        assert(oks[0] ==> oks.contains(true));
    } else {
        let tail = phases.drop_first();
        let more = oks.drop_first();
        assert forall|i: int| 0 <= i < more.len() implies sent(
            tail[i + 1],
            #[trigger] tail[i],
            more[i],
            sessions,
        ) by {
            assert(phases[i + 1] == tail[i]);
            assert(sent(phases[i + 1 + 1], phases[i + 1], oks[i + 1], sessions));
        }
        flood_reaches_every_session(tail, more, rest.drop_first(), any_sent || oks[0], sessions);
        assert forall|i: int| 0 <= i < oks.len() implies (#[trigger] phases[i] matches PhaseView::Flood {
            rest: r,
            ..
        } && r.len() > 0 && r[0] == rest[i]) by {
            if i > 0 {
                assert(tail[i - 1] == phases[i]);
            }
        }
        assert(tail.last() == phases.last());
        if more.contains(true) {
            let i = choose|i: int| 0 <= i < more.len() && more[i] == true;
            assert(oks[i + 1]);
        }
        if oks.contains(true) && !oks[0] {
            let i = choose|i: int| 0 <= i < oks.len() && oks[i] == true;
            assert(more[i - 1]);
        }
    }
}

} // verus!
