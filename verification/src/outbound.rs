//! Tracked sending, and sending of what the core queued.
use vstd::prelude::*;

use crate::delivery::{send_direct_message, DeliveryResult, DirectSend, PhaseView, SendView};
use crate::envelope::{
    envelope_bytes, DeliveryStatus, Envelope, EnvelopeView, MessageKind, NodeId,
};
use crate::messenger_core::{CoreView, MessengerCore, PendingSend, PendingSendView};
use crate::pending_outbox::{
    pending_entry, pushed, queue_of, OutboxView, PendingEntryView, PendingOutbox,
};

verus! {

// ── Model ──────────────────────────────────────────────────────────────────

/// Whether a tracked send of `envelope` that ended with `result` is to be
/// tried again.
pub open spec fn retry_due(envelope: EnvelopeView, result: DeliveryResult) -> bool {
    envelope.kind == MessageKind::DirectMessage && result == DeliveryResult::Failed
}

/// The core after a tracked send of `envelope` ended with `result`.
pub open spec fn core_after_send(
    core: CoreView,
    envelope: EnvelopeView,
    result: DeliveryResult,
) -> CoreView {
    if retry_due(envelope, result) {
        core.with_status(envelope.message_id, DeliveryStatus::Failed)
    } else {
        core
    }
}

/// The outbox after a tracked send of `envelope` to `recipient` ended with
/// `result` at `now`.
pub open spec fn outbox_after_send(
    outbox: OutboxView,
    recipient: Seq<u8>,
    envelope: EnvelopeView,
    result: DeliveryResult,
    now: u64,
) -> OutboxView {
    if retry_due(envelope, result) {
        pushed(outbox, recipient, pending_entry(envelope, now))
    } else {
        outbox
    }
}

/// The outbox after a dispatched send ended with `result` at `now`.
pub open spec fn outbox_after_dispatch(
    outbox: OutboxView,
    pending: PendingSendView,
    result: DeliveryResult,
    now: u64,
) -> OutboxView {
    if result == DeliveryResult::Failed {
        pushed(outbox, pending.recipient_node_id, pending_entry(pending.envelope, now))
    } else {
        outbox
    }
}

// ── Implementation ─────────────────────────────────────────────────────────

/// Starts sending `envelope` while tracking it in the core, so that a later
/// receipt has something to update. Only direct messages are tracked.
pub fn send_tracked_message(
    core: &mut MessengerCore,
    recipient_node_id: NodeId,
    envelope: &Envelope,
) -> (send: DirectSend)
    requires
        old(core).wf(),
    ensures
        final(core).wf(),
        final(core)@ == old(core)@.recorded(envelope@),
        send.wf(),
        send@ == (SendView {
            recipient: recipient_node_id@,
            data: envelope_bytes(envelope@),
            phase: PhaseView::Lookup,
        }),
{
    if envelope.kind == MessageKind::DirectMessage {
        core.record_sent(envelope.clone());
    }
    send_direct_message(recipient_node_id, envelope)
}

/// Takes note of how a tracked send ended at `now`. A direct message that
/// could not be sent is marked as failed and waits in the outbox for a
/// retry.
pub fn finish_tracked_send(
    core: &mut MessengerCore,
    outbox: &mut PendingOutbox,
    recipient_node_id: NodeId,
    envelope: Envelope,
    result: DeliveryResult,
    now: u64,
)
    requires
        old(core).wf(),
        old(outbox).wf(),
    ensures
        final(core).wf(),
        final(outbox).wf(),
        final(core)@ == core_after_send(old(core)@, envelope@, result),
        final(outbox)@ == outbox_after_send(
            old(outbox)@,
            recipient_node_id@,
            envelope@,
            result,
            now,
        ),
{
    if envelope.kind == MessageKind::DirectMessage && result == DeliveryResult::Failed {
        core.mark_failed(&envelope.message_id);
        outbox.push_with_timestamp(recipient_node_id, envelope, now);
    }
}

/// Takes the oldest send that the core queued and starts it.
pub fn run_outbound_dispatch(core: &mut MessengerCore) -> (out: Option<(PendingSend, DirectSend)>)
    requires
        old(core).wf(),
    ensures
        final(core).wf(),
        match out {
            Some((pending, send)) => old(core)@.outbound.len() > 0 && pending@
                == old(core)@.outbound[0] && final(core)@ == (CoreView {
                outbound: old(core)@.outbound.drop_first(),
                ..old(core)@
            }) && send.wf() && send@ == (SendView {
                recipient: pending@.recipient_node_id,
                data: envelope_bytes(pending@.envelope),
                phase: PhaseView::Lookup,
            }),
            None => old(core)@.outbound.len() == 0 && final(core)@ == old(core)@,
        },
{
    match core.next_outbound() {
        Some(pending) => {
            let send = send_direct_message(pending.recipient_node_id, &pending.envelope);
            Some((pending, send))
        },
        None => None,
    }
}

/// Takes note of how a dispatched send ended at `now`. What could not be
/// sent waits in the outbox for a retry.
pub fn finish_dispatch(
    outbox: &mut PendingOutbox,
    pending: PendingSend,
    result: DeliveryResult,
    now: u64,
)
    requires
        old(outbox).wf(),
    ensures
        final(outbox).wf(),
        final(outbox)@ == outbox_after_dispatch(old(outbox)@, pending@, result, now),
{
    if result == DeliveryResult::Failed {
        outbox.push_with_timestamp(pending.recipient_node_id, pending.envelope, now);
    }
}

// ── Laws ───────────────────────────────────────────────────────────────────

/// A direct message that could not be sent waits last in the queue of its
/// recipient, with the time at which the send ended, and shows as failed.
/// No other queue and no other message changes.
pub proof fn unsent_messages_wait(
    core: CoreView,
    outbox: OutboxView,
    recipient: Seq<u8>,
    envelope: EnvelopeView,
    now: u64,
)
    requires
        envelope.kind == MessageKind::DirectMessage,
    ensures
        ({
            let failed = DeliveryResult::Failed;
            let kept = core_after_send(core, envelope, failed);
            let queued = outbox_after_send(outbox, recipient, envelope, failed, now);
            let id = envelope.message_id;
            &&& queued.dom().contains(recipient)
            &&& queued[recipient].len() > 0
            &&& queued[recipient].last() == (PendingEntryView { envelope, first_queued_at: now })
            &&& queued.remove(recipient) == outbox.remove(recipient)
            &&& kept.store.dom() == core.store.dom()
            &&& kept.store.remove(id) == core.store.remove(id)
            &&& core.store.dom().contains(id) ==> kept.store[id].status == DeliveryStatus::Failed
                && kept.store[id].envelope == core.store[id].envelope
            &&& kept.outbound == core.outbound
            &&& kept.local_node_id == core.local_node_id
        }),
{
    let failed = DeliveryResult::Failed;
    let kept = core_after_send(core, envelope, failed);
    let queued = outbox_after_send(outbox, recipient, envelope, failed, now);
    assert(queued.remove(recipient) =~= outbox.remove(recipient));
    assert(kept.store.dom() =~= core.store.dom());
    assert(kept.store.remove(envelope.message_id) =~= core.store.remove(envelope.message_id));
}

/// A message that was sent changes nothing, and nor does anything but a
/// direct message, sent or not.
pub proof fn sent_messages_leave_nothing(
    core: CoreView,
    outbox: OutboxView,
    recipient: Seq<u8>,
    envelope: EnvelopeView,
    result: DeliveryResult,
    now: u64,
)
    requires
        result != DeliveryResult::Failed || envelope.kind != MessageKind::DirectMessage,
    ensures
        core_after_send(core, envelope, result) == core,
        outbox_after_send(outbox, recipient, envelope, result, now) == outbox,
{
}

/// What the core queued waits in the outbox exactly where it could not be
/// sent, whatever its kind, last in the queue of its recipient.
pub proof fn undispatched_sends_wait(
    outbox: OutboxView,
    pending: PendingSendView,
    result: DeliveryResult,
    now: u64,
)
    ensures
        ({
            let after = outbox_after_dispatch(outbox, pending, result, now);
            let to = pending.recipient_node_id;
            &&& result != DeliveryResult::Failed ==> after == outbox
            &&& result == DeliveryResult::Failed ==> {
                &&& queue_of(after, to).len() > 0
                &&& queue_of(after, to).last() == (PendingEntryView {
                    envelope: pending.envelope,
                    first_queued_at: now,
                })
                &&& after.remove(to) == outbox.remove(to)
            }
        }),
{
    let after = outbox_after_dispatch(outbox, pending, result, now);
    let to = pending.recipient_node_id;
    assert(after.remove(to) =~= outbox.remove(to));
}

} // verus!
