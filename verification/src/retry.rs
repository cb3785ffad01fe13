//! One pass over everything that waits in the outbox.
//!
//! For each recipient the pass looks the recipient up, gives up what is too
//! old, and sends again what is not, if the recipient is known. What fails
//! again goes back with the time it was first queued. Lookups and sends
//! happen elsewhere: [`RetryPass`] says which one is next and takes note of
//! how it went.
use std::collections::VecDeque;
use vstd::prelude::*;

use crate::delivery::DeliveryResult;
use crate::envelope::{DeliveryStatus, Envelope, EnvelopeView, MessageId, NodeId};
use crate::messenger_core::{CoreView, MessengerCore};
use crate::order::{filter_selects, is_selection, places};
use crate::peer::{find_addr, first_addr, PrimusNR};
use crate::pending_outbox::{
    drained, enqueued, entries_of, expired_part, fresh_part, is_expired, pending_entry, pushed,
    queue_of, OutboxView, PendingEntryView, PendingOutbox, MAX_PENDING_PER_RECIPIENT, MAX_RETRY_AGE,
};

verus! {

/// What is to be done next in a pass.
pub enum RetryAction {
    /// Look up the records closest to the recipient.
    LookUp(NodeId),
    /// Send the envelope to the recipient.
    Send { recipient: NodeId, envelope: Envelope },
    /// Nothing: the pass is over.
    Finished,
}

/// What is to be done next, as mathematical values.
pub enum RetryActionView {
    LookUp(Seq<u8>),
    Send { recipient: Seq<u8>, envelope: EnvelopeView },
    Finished,
}

impl View for RetryAction {
    type V = RetryActionView;

    open spec fn view(&self) -> RetryActionView {
        match self {
            RetryAction::LookUp(id) => RetryActionView::LookUp(id@),
            RetryAction::Send { recipient, envelope } => RetryActionView::Send {
                recipient: recipient@,
                envelope: envelope@,
            },
            RetryAction::Finished => RetryActionView::Finished,
        }
    }
}

/// One pass over the outbox.
pub struct RetryPass {
    now: u64,
    /// Recipients still to be looked up.
    todo: VecDeque<NodeId>,
    /// The recipient that envelopes are being sent to.
    recipient: NodeId,
    /// Envelopes still to be sent to it, the current one first.
    sending: VecDeque<(Envelope, u64)>,
}

/// What a `RetryPass` holds, as mathematical values.
#[verifier::ext_equal]
pub struct PassView {
    pub now: u64,
    pub todo: Seq<Seq<u8>>,
    pub recipient: Seq<u8>,
    pub sending: Seq<PendingEntryView>,
}

impl View for RetryPass {
    type V = PassView;

    closed spec fn view(&self) -> PassView {
        PassView {
            now: self.now,
            todo: self.todo@.map_values(|id: NodeId| id@),
            recipient: self.recipient@,
            sending: entries_of(self.sending@),
        }
    }
}

// ── Model ──────────────────────────────────────────────────────────────────

/// What is to be done next in `pass`.
pub open spec fn retry_action(pass: PassView) -> RetryActionView {
    if pass.sending.len() > 0 {
        RetryActionView::Send {
            recipient: pass.recipient,
            envelope: pass.sending[0].envelope,
        }
    } else if pass.todo.len() > 0 {
        RetryActionView::LookUp(pass.todo[0])
    } else {
        RetryActionView::Finished
    }
}

/// The core with every one of `given_up` marked as failed.
pub open spec fn all_failed(core: CoreView, given_up: Seq<PendingEntryView>) -> CoreView
    decreases given_up.len(),
{
    if given_up.len() == 0 {
        core
    } else {
        all_failed(core, given_up.drop_last()).with_status(
            given_up.last().envelope.message_id,
            DeliveryStatus::Failed,
        )
    }
}

/// The pass after its next recipient was looked up.
pub open spec fn pass_after_lookup(pass: PassView, outbox: OutboxView, is_known: bool) -> PassView {
    let recipient = pass.todo[0];
    PassView {
        now: pass.now,
        todo: pass.todo.drop_first(),
        recipient,
        sending: if is_known {
            fresh_part(queue_of(outbox, recipient), pass.now)
        } else {
            Seq::empty()
        },
    }
}

/// The pass after its current send ended.
pub open spec fn pass_after_send(pass: PassView) -> PassView {
    PassView { sending: pass.sending.drop_first(), ..pass }
}

/// The outbox after the current send of `pass` ended with `result`.
pub open spec fn outbox_after_retry(
    pass: PassView,
    outbox: OutboxView,
    result: DeliveryResult,
) -> OutboxView {
    if result == DeliveryResult::Failed {
        pushed(outbox, pass.recipient, pass.sending[0])
    } else {
        outbox
    }
}

// ── Implementation ─────────────────────────────────────────────────────────

/// Starts a pass at `now` over everyone who has something queued.
pub fn run_retry_pass(outbox: &PendingOutbox, now: u64) -> (out: RetryPass)
    requires
        outbox.wf(),
    ensures
        out@.now == now,
        out@.sending == Seq::<PendingEntryView>::empty(),
        out@.todo.no_duplicates(),
        forall|k: Seq<u8>| out@.todo.contains(k) <==> #[trigger] outbox@.dom().contains(k),
{
    let recipients = outbox.recipients();
    let mut todo: VecDeque<NodeId> = VecDeque::new();
    let mut i: usize = 0;
    while i < recipients.len()
        invariant
            i <= recipients@.len(),
            todo@ == recipients@.subrange(0, i as int),
        decreases recipients@.len() - i,
    {
        todo.push_back(recipients[i]);
        i = i + 1;
    }
    assert(todo@ =~= recipients@);
    let out = RetryPass { now, todo, recipient: [0u8; 32], sending: VecDeque::new() };
    proof {
        assert(out@.sending =~= Seq::<PendingEntryView>::empty());
        assert forall|k: Seq<u8>| out@.todo.contains(k) <==> #[trigger] outbox@.dom().contains(
            k,
        ) by {
            if out@.todo.contains(k) {
                let j = choose|j: int| 0 <= j < out@.todo.len() && out@.todo[j] == k;
                assert(recipients@[j]@ == k);
            }
            if outbox@.dom().contains(k) {
                let j = choose|j: int|
                    0 <= j < recipients@.len() && (#[trigger] recipients@[j])@ == k;
                assert(out@.todo[j] == k);
            }
        }
    }
    out
}

impl RetryPass {
    /// What is to be done next.
    pub fn action(&self) -> (out: RetryAction)
        ensures
            out@ == retry_action(self@),
    {
        if self.sending.len() > 0 {
            assert(self@.sending[0] == pending_entry(self.sending@[0].0@, self.sending@[0].1));
            return RetryAction::Send {
                recipient: self.recipient,
                envelope: self.sending[0].0.clone(),
            };
        }
        if self.todo.len() > 0 {
            return RetryAction::LookUp(self.todo[0]);
        }
        RetryAction::Finished
    }

    /// Takes note of the records that the lookup returned. The recipient is
    /// known if one of them has exactly its identifier. What is too old is
    /// marked as failed for good; what is not is sent next if the recipient
    /// is known and stays queued otherwise. Does nothing where no lookup is
    /// due.
    pub fn on_closest(
        &mut self,
        closest: &Vec<PrimusNR>,
        core: &mut MessengerCore,
        outbox: &mut PendingOutbox,
    )
        requires
            old(core).wf(),
            old(outbox).wf(),
        ensures
            final(core).wf(),
            final(outbox).wf(),
            if retry_action(old(self)@) is LookUp {
                let recipient = old(self)@.todo[0];
                let is_known = first_addr(closest@, recipient) is Some;
                &&& final(self)@ == pass_after_lookup(old(self)@, old(outbox)@, is_known)
                &&& final(outbox)@ == drained(old(outbox)@, recipient, old(self)@.now, is_known)
                &&& final(core)@ == all_failed(
                    old(core)@,
                    expired_part(queue_of(old(outbox)@, recipient), old(self)@.now),
                )
            } else {
                final(self)@ == old(self)@ && final(core)@ == old(core)@ && final(outbox)@
                    == old(outbox)@
            },
    {
        if self.sending.len() > 0 {
            return;
        }
        let recipient = match self.todo.pop_front() {
            Some(recipient) => recipient,
            None => {
                assert(self@ =~= old(self)@);
                return;
            },
        };
        assert(recipient@ == old(self)@.todo[0]);
        assert(self@.todo =~= old(self)@.todo.drop_first());
        let is_known = find_addr(closest, &recipient).is_some();
        let (expired, retryable) = outbox.drain_due(recipient, self.now, is_known);
        let ghost given_up = entries_of(expired@);
        let mut i: usize = 0;
        assert(given_up.subrange(0, 0) =~= Seq::empty());
        while i < expired.len()
            invariant
                i <= expired@.len(),
                core.wf(),
                given_up == entries_of(expired@),
                core@ == all_failed(old(core)@, given_up.subrange(0, i as int)),
            decreases expired@.len() - i,
        {
            proof {
                let next = given_up.subrange(0, i + 1);
                assert(next.drop_last() =~= given_up.subrange(0, i as int));
                assert(next.last() == pending_entry(expired@[i as int].0@, expired@[i as int].1));
            }
            core.mark_failed(&expired[i].0.message_id);
            i = i + 1;
        }
        assert(given_up.subrange(0, i as int) =~= given_up);
        self.recipient = recipient;
        self.sending = into_queue(retryable);
        assert(self@ =~= pass_after_lookup(old(self)@, old(outbox)@, is_known));
    }

    /// Takes note of how the current send ended. What failed again is queued
    /// again, with the time it was first queued. Returns what to report:
    /// the message and its outcome. Does nothing where no send is due.
    pub fn on_sent(&mut self, result: DeliveryResult, outbox: &mut PendingOutbox) -> (report: Option<
        (MessageId, DeliveryResult),
    >)
        requires
            old(outbox).wf(),
        ensures
            final(outbox).wf(),
            if retry_action(old(self)@) is Send {
                let entry = old(self)@.sending[0];
                &&& final(self)@ == pass_after_send(old(self)@)
                &&& final(outbox)@ == outbox_after_retry(old(self)@, old(outbox)@, result)
                &&& report matches Some(r) && r.0@ == entry.envelope.message_id && r.1 == result
            } else {
                final(self)@ == old(self)@ && final(outbox)@ == old(outbox)@ && report is None
            },
    {
        match self.sending.pop_front() {
            Some((envelope, first_queued_at)) => {
                assert(pending_entry(envelope@, first_queued_at) == old(self)@.sending[0]);
                assert(self@.sending =~= old(self)@.sending.drop_first());
                let message_id = envelope.message_id;
                if result == DeliveryResult::Failed {
                    outbox.push_with_timestamp(self.recipient, envelope, first_queued_at);
                }
                Some((message_id, result))
            },
            None => {
                assert(self@.sending =~= old(self)@.sending);
                None
            },
        }
    }
}

/// The pairs in a queue, in order.
fn into_queue(pairs: Vec<(Envelope, u64)>) -> (out: VecDeque<(Envelope, u64)>)
    ensures
        entries_of(out@) == entries_of(pairs@),
{
    let mut out: VecDeque<(Envelope, u64)> = VecDeque::new();
    let mut pairs = pairs;
    let ghost all = pairs@;
    while pairs.len() > 0
        invariant
            out@ + pairs@ == all,
        decreases pairs@.len(),
    {
        let ghost before = out@ + pairs@;
        let pair = pairs.remove(0);
        out.push_back(pair);
        assert(out@ + pairs@ =~= before);
    }
    assert(out@ =~= all);
    out
}

// ── Laws ───────────────────────────────────────────────────────────────────

/// Every queued envelope is either given up or kept, none is lost and none
/// appears twice.
pub proof fn draining_loses_nothing(queue: Seq<PendingEntryView>, now: u64)
    ensures
        expired_part(queue, now).to_multiset().add(fresh_part(queue, now).to_multiset())
            =~= queue.to_multiset(),
    decreases queue.len(),
{
    reveal(Seq::filter);
    broadcast use vstd::seq_lib::group_to_multiset_ensures;

    if queue.len() > 0 {
        let init = queue.drop_last();
        draining_loses_nothing(init, now);
        assert(queue =~= init.push(queue.last()));
        let old_p = |e: PendingEntryView| is_expired(e, now);
        let new_p = |e: PendingEntryView| !is_expired(e, now);
        assert(queue.filter(old_p) == if old_p(queue.last()) {
            init.filter(old_p).push(queue.last())
        } else {
            init.filter(old_p)
        });
        assert(queue.filter(new_p) == if new_p(queue.last()) {
            init.filter(new_p).push(queue.last())
        } else {
            init.filter(new_p)
        });
        let e = expired_part(init, now);
        let f = fresh_part(init, now);
        assert(init.push(queue.last()).to_multiset() =~= init.to_multiset().insert(queue.last()));
        assert(e.push(queue.last()).to_multiset() =~= e.to_multiset().insert(queue.last()));
        assert(f.push(queue.last()).to_multiset() =~= f.to_multiset().insert(queue.last()));
    }
}

/// What is given up, and what is not, are the envelopes that were queued
/// more than the longest time ago and those that were not, each in the order
/// in which they were queued.
pub proof fn draining_keeps_the_order(queue: Seq<PendingEntryView>, now: u64)
    ensures
        exists|at: Seq<int>| #[trigger]
            is_selection(expired_part(queue, now), queue, at) && forall|k: int|
                #![trigger queue[k]]
                0 <= k < queue.len() ==> (at.contains(k) <==> now - queue[k].first_queued_at
                    > MAX_RETRY_AGE),
        exists|at: Seq<int>| #[trigger]
            is_selection(fresh_part(queue, now), queue, at) && forall|k: int|
                #![trigger queue[k]]
                0 <= k < queue.len() ==> (at.contains(k) <==> now - queue[k].first_queued_at
                    <= MAX_RETRY_AGE),
{
    let old_p = |e: PendingEntryView| is_expired(e, now);
    let new_p = |e: PendingEntryView| !is_expired(e, now);
    filter_selects(queue, old_p);
    filter_selects(queue, new_p);
    assert(is_selection(expired_part(queue, now), queue, places(queue, old_p)));
    assert(is_selection(fresh_part(queue, now), queue, places(queue, new_p)));
}

/// What stays queued for an unknown recipient is what was not given up, in
/// the same order; for a known one nothing stays. Every other queue is left
/// alone, and nobody is listed with an empty queue.
pub proof fn draining_keeps_what_waits(outbox: OutboxView, recipient: Seq<u8>, now: u64)
    ensures
        ({
            let unknown = drained(outbox, recipient, now, false);
            let known = drained(outbox, recipient, now, true);
            let kept = fresh_part(queue_of(outbox, recipient), now);
            &&& queue_of(unknown, recipient) == kept
            &&& unknown.dom().contains(recipient) <==> kept.len() > 0
            &&& unknown.remove(recipient) == outbox.remove(recipient)
            &&& known == outbox.remove(recipient)
            &&& queue_of(known, recipient).len() == 0
        }),
{
    let unknown = drained(outbox, recipient, now, false);
    let kept = fresh_part(queue_of(outbox, recipient), now);
    assert(unknown.remove(recipient) =~= outbox.remove(recipient));
    if kept.len() == 0 {
        assert(queue_of(unknown, recipient) =~= kept);
    }
}

/// Where a recipient is not known and nothing has waited too long, going
/// through the queue leaves the outbox exactly as it was.
pub proof fn waiting_changes_nothing(outbox: OutboxView, recipient: Seq<u8>, now: u64)
    requires
        outbox.dom().contains(recipient) ==> outbox[recipient].len() > 0,
        forall|i: int|
            0 <= i < queue_of(outbox, recipient).len() ==> now - (#[trigger] queue_of(
                outbox,
                recipient,
            )[i]).first_queued_at <= MAX_RETRY_AGE,
    ensures
        drained(outbox, recipient, now, false) == outbox,
{
    let queue = queue_of(outbox, recipient);
    filter_keeps_all(queue, now);
    assert(drained(outbox, recipient, now, false) =~= outbox);
}

/// However often an unknown recipient's queue is gone through, the retry
/// that finds the recipient known gets the envelopes as they were queued,
/// oldest first.
pub proof fn retries_come_oldest_first(
    outbox: OutboxView,
    recipient: Seq<u8>,
    earlier: u64,
    now: u64,
)
    requires
        earlier <= now,
        forall|i: int|
            0 <= i < queue_of(outbox, recipient).len() ==> now - (#[trigger] queue_of(
                outbox,
                recipient,
            )[i]).first_queued_at <= MAX_RETRY_AGE,
    ensures
        fresh_part(queue_of(drained(outbox, recipient, earlier, false), recipient), now)
            == queue_of(outbox, recipient),
{
    let queue = queue_of(outbox, recipient);
    assert forall|i: int| 0 <= i < queue.len() implies !is_expired(
        #[trigger] queue[i],
        earlier,
    ) by {}
    filter_keeps_all(queue, earlier);
    filter_keeps_all(queue, now);
    draining_keeps_what_waits(outbox, recipient, earlier);
}

/// A newly queued envelope stands last for its recipient, behind everything
/// that waited before, the oldest of which gives way where the queue is full.
pub proof fn queueing_appends(outbox: OutboxView, recipient: Seq<u8>, entry: PendingEntryView)
    requires
        queue_of(outbox, recipient).len() <= MAX_PENDING_PER_RECIPIENT,
    ensures
        ({
            let before = queue_of(outbox, recipient);
            let after = queue_of(pushed(outbox, recipient, entry), recipient);
            &&& pushed(outbox, recipient, entry).dom().contains(recipient)
            &&& pushed(outbox, recipient, entry).remove(recipient) == outbox.remove(recipient)
            &&& after.last() == entry
            &&& before.len() < MAX_PENDING_PER_RECIPIENT ==> after.drop_last() == before
            &&& before.len() == MAX_PENDING_PER_RECIPIENT ==> after.drop_last()
                == before.drop_first()
        }),
{
    cap_evicts_the_oldest(queue_of(outbox, recipient), entry);
    assert(pushed(outbox, recipient, entry).remove(recipient) =~= outbox.remove(recipient));
}

/// A retry that failed waits again, last for its recipient and with the time
/// at which it was first queued; one that did not leaves the outbox as it is.
/// Either way the pass goes on with what is left.
pub proof fn failed_retries_keep_their_time(
    pass: PassView,
    outbox: OutboxView,
    result: DeliveryResult,
)
    requires
        pass.sending.len() > 0,
    ensures
        ({
            let after = outbox_after_retry(pass, outbox, result);
            let left = pass_after_send(pass);
            &&& result != DeliveryResult::Failed ==> after == outbox
            &&& result == DeliveryResult::Failed ==> {
                &&& queue_of(after, pass.recipient).len() > 0
                &&& queue_of(after, pass.recipient).last().envelope == pass.sending[0].envelope
                &&& queue_of(after, pass.recipient).last().first_queued_at
                    == pass.sending[0].first_queued_at
                &&& after.remove(pass.recipient) == outbox.remove(pass.recipient)
            }
            &&& pass.sending == seq![pass.sending[0]] + left.sending
            &&& left.todo == pass.todo
            &&& left.recipient == pass.recipient
            &&& left.now == pass.now
        }),
{
    let after = outbox_after_retry(pass, outbox, result);
    assert(after.remove(pass.recipient) =~= outbox.remove(pass.recipient));
    assert(pass.sending =~= seq![pass.sending[0]] + pass_after_send(pass).sending);
}

/// A pass goes on to the next recipient, and sends it, oldest first, all
/// that waits and is not too old where it is known, and nothing where it is
/// not.
pub proof fn passes_send_what_waits(pass: PassView, outbox: OutboxView, is_known: bool)
    requires
        pass.todo.len() > 0,
    ensures
        ({
            let after = pass_after_lookup(pass, outbox, is_known);
            &&& after.now == pass.now
            &&& after.recipient == pass.todo[0]
            &&& seq![pass.todo[0]] + after.todo == pass.todo
            &&& is_known ==> after.sending == fresh_part(queue_of(outbox, pass.todo[0]), pass.now)
            &&& !is_known ==> after.sending.len() == 0
        }),
{
    assert(seq![pass.todo[0]] + pass.todo.drop_first() =~= pass.todo);
}

/// A pass sends before it looks anyone else up, and is over exactly when
/// nothing is left to send and nobody to look up.
pub proof fn passes_go_in_order(pass: PassView)
    ensures
        retry_action(pass) is Finished <==> pass.sending.len() == 0 && pass.todo.len() == 0,
        retry_action(pass) is Send <==> pass.sending.len() > 0,
        retry_action(pass) matches RetryActionView::Send { recipient, envelope } ==> recipient
            == pass.recipient && envelope == pass.sending[0].envelope,
        retry_action(pass) matches RetryActionView::LookUp(id) ==> id == pass.todo[0],
{
}

/// Of the messages given up, those that are held end as failed; every other
/// message, and every envelope, stays as it was.
pub proof fn given_up_messages_are_failed(
    core: CoreView,
    given_up: Seq<PendingEntryView>,
    id: Seq<u8>,
)
    ensures
        ({
            let after = all_failed(core, given_up);
            let named = exists|i: int|
                0 <= i < given_up.len() && (#[trigger] given_up[i]).envelope.message_id == id;
            &&& after.store.dom() == core.store.dom()
            &&& after.outbound == core.outbound
            &&& after.local_node_id == core.local_node_id
            &&& core.store.dom().contains(id) ==> after.store[id].envelope
                == core.store[id].envelope
            &&& core.store.dom().contains(id) && named ==> after.store[id].status
                == DeliveryStatus::Failed
            &&& core.store.dom().contains(id) && !named ==> after.store[id] == core.store[id]
        }),
    decreases given_up.len(),
{
    if given_up.len() > 0 {
        let init = given_up.drop_last();
        given_up_messages_are_failed(core, init, id);
        let last = given_up.last().envelope.message_id;
        assert(all_failed(core, given_up).store.dom() =~= core.store.dom());
        if exists|i: int| 0 <= i < init.len() && (#[trigger] init[i]).envelope.message_id == id {
            let i = choose|i: int|
                0 <= i < init.len() && (#[trigger] init[i]).envelope.message_id == id;
            assert(given_up[i].envelope.message_id == id);
        }
        if exists|i: int|
            0 <= i < given_up.len() && (#[trigger] given_up[i]).envelope.message_id == id {
            let i = choose|i: int|
                0 <= i < given_up.len() && (#[trigger] given_up[i]).envelope.message_id == id;
            if i < init.len() {
                assert(init[i].envelope.message_id == id);
            }
        }
        assert(given_up[given_up.len() - 1].envelope.message_id == last);
    }
}

/// Once given up at some time, an envelope would be given up at every later
/// time, known recipient or not.
pub proof fn expiry_is_final(entry: PendingEntryView, now: u64, later: u64)
    requires
        is_expired(entry, now),
        now <= later,
    ensures
        is_expired(entry, later),
{
}

/// The outbox with each of `entries` queued for `recipient` in turn.
pub open spec fn all_pushed(
    outbox: OutboxView,
    recipient: Seq<u8>,
    entries: Seq<PendingEntryView>,
) -> OutboxView
    decreases entries.len(),
{
    if entries.len() == 0 {
        outbox
    } else {
        pushed(all_pushed(outbox, recipient, entries.drop_last()), recipient, entries.last())
    }
}

/// Envelopes queued in turn for someone who has nothing queued make up
/// exactly that queue.
proof fn pushes_build_the_queue(outbox: OutboxView, recipient: Seq<u8>, entries: Seq<PendingEntryView>)
    requires
        !outbox.dom().contains(recipient),
        entries.len() <= MAX_PENDING_PER_RECIPIENT,
    ensures
        entries.len() > 0 ==> all_pushed(outbox, recipient, entries) == outbox.insert(
            recipient,
            entries,
        ),
    decreases entries.len(),
{
    if entries.len() > 0 {
        let init = entries.drop_last();
        pushes_build_the_queue(outbox, recipient, init);
        assert(entries =~= init.push(entries.last()));
        let before = all_pushed(outbox, recipient, init);
        assert(queue_of(before, recipient) =~= init);
        assert(all_pushed(outbox, recipient, entries) =~= outbox.insert(recipient, entries));
    }
}

/// Where a recipient is known, nothing is too old, and every retry fails
/// again, the outbox ends as it was: same envelopes, same order, same ages.
pub proof fn failed_retries_change_nothing(outbox: OutboxView, recipient: Seq<u8>, now: u64)
    requires
        outbox.dom().contains(recipient),
        0 < outbox[recipient].len() <= MAX_PENDING_PER_RECIPIENT,
        forall|i: int|
            0 <= i < outbox[recipient].len() ==> !is_expired(
                #[trigger] outbox[recipient][i],
                now,
            ),
    ensures
        all_pushed(
            drained(outbox, recipient, now, true),
            recipient,
            fresh_part(outbox[recipient], now),
        ) == outbox,
{
    let queue = outbox[recipient];
    filter_keeps_all(queue, now);
    pushes_build_the_queue(outbox.remove(recipient), recipient, queue);
    assert(outbox.remove(recipient).insert(recipient, queue) =~= outbox);
}

/// A queue in which nothing is too old is fresh as a whole.
proof fn filter_keeps_all(queue: Seq<PendingEntryView>, now: u64)
    requires
        forall|i: int|
            0 <= i < queue.len() ==> !is_expired(#[trigger] queue[i], now),
    ensures
        fresh_part(queue, now) == queue,
    decreases queue.len(),
{
    reveal(Seq::filter);
    if queue.len() > 0 {
        let init = queue.drop_last();
        assert forall|i: int| 0 <= i < init.len() implies !is_expired(
            #[trigger] init[i],
            now,
        ) by {
            assert(init[i] == queue[i]);
        }
        filter_keeps_all(init, now);
        assert(!is_expired(queue[queue.len() - 1], now));
        assert(init.push(queue.last()) =~= queue);
    }
}

/// Queueing for one recipient, or going through one recipient's queue,
/// leaves every other recipient's queue alone.
pub proof fn queues_are_independent(
    outbox: OutboxView,
    recipient: Seq<u8>,
    other: Seq<u8>,
    entry: PendingEntryView,
    now: u64,
    is_known: bool,
)
    requires
        recipient != other,
    ensures
        queue_of(pushed(outbox, recipient, entry), other) == queue_of(outbox, other),
        queue_of(drained(outbox, recipient, now, is_known), other) == queue_of(outbox, other),
{
}

/// A full queue takes a new envelope in place of its oldest, and no queue
/// ever grows past the cap.
pub proof fn cap_evicts_the_oldest(queue: Seq<PendingEntryView>, entry: PendingEntryView)
    requires
        queue.len() <= MAX_PENDING_PER_RECIPIENT,
    ensures
        enqueued(queue, entry).len()
            <= MAX_PENDING_PER_RECIPIENT,
        enqueued(queue, entry).last() == entry,
        queue.len() == MAX_PENDING_PER_RECIPIENT
            ==> enqueued(queue, entry).drop_last() == queue.drop_first(),
        queue.len() < MAX_PENDING_PER_RECIPIENT
            ==> enqueued(queue, entry).drop_last() == queue,
{
    let after = enqueued(queue, entry);
    if queue.len() == MAX_PENDING_PER_RECIPIENT {
        assert(after.drop_last() =~= queue.drop_first());
    } else {
        assert(after.drop_last() =~= queue);
    }
}

} // verus!
