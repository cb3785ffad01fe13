//! Retry queue for failed sends.
//!
//! A message whose send failed waits here, per recipient, until the
//! recipient's address is known again or the message is too old. Retries
//! are gated on the recipient being resolvable, so that nothing is flooded
//! to every peer on a timer.
use std::collections::VecDeque;
use vstd::prelude::*;

use crate::clock::{unix_now, unix_timestamp};
use crate::envelope::{Envelope, EnvelopeView, NodeId};
use crate::id_map::IdMap;

verus! {

/// Per-recipient cap on queued envelopes. The oldest goes when it is
/// reached.
pub const MAX_PENDING_PER_RECIPIENT: usize = 1000;

/// How many seconds an envelope may be queued: seven days. One that has been
/// queued longer is given up.
pub const MAX_RETRY_AGE: u64 = 604800;

/// Seconds between two retry passes.
pub const RETRY_INTERVAL: u64 = 30;

/// One queued envelope.
struct PendingEntry {
    envelope: Envelope,
    /// Unix epoch seconds when the envelope was first queued. Kept when it
    /// is queued again.
    first_queued_at: u64,
}

/// What a queued envelope holds, as mathematical values.
#[verifier::ext_equal]
pub struct PendingEntryView {
    pub envelope: EnvelopeView,
    pub first_queued_at: u64,
}

impl View for PendingEntry {
    type V = PendingEntryView;

    closed spec fn view(&self) -> PendingEntryView {
        PendingEntryView { envelope: self.envelope@, first_queued_at: self.first_queued_at }
    }
}

/// One recipient's queue, oldest first.
struct RecipientQueue {
    entries: VecDeque<PendingEntry>,
}

impl View for RecipientQueue {
    type V = Seq<PendingEntryView>;

    closed spec fn view(&self) -> Seq<PendingEntryView> {
        self.entries@.map_values(|e: PendingEntry| e@)
    }
}

/// Per-recipient queue of envelopes whose most recent send failed.
pub struct PendingOutbox {
    entries: IdMap<RecipientQueue>,
}

/// The queues by recipient.
pub type OutboxView = Map<Seq<u8>, Seq<PendingEntryView>>;

impl View for PendingOutbox {
    type V = OutboxView;

    closed spec fn view(&self) -> OutboxView {
        self.entries@
    }
}

// ── Model ──────────────────────────────────────────────────────────────────

/// An envelope first queued at a time.
pub open spec fn pending_entry(envelope: EnvelopeView, first_queued_at: u64) -> PendingEntryView {
    PendingEntryView { envelope, first_queued_at }
}

/// The queue of `recipient`, empty where there is none.
pub open spec fn queue_of(outbox: OutboxView, recipient: Seq<u8>) -> Seq<PendingEntryView> {
    if outbox.dom().contains(recipient) {
        outbox[recipient]
    } else {
        Seq::empty()
    }
}

/// `queue` with `entry` last, without its oldest entry where the cap was
/// reached.
pub open spec fn enqueued(queue: Seq<PendingEntryView>, entry: PendingEntryView) -> Seq<
    PendingEntryView,
> {
    if queue.len() >= MAX_PENDING_PER_RECIPIENT {
        queue.drop_first().push(entry)
    } else {
        queue.push(entry)
    }
}

/// The outbox with `entry` queued for `recipient`.
pub open spec fn pushed(outbox: OutboxView, recipient: Seq<u8>, entry: PendingEntryView) -> OutboxView {
    outbox.insert(recipient, enqueued(queue_of(outbox, recipient), entry))
}

/// Whether an entry is too old to be retried at `now`.
pub open spec fn is_expired(entry: PendingEntryView, now: u64) -> bool {
    now - entry.first_queued_at > MAX_RETRY_AGE
}

/// The entries of a queue that are given up at `now`, in order.
pub open spec fn expired_part(queue: Seq<PendingEntryView>, now: u64) -> Seq<PendingEntryView> {
    queue.filter(|e: PendingEntryView| is_expired(e, now))
}

/// The entries of a queue that are not given up at `now`, in order.
pub open spec fn fresh_part(queue: Seq<PendingEntryView>, now: u64) -> Seq<PendingEntryView> {
    queue.filter(|e: PendingEntryView| !is_expired(e, now))
}

/// The outbox after `recipient`'s queue was gone through at `now`.
pub open spec fn drained(
    outbox: OutboxView,
    recipient: Seq<u8>,
    now: u64,
    is_known: bool,
) -> OutboxView {
    let fresh = fresh_part(queue_of(outbox, recipient), now);
    if is_known || fresh.len() == 0 {
        outbox.remove(recipient)
    } else {
        outbox.insert(recipient, fresh)
    }
}

/// How many envelopes all queues hold together.
pub open spec fn total(outbox: OutboxView) -> nat
    decreases outbox.dom().len(),
    when outbox.dom().finite()
{
    if outbox.dom().len() == 0 {
        0
    } else {
        let k = outbox.dom().choose();
        outbox[k].len() + total(outbox.remove(k))
    }
}

/// The total is that of any one recipient's queue and of all the others; an
/// empty outbox has none.
pub proof fn total_splits(outbox: OutboxView, k: Seq<u8>)
    requires
        outbox.dom().finite(),
        outbox.dom().contains(k),
    ensures
        total(outbox) == outbox[k].len() + total(outbox.remove(k)),
    decreases outbox.dom().len(),
{
    let c = outbox.dom().choose();
    if c != k {
        total_splits(outbox.remove(c), k);
        total_splits(outbox.remove(k), c);
        assert(outbox.remove(c).remove(k) =~= outbox.remove(k).remove(c));
    }
}

/// Where no queue is longer than `cap`, all of them together hold at most
/// `cap` envelopes per recipient.
proof fn total_bound(outbox: OutboxView, cap: nat)
    requires
        outbox.dom().finite(),
        forall|k: Seq<u8>| #[trigger] outbox.dom().contains(k) ==> outbox[k].len() <= cap,
    ensures
        total(outbox) <= cap * outbox.dom().len(),
    decreases outbox.dom().len(),
{
    let n = outbox.dom().len();
    if n > 0 {
        let k = outbox.dom().choose();
        total_bound(outbox.remove(k), cap);
        assert(cap * n == cap + cap * (n - 1)) by (nonlinear_arith);
    }
}

/// What pairs of envelope and time hold, as mathematical values.
pub open spec fn entries_of(pairs: Seq<(Envelope, u64)>) -> Seq<PendingEntryView> {
    pairs.map_values(
        |p: (Envelope, u64)| pending_entry(p.0@, p.1),
    )
}

/// `filter` on one more element at the end.
proof fn filter_push(s: Seq<PendingEntryView>, e: PendingEntryView, p: spec_fn(PendingEntryView) -> bool)
    ensures
        s.push(e).filter(p) == if p(e) {
            s.filter(p).push(e)
        } else {
            s.filter(p)
        },
{
    reveal(Seq::filter);
    assert(s.push(e).drop_last() =~= s);
}

// ── Implementation ─────────────────────────────────────────────────────────

impl PendingOutbox {
    /// Every queue holds at least one and at most the capped number of
    /// envelopes.
    pub closed spec fn wf(self) -> bool {
        &&& self.entries.wf()
        &&& forall|k: Seq<u8>| #[trigger]
            self.entries@.dom().contains(k) ==> 0 < self.entries@[k].len()
                <= MAX_PENDING_PER_RECIPIENT
    }

    /// No queue is empty or longer than the cap.
    pub proof fn queues_are_bounded(self, recipient: Seq<u8>)
        requires
            self.wf(),
            self@.dom().contains(recipient),
        ensures
            0 < self@[recipient].len() <= MAX_PENDING_PER_RECIPIENT,
    {
    }

    /// The outbox holds at most the capped number of envelopes for each
    /// recipient that it lists.
    pub proof fn total_is_bounded(self)
        requires
            self.wf(),
        ensures
            self@.dom().finite(),
            total(self@) <= MAX_PENDING_PER_RECIPIENT * self@.dom().len(),
    {
        self.entries.dom_is_finite();
        total_bound(self@, MAX_PENDING_PER_RECIPIENT as nat);
    }

    /// An empty outbox.
    pub fn new() -> (out: Self)
        ensures
            out.wf(),
            out@ == OutboxView::empty(),
    {
        PendingOutbox { entries: IdMap::new() }
    }

    /// Queues an envelope for retry, stamped with the time that the clock
    /// shows.
    pub fn push(&mut self, recipient_node_id: NodeId, envelope: Envelope)
        requires
            old(self).wf(),
        ensures
            final(self).wf(),
            exists|time: std::time::SystemTime|
                final(self)@ == pushed(
                    old(self)@,
                    recipient_node_id@,
                    pending_entry(envelope@, #[trigger] unix_timestamp(time)),
                ),
    {
        let now: u64 = unix_now();
        self.push_with_timestamp(recipient_node_id, envelope, now);
    }

    /// Queues an envelope for retry with an explicit first time, so that a
    /// retry that failed again does not make the envelope younger.
    pub fn push_with_timestamp(
        &mut self,
        recipient_node_id: NodeId,
        envelope: Envelope,
        first_queued_at: u64,
    )
        requires
            old(self).wf(),
        ensures
            final(self).wf(),
            final(self)@ == pushed(
                old(self)@,
                recipient_node_id@,
                pending_entry(envelope@, first_queued_at),
            ),
    {
        let ghost before = queue_of(self@, recipient_node_id@);
        let mut queue = match self.entries.remove(&recipient_node_id) {
            Some(queue) => queue,
            None => RecipientQueue { entries: VecDeque::new() },
        };
        assert(queue@ =~= before);
        if queue.entries.len() >= MAX_PENDING_PER_RECIPIENT {
            let _evicted = queue.entries.pop_front();
            assert(queue@ =~= before.drop_first());
        }
        let ghost kept = queue@;
        let entry = PendingEntry { envelope, first_queued_at };
        let ghost added = entry@;
        queue.entries.push_back(entry);
        assert(queue@ =~= kept.push(added));
        assert(queue@ == enqueued(before, added));
        self.entries.insert(recipient_node_id, queue);
        assert(self@ =~= pushed(old(self)@, recipient_node_id@, added));
    }

    /// Envelopes queued across all recipients.
    pub fn len(&self) -> (n: usize)
        requires
            self.wf(),
            total(self@) <= usize::MAX,
        ensures
            n == total(self@),
    {
        let keys = self.entries.keys();
        let mut n: usize = 0;
        let mut i: usize = 0;
        let ghost mut rest = self@;
        while i < keys.len()
            invariant
                self.wf(),
                i <= keys@.len(),
                total(self@) <= usize::MAX,
                n + total(rest) == total(self@),
                rest.dom().finite(),
                rest.submap_of(self@),
                rest.dom().len() == keys@.len() - i,
                forall|j: int| i <= j < keys@.len() ==> rest.dom().contains((#[trigger] keys@[j])@),
                forall|j: int, k: int|
                    0 <= j < k < keys@.len() ==> (#[trigger] keys@[j])@ != (#[trigger] keys@[k])@,
            decreases keys@.len() - i,
        {
            proof {
                total_splits(rest, keys@[i as int]@);
            }
            let ghost before = rest;
            match self.entries.get(&keys[i]) {
                Some(queue) => {
                    n = n + queue.entries.len();
                },
                None => {},
            }
            proof {
                rest = rest.remove(keys@[i as int]@);
                assert forall|j: int| i + 1 <= j < keys@.len() implies rest.dom().contains(
                    (#[trigger] keys@[j])@,
                ) by {
                    assert(before.dom().contains(keys@[j]@));
                    assert(keys@[i as int]@ != keys@[j]@);
                }
            }
            i = i + 1;
        }
        assert(total(rest) == 0);
        n
    }

    /// The recipients that have something queued, each once.
    pub fn recipients(&self) -> (out: Vec<NodeId>)
        requires
            self.wf(),
        ensures
            out@.len() == self@.dom().len(),
            forall|i: int| 0 <= i < out@.len() ==> self@.dom().contains((#[trigger] out@[i])@),
            forall|k: Seq<u8>| #[trigger]
                self@.dom().contains(k) ==> exists|i: int|
                    0 <= i < out@.len() && (#[trigger] out@[i])@ == k,
            forall|i: int, j: int|
                0 <= i < j < out@.len() ==> (#[trigger] out@[i])@ != (#[trigger] out@[j])@,
    {
        self.entries.keys()
    }

    /// Goes through `recipient`'s queue at `now`. Envelopes past the age
    /// limit leave it and come back first; where the recipient is known,
    /// all others leave it and come back second; what else there is stays.
    pub fn drain_due(&mut self, recipient: NodeId, now: u64, is_known: bool) -> (out: (
        Vec<(Envelope, u64)>,
        Vec<(Envelope, u64)>,
    ))
        requires
            old(self).wf(),
        ensures
            final(self).wf(),
            final(self)@ == drained(old(self)@, recipient@, now, is_known),
            entries_of(out.0@) == expired_part(queue_of(old(self)@, recipient@), now),
            entries_of(out.1@) == if is_known {
                fresh_part(queue_of(old(self)@, recipient@), now)
            } else {
                Seq::empty()
            },
    {
        let ghost all = queue_of(self@, recipient@);
        let ghost old_p = |e: PendingEntryView| is_expired(e, now);
        let ghost new_p = |e: PendingEntryView| !is_expired(e, now);
        let mut expired: Vec<(Envelope, u64)> = Vec::new();
        let mut retryable: Vec<(Envelope, u64)> = Vec::new();
        let mut queue = match self.entries.remove(&recipient) {
            Some(queue) => queue,
            None => {
                proof {
                    reveal(Seq::filter);
                    assert(all.len() == 0);
                    assert(entries_of(expired@) =~= expired_part(all, now));
                    assert(entries_of(retryable@) =~= fresh_part(all, now));
                    assert(self@ =~= old(self)@.remove(recipient@));
                }
                return (expired, retryable);
            },
        };
        let mut keep: VecDeque<PendingEntry> = VecDeque::new();
        let ghost kept = Seq::<PendingEntryView>::empty();
        let ghost mut done: int = 0;
        proof {
            reveal(Seq::filter);
            assert(all.subrange(0, 0).filter(old_p) =~= Seq::empty());
            assert(all.subrange(0, 0).filter(new_p) =~= Seq::empty());
            assert(entries_of(expired@) =~= Seq::empty());
            assert(entries_of(retryable@) =~= Seq::empty());
            assert(keep@.map_values(|e: PendingEntry| e@) =~= Seq::empty());
            assert(all.subrange(0, all.len() as int) =~= all);
        }
        loop
            invariant
                0 <= done <= all.len(),
                all.len() <= MAX_PENDING_PER_RECIPIENT,
                queue@ == all.subrange(done, all.len() as int),
                old_p == (|e: PendingEntryView| is_expired(e, now)),
                new_p == (|e: PendingEntryView| !is_expired(e, now)),
                entries_of(expired@) == all.subrange(0, done).filter(old_p),
                entries_of(retryable@) == if is_known {
                    all.subrange(0, done).filter(new_p)
                } else {
                    Seq::empty()
                },
                keep@.map_values(|e: PendingEntry| e@) == if is_known {
                    Seq::empty()
                } else {
                    all.subrange(0, done).filter(new_p)
                },
            ensures
                done == all.len(),
            decreases all.len() - done,
        {
            let ghost before = queue;
            match queue.entries.pop_front() {
                Some(entry) => {
                    let ghost e = entry@;
                    proof {
                        assert(before@.len() > 0);
                        assert(e == before@[0]);
                        assert(e == all[done]);
                        assert(queue@ =~= before@.drop_first());
                        assert(queue@ =~= all.subrange(done + 1, all.len() as int));
                        assert(all.subrange(0, done + 1) =~= all.subrange(0, done).push(e));
                        filter_push(all.subrange(0, done), e, old_p);
                        filter_push(all.subrange(0, done), e, new_p);
                    }
                    let age: u64 = now.saturating_sub(entry.first_queued_at);
                    if age > MAX_RETRY_AGE {
                        let ghost pairs = expired@;
                        expired.push((entry.envelope, entry.first_queued_at));
                        assert(entries_of(expired@) =~= entries_of(pairs).push(e));
                    } else if is_known {
                        let ghost pairs = retryable@;
                        retryable.push((entry.envelope, entry.first_queued_at));
                        assert(entries_of(retryable@) =~= entries_of(pairs).push(e));
                    } else {
                        let ghost held = keep@;
                        keep.push_back(entry);
                        assert(keep@.map_values(|e: PendingEntry| e@) =~= held.map_values(
                            |e: PendingEntry| e@,
                        ).push(e));
                    }
                    proof {
                        done = done + 1;
                    }
                },
                None => {
                    assert(before@.len() == 0);
                    break;
                },
            }
        }
        assert(all.subrange(0, done) =~= all);
        let ghost fresh = fresh_part(all, now);
        if keep.len() > 0 {
            let queue = RecipientQueue { entries: keep };
            assert(queue@ == fresh);
            assert(fresh.len() <= all.len()) by {
                filter_len(all, new_p);
            }
            self.entries.insert(recipient, queue);
            assert(self@ =~= old(self)@.insert(recipient@, fresh));
        } else {
            assert(!is_known ==> fresh.len() == 0) by {
                if !is_known {
                    assert(keep@.map_values(|e: PendingEntry| e@).len() == 0);
                }
            }
        }
        (expired, retryable)
    }
}

impl Default for PendingOutbox {
    fn default() -> (out: Self)
        ensures
            out.wf(),
            out@ == OutboxView::empty(),
    {
        PendingOutbox::new()
    }
}

/// Filtering makes no sequence longer.
proof fn filter_len(s: Seq<PendingEntryView>, p: spec_fn(PendingEntryView) -> bool)
    ensures
        s.filter(p).len() <= s.len(),
    decreases s.len(),
{
    reveal(Seq::filter);
    if s.len() > 0 {
        filter_len(s.drop_last(), p);
    }
}

} // verus!
