use messenger::clock::unix_now;
use messenger::delivery::DeliveryResult;
use messenger::envelope::{DeliveryStatus, Envelope, MessageKind};
use messenger::messenger_core::MessengerCore;
use messenger::outbound::{
    finish_dispatch, finish_tracked_send, run_outbound_dispatch, send_tracked_message,
};
use messenger::peer::PrimusNR;
use messenger::pending_outbox::{
    PendingOutbox, MAX_PENDING_PER_RECIPIENT, MAX_RETRY_AGE, RETRY_INTERVAL,
};
use messenger::retry::{run_retry_pass, RetryAction, RetryPass};

fn sample_envelope(id: u8) -> Envelope {
    Envelope {
        message_id: [id; 32],
        sender_node_id: [0xAA; 32],
        recipient_node_id: [0xBB; 32],
        ciphertext: vec![1, 2, 3],
        sent_at: 0,
        kind: MessageKind::DirectMessage,
    }
}

#[test]
fn push_and_len() {
    let mut outbox = PendingOutbox::new();
    outbox.push([1; 32], sample_envelope(1));
    outbox.push([1; 32], sample_envelope(2));
    outbox.push([2; 32], sample_envelope(3));

    assert_eq!(outbox.len(), 3);
    let mut recipients = outbox.recipients();
    recipients.sort();
    assert_eq!(recipients, vec![[1u8; 32], [2u8; 32]]);
}

#[test]
fn full_queue_evicts_the_oldest() {
    let mut outbox = PendingOutbox::new();
    for i in 0..MAX_PENDING_PER_RECIPIENT {
        outbox.push([9; 32], sample_envelope((i % 256) as u8));
    }
    assert_eq!(outbox.len(), MAX_PENDING_PER_RECIPIENT);

    outbox.push([9; 32], sample_envelope(200));
    assert_eq!(outbox.len(), MAX_PENDING_PER_RECIPIENT);

    let (expired, retryable) = outbox.drain_due([9; 32], unix_now(), true);
    assert!(expired.is_empty());
    assert_eq!(retryable.len(), MAX_PENDING_PER_RECIPIENT);
    // The first envelope is gone and the new one stands last; identifiers
    // repeat every 256 pushes, so the one that left is told by its place.
    assert_eq!(retryable[0].0.message_id, [1u8; 32]);
    assert_eq!(retryable[MAX_PENDING_PER_RECIPIENT - 1].0.message_id, [200u8; 32]);
}

#[test]
fn drain_due_holds_back_unknown_recipients() {
    let mut outbox = PendingOutbox::new();
    outbox.push([3; 32], sample_envelope(1));

    let (expired, retryable) = outbox.drain_due([3; 32], unix_now(), false);
    assert!(expired.is_empty());
    assert!(retryable.is_empty());
    assert_eq!(outbox.len(), 1);
}

#[test]
fn drain_due_returns_retryable_when_known() {
    let mut outbox = PendingOutbox::new();
    outbox.push([4; 32], sample_envelope(1));

    let (expired, retryable) = outbox.drain_due([4; 32], unix_now(), true);
    assert!(expired.is_empty());
    assert_eq!(retryable.len(), 1);
    assert_eq!(outbox.len(), 0);
}

#[test]
fn drain_due_expires_stale_entries_regardless_of_known() {
    let mut outbox = PendingOutbox::new();
    let ancient = unix_now().saturating_sub(MAX_RETRY_AGE + 10);
    outbox.push_with_timestamp([5; 32], sample_envelope(1), ancient);

    let (expired, retryable) = outbox.drain_due([5; 32], unix_now(), true);
    assert_eq!(expired.len(), 1);
    assert!(retryable.is_empty());
    assert_eq!(outbox.len(), 0);
}

#[test]
fn push_with_timestamp_preserves_age_across_requeue() {
    let mut outbox = PendingOutbox::new();
    let original_ts = unix_now() - 1000;
    outbox.push_with_timestamp([6; 32], sample_envelope(1), original_ts);

    let (_, retryable) = outbox.drain_due([6; 32], unix_now(), true);
    let (envelope, ts) = retryable.into_iter().next().unwrap();
    assert_eq!(ts, original_ts);
    outbox.push_with_timestamp([6; 32], envelope, ts);

    let (expired, _) = outbox.drain_due([6; 32], original_ts + MAX_RETRY_AGE + 1, true);
    assert_eq!(expired.len(), 1);
}

#[test]
fn age_limit_is_seven_days_to_the_second() {
    assert_eq!(MAX_RETRY_AGE, 7 * 24 * 60 * 60);
    assert_eq!(RETRY_INTERVAL, 30);
    let mut outbox = PendingOutbox::default();
    outbox.push_with_timestamp([1; 32], sample_envelope(1), 1000);
    outbox.push_with_timestamp([1; 32], sample_envelope(2), 1001);
    let (expired, retryable) = outbox.drain_due([1; 32], 1000 + MAX_RETRY_AGE, false);
    assert!(expired.is_empty());
    assert!(retryable.is_empty());
    assert_eq!(outbox.len(), 2);
    let (expired, retryable) = outbox.drain_due([1; 32], 1001 + MAX_RETRY_AGE, false);
    assert_eq!(expired.len(), 1);
    assert_eq!(expired[0].0.message_id, [1; 32]);
    assert!(retryable.is_empty());
    assert_eq!(outbox.len(), 1);
    // A clock that went back makes nothing old.
    let (expired, _) = outbox.drain_due([1; 32], 0, false);
    assert!(expired.is_empty());
}

fn record(key: u8, addr: &str) -> PrimusNR {
    PrimusNR {
        public_key: vec![key; 4],
        addr: addr.to_string(),
        signature: vec![],
    }
}

fn next_send(pass: &RetryPass) -> ([u8; 32], Envelope) {
    match pass.action() {
        RetryAction::Send { recipient, envelope } => (recipient, envelope),
        _ => panic!("a send is due"),
    }
}

#[test]
fn retry_pass_gives_up_retries_and_requeues() {
    let peer = record(1, "10.0.0.1:9000");
    let id = peer.node_id();
    let mut core = MessengerCore::new([0xAA; 32]);
    let mut outbox = PendingOutbox::new();
    core.record_sent(sample_envelope(1));
    core.record_sent(sample_envelope(2));
    outbox.push_with_timestamp(id, sample_envelope(1), 10);
    outbox.push_with_timestamp(id, sample_envelope(2), 1_000_000);
    outbox.push_with_timestamp(id, sample_envelope(3), 1_000_001);

    let mut pass = run_retry_pass(&outbox, 1_000_002);
    assert!(matches!(pass.action(), RetryAction::LookUp(r) if r == id));
    // Nothing happens for an answer that is not due.
    assert!(pass.on_sent(DeliveryResult::DirectDelivered, &mut outbox).is_none());

    pass.on_closest(&vec![peer], &mut core, &mut outbox);
    assert_eq!(core.get(&[1; 32]).unwrap().status, DeliveryStatus::Failed);
    assert_eq!(core.get(&[2; 32]).unwrap().status, DeliveryStatus::Sent);
    assert_eq!(outbox.len(), 0);

    let (to, envelope) = next_send(&pass);
    assert_eq!(to, id);
    assert_eq!(envelope.message_id, [2; 32]);
    let report = pass.on_sent(DeliveryResult::Failed, &mut outbox).unwrap();
    assert_eq!(report, ([2; 32], DeliveryResult::Failed));
    assert_eq!(next_send(&pass).1.message_id, [3; 32]);
    pass.on_sent(DeliveryResult::RelayedViaGossip, &mut outbox);
    assert!(matches!(pass.action(), RetryAction::Finished));

    // Only the one that failed again waits, as old as it was.
    assert_eq!(outbox.len(), 1);
    let (_, retryable) = outbox.drain_due(id, 1_000_002, true);
    assert_eq!(retryable[0].0.message_id, [2; 32]);
    assert_eq!(retryable[0].1, 1_000_000);
}

#[test]
fn retry_pass_leaves_unknown_recipients_queued() {
    let mut core = MessengerCore::new([0xAA; 32]);
    let mut outbox = PendingOutbox::new();
    outbox.push_with_timestamp([7; 32], sample_envelope(1), 100);
    let mut pass = run_retry_pass(&outbox, 200);
    // A record with another identifier does not make the recipient known.
    pass.on_closest(&vec![record(9, "10.0.0.9:9000")], &mut core, &mut outbox);
    assert!(matches!(pass.action(), RetryAction::Finished));
    assert_eq!(outbox.len(), 1);
    let empty = run_retry_pass(&PendingOutbox::new(), 0);
    assert!(matches!(empty.action(), RetryAction::Finished));
}

#[test]
fn failed_tracked_sends_are_marked_and_wait() {
    let mut core = MessengerCore::new([0xAA; 32]);
    let mut outbox = PendingOutbox::new();
    let _send = send_tracked_message(&mut core, [2; 32], &sample_envelope(5));
    assert_eq!(core.get(&[5; 32]).unwrap().status, DeliveryStatus::Sent);
    finish_tracked_send(
        &mut core,
        &mut outbox,
        [2; 32],
        sample_envelope(5),
        DeliveryResult::DirectDelivered,
        50,
    );
    assert_eq!(outbox.len(), 0);
    finish_tracked_send(
        &mut core,
        &mut outbox,
        [2; 32],
        sample_envelope(5),
        DeliveryResult::Failed,
        50,
    );
    assert_eq!(core.get(&[5; 32]).unwrap().status, DeliveryStatus::Failed);
    assert_eq!(outbox.recipients(), vec![[2u8; 32]]);

    // Presence updates are neither tracked nor retried.
    let mut presence = sample_envelope(6);
    presence.kind = MessageKind::PresenceUpdate;
    let _send = send_tracked_message(&mut core, [2; 32], &presence);
    assert!(core.get(&[6; 32]).is_none());
    finish_tracked_send(&mut core, &mut outbox, [2; 32], presence, DeliveryResult::Failed, 50);
    assert_eq!(outbox.len(), 1);
}

#[test]
fn receipts_that_cannot_be_sent_wait_too() {
    let mut core = MessengerCore::new([0xBB; 32]);
    let mut outbox = PendingOutbox::new();
    let bytes = messenger::envelope::encode_envelope(&sample_envelope(8)).unwrap();
    core.on_envelope_at(&bytes, 70).unwrap();
    let (pending, _send) = run_outbound_dispatch(&mut core).unwrap();
    assert!(run_outbound_dispatch(&mut core).is_none());
    finish_dispatch(&mut outbox, pending, DeliveryResult::Failed, 75);
    assert_eq!(outbox.recipients(), vec![[0xAAu8; 32]]);
    let (_, retryable) = outbox.drain_due([0xAA; 32], 76, true);
    assert_eq!(retryable[0].0.kind, MessageKind::DeliveryReceipt);
    assert_eq!(retryable[0].1, 75);
}

#[test]
fn now_is_the_clock_in_whole_seconds() {
    let epoch = std::time::UNIX_EPOCH;
    let before = std::time::SystemTime::now().duration_since(epoch).unwrap().as_secs();
    let now = unix_now();
    let after = std::time::SystemTime::now().duration_since(epoch).unwrap().as_secs();
    assert!(before <= now && now <= after);
}

#[test]
fn outbox_holds_no_more_than_the_cap_per_recipient() {
    let mut outbox = PendingOutbox::new();
    for i in 0..3 * MAX_PENDING_PER_RECIPIENT {
        outbox.push_with_timestamp([(i % 2) as u8; 32], sample_envelope(1), 0);
    }
    assert_eq!(outbox.recipients().len(), 2);
    assert_eq!(outbox.len(), 2 * MAX_PENDING_PER_RECIPIENT);
}
