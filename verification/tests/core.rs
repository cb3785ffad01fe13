use messenger::envelope::{
    decode_receipt, encode_envelope, encode_receipt, DeliveryStatus, Envelope, MessageKind,
    ReceiptPayload, WireError,
};
use messenger::ingress::MessageIngress;
use messenger::messenger_core::{receipt_id, MessengerCore};
use sha3::Digest;

fn sample_envelope(id: u8, kind: MessageKind) -> Envelope {
    Envelope {
        message_id: [id; 32],
        sender_node_id: [0xAB; 32],
        recipient_node_id: [0xCD; 32],
        ciphertext: vec![1, 2, 3],
        sent_at: 0,
        kind,
    }
}

fn receipt_envelope(id: u8, acknowledged: u8, at: u64) -> Envelope {
    let payload = ReceiptPayload {
        message_id: [acknowledged; 32],
        received_at: at,
    };
    Envelope {
        message_id: [id; 32],
        sender_node_id: [0xCD; 32],
        recipient_node_id: [0xEE; 32],
        ciphertext: encode_receipt(&payload).unwrap(),
        sent_at: at,
        kind: MessageKind::DeliveryReceipt,
    }
}

#[test]
fn new_direct_message_is_stored_and_returns_true() {
    let mut core = MessengerCore::new([0xEE; 32]);
    let bytes = encode_envelope(&sample_envelope(1, MessageKind::DirectMessage)).unwrap();

    let result = core.on_envelope(&bytes).unwrap();

    assert!(result);
    assert_eq!(core.len(), 1);
    let stored = core.get(&[1u8; 32]).unwrap();
    assert_eq!(stored.status, DeliveryStatus::Delivered);
}

#[test]
fn duplicate_direct_message_returns_false_and_does_not_overwrite() {
    let mut core = MessengerCore::new([0xEE; 32]);
    let first = encode_envelope(&sample_envelope(2, MessageKind::DirectMessage)).unwrap();
    let mut second_env = sample_envelope(2, MessageKind::DirectMessage);
    second_env.ciphertext = vec![9, 9, 9];
    let second = encode_envelope(&second_env).unwrap();

    assert!(core.on_envelope(&first).unwrap());
    assert!(!core.on_envelope(&second).unwrap());

    assert_eq!(core.len(), 1);
    let stored = core.get(&[2u8; 32]).unwrap();
    assert_eq!(stored.envelope.ciphertext, vec![1, 2, 3]);
}

#[test]
fn malformed_bytes_return_err_not_panic() {
    let mut core = MessengerCore::new([0xEE; 32]);
    let garbage = vec![0xFF, 0x00, 0x01, 0x02];

    let result = core.on_envelope(&garbage);

    assert!(result.is_err());
    assert_eq!(core.len(), 0);
}

#[test]
fn new_direct_message_queues_exactly_one_receipt() {
    let mut core = MessengerCore::new([0xEE; 32]);
    let bytes = encode_envelope(&sample_envelope(3, MessageKind::DirectMessage)).unwrap();

    core.on_envelope(&bytes).unwrap();

    let pending = core.next_outbound().expect("a receipt should be queued");
    assert_eq!(pending.envelope.kind, MessageKind::DeliveryReceipt);
    assert_eq!(pending.recipient_node_id, [0xAB; 32]);
    let payload = decode_receipt(&pending.envelope.ciphertext).unwrap();
    assert_eq!(payload.message_id, [3; 32]);

    assert!(core.next_outbound().is_none());
}

#[test]
fn duplicate_direct_message_does_not_queue_a_second_receipt() {
    let mut core = MessengerCore::new([0xEE; 32]);
    let bytes = encode_envelope(&sample_envelope(4, MessageKind::DirectMessage)).unwrap();

    core.on_envelope(&bytes).unwrap();
    core.next_outbound().expect("first receipt should be queued");

    core.on_envelope(&bytes).unwrap();
    assert!(
        core.next_outbound().is_none(),
        "a duplicate message must not queue a second receipt"
    );
}

#[test]
fn presence_update_is_stored_but_does_not_queue_a_receipt() {
    let mut core = MessengerCore::new([0xEE; 32]);
    let bytes = encode_envelope(&sample_envelope(5, MessageKind::PresenceUpdate)).unwrap();

    let result = core.on_envelope(&bytes).unwrap();

    assert!(result);
    assert!(core.next_outbound().is_none());
}

#[test]
fn delivery_receipt_marks_original_message_delivered() {
    let mut core = MessengerCore::new([0xEE; 32]);

    let original = sample_envelope(6, MessageKind::DirectMessage);
    core.record_sent(original.clone());
    assert_eq!(core.get(&[6; 32]).unwrap().status, DeliveryStatus::Sent);

    let payload = ReceiptPayload {
        message_id: [6; 32],
        received_at: 12345,
    };
    let receipt = Envelope {
        message_id: [99; 32],
        sender_node_id: [0xCD; 32],
        recipient_node_id: [0xEE; 32],
        ciphertext: encode_receipt(&payload).unwrap(),
        sent_at: 12345,
        kind: MessageKind::DeliveryReceipt,
    };
    let bytes = encode_envelope(&receipt).unwrap();

    let result = core.on_envelope(&bytes).unwrap();

    assert!(result);
    assert_eq!(core.get(&[6; 32]).unwrap().status, DeliveryStatus::Delivered);
    assert!(core.next_outbound().is_none());
}

#[test]
fn receipt_for_unknown_message_is_dropped_not_errored() {
    let mut core = MessengerCore::new([0xEE; 32]);

    let payload = ReceiptPayload {
        message_id: [123; 32],
        received_at: 1,
    };
    let receipt = Envelope {
        message_id: [200; 32],
        sender_node_id: [0xCD; 32],
        recipient_node_id: [0xEE; 32],
        ciphertext: encode_receipt(&payload).unwrap(),
        sent_at: 1,
        kind: MessageKind::DeliveryReceipt,
    };
    let bytes = encode_envelope(&receipt).unwrap();

    let result = core.on_envelope(&bytes).unwrap();

    assert!(!result);
    assert_eq!(core.len(), 0);
}

#[test]
fn mark_failed_updates_status() {
    let mut core = MessengerCore::new([0xEE; 32]);
    let original = sample_envelope(7, MessageKind::DirectMessage);
    core.record_sent(original);

    core.mark_failed(&[7; 32]);

    assert_eq!(core.get(&[7; 32]).unwrap().status, DeliveryStatus::Failed);
}

#[test]
fn malformed_receipt_content_is_its_own_error() {
    let mut core = MessengerCore::new([0xEE; 32]);
    let mut receipt = receipt_envelope(1, 2, 3);
    receipt.ciphertext.truncate(39);
    let bytes = encode_envelope(&receipt).unwrap();
    assert_eq!(core.on_envelope_at(&bytes, 0), Err(WireError::MalformedReceipt));
    assert_eq!(core.on_envelope_at(&bytes[..50], 0), Err(WireError::MalformedEnvelope));
    assert_eq!(core.len(), 0);
    assert!(core.next_outbound().is_none());
}

#[test]
fn second_receipt_is_no_news() {
    let mut core = MessengerCore::new([0xEE; 32]);
    core.record_sent(sample_envelope(8, MessageKind::DirectMessage));
    let bytes = encode_envelope(&receipt_envelope(1, 8, 10)).unwrap();
    assert_eq!(core.on_envelope_at(&bytes, 0), Ok(true));
    assert_eq!(core.on_envelope_at(&bytes, 1), Ok(false));
}

#[test]
fn only_direct_messages_are_recorded_and_never_overwritten() {
    let mut core = MessengerCore::new([0xEE; 32]);
    core.record_sent(sample_envelope(1, MessageKind::PresenceUpdate));
    core.record_sent(receipt_envelope(2, 9, 0));
    assert_eq!(core.len(), 0);
    core.record_sent(sample_envelope(3, MessageKind::DirectMessage));
    core.mark_failed(&[3; 32]);
    let mut again = sample_envelope(3, MessageKind::DirectMessage);
    again.ciphertext = vec![7];
    core.record_sent(again);
    let stored = core.get(&[3; 32]).unwrap();
    assert_eq!(stored.status, DeliveryStatus::Failed);
    assert_eq!(stored.envelope.ciphertext, vec![1, 2, 3]);
    core.mark_failed(&[44; 32]);
    assert_eq!(core.len(), 1);
    assert!(core.get(&[44; 32]).is_none());
}

#[test]
fn a_message_is_confirmed_end_to_end() {
    let mut alice = MessengerCore::new([0xAB; 32]);
    let mut bob = MessengerCore::new([0xCD; 32]);
    let message = sample_envelope(11, MessageKind::DirectMessage);
    alice.record_sent(message.clone());
    assert_eq!(bob.on_envelope_at(&encode_envelope(&message).unwrap(), 1000), Ok(true));
    let receipt = bob.next_outbound().unwrap();
    assert_eq!(receipt.recipient_node_id, [0xAB; 32]);
    assert_eq!(receipt.envelope.sent_at, 1000);
    assert_eq!(receipt.envelope.message_id, receipt_id(&[11; 32], &[0xCD; 32], 1000));
    let bytes = encode_envelope(&receipt.envelope).unwrap();
    assert_eq!(alice.on_envelope_at(&bytes, 1001), Ok(true));
    assert_eq!(alice.get(&[11; 32]).unwrap().status, DeliveryStatus::Delivered);
    assert!(alice.next_outbound().is_none());
}

#[test]
fn receipt_id_is_the_digest_of_tag_ids_and_time() {
    let mut hasher = sha3::Sha3_256::new();
    hasher.update(b"primus-messenger-core:delivery-receipt");
    hasher.update([5u8; 32]);
    hasher.update([6u8; 32]);
    hasher.update(0x0102030405060708u64.to_be_bytes());
    let expected: [u8; 32] = hasher.finalize().into();
    assert_eq!(receipt_id(&[5; 32], &[6; 32], 0x0102030405060708), expected);
}

#[test]
fn conversation_lists_direct_messages_with_a_peer_oldest_first() {
    let mut core = MessengerCore::new([1; 32]);
    let make = |id: u8, from: u8, to: u8, at: u64, kind: MessageKind| Envelope {
        message_id: [id; 32],
        sender_node_id: [from; 32],
        recipient_node_id: [to; 32],
        ciphertext: vec![id],
        sent_at: at,
        kind,
    };
    core.record_sent(make(10, 1, 2, 30, MessageKind::DirectMessage));
    for e in [
        make(11, 2, 1, 10, MessageKind::DirectMessage),
        make(12, 3, 1, 5, MessageKind::DirectMessage),
        make(13, 2, 1, 20, MessageKind::PresenceUpdate),
        make(14, 2, 1, 20, MessageKind::DirectMessage),
    ] {
        assert_eq!(core.on_envelope_at(&encode_envelope(&e).unwrap(), 0), Ok(true));
    }
    let ids: Vec<u8> = core
        .conversation(&[2; 32])
        .iter()
        .map(|m| m.envelope.message_id[0])
        .collect();
    assert_eq!(ids, vec![11, 14, 10]);
    assert!(core.conversation(&[9; 32]).is_empty());
}
