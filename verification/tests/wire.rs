use messenger::bytes::{
    append_be_u32, append_be_u64, append_le_u32, read_le_u32, same_bytes, same_id,
};
use messenger::envelope::{
    decode_envelope, decode_receipt, encode_envelope, encode_receipt, Envelope, MessageKind,
    ReceiptPayload, WireError,
};
use messenger::network::{decode_message, encode_message, PrimusMessage};

fn sample(kind: MessageKind) -> Envelope {
    Envelope {
        message_id: [1; 32],
        sender_node_id: [2; 32],
        recipient_node_id: [3; 32],
        ciphertext: vec![0xAA, 0xBB],
        sent_at: 0x0102,
        kind,
    }
}

#[test]
fn envelope_bytes_are_laid_out_field_by_field() {
    let bytes = encode_envelope(&sample(MessageKind::PresenceUpdate)).unwrap();
    let mut expected = vec![1u8; 32];
    expected.extend([2u8; 32]);
    expected.extend([3u8; 32]);
    expected.extend([2, 0, 0, 0, 0, 0, 0, 0, 0xAA, 0xBB]);
    expected.extend([2, 1, 0, 0, 0, 0, 0, 0]);
    expected.extend([2, 0, 0, 0]);
    assert_eq!(bytes, expected);
}

#[test]
fn envelopes_come_back_from_their_bytes() {
    for kind in [
        MessageKind::DirectMessage,
        MessageKind::DeliveryReceipt,
        MessageKind::PresenceUpdate,
    ] {
        let mut bytes = encode_envelope(&sample(kind)).unwrap();
        bytes.extend([9, 9, 9]);
        let back = decode_envelope(&bytes).unwrap();
        assert_eq!(back.message_id, [1; 32]);
        assert_eq!(back.sender_node_id, [2; 32]);
        assert_eq!(back.recipient_node_id, [3; 32]);
        assert_eq!(back.ciphertext, vec![0xAA, 0xBB]);
        assert_eq!(back.sent_at, 0x0102);
        assert_eq!(back.kind, kind);
    }
}

#[test]
fn every_shorter_envelope_and_every_other_kind_is_refused() {
    let bytes = encode_envelope(&sample(MessageKind::DirectMessage)).unwrap();
    for n in 0..bytes.len() {
        assert_eq!(decode_envelope(&bytes[..n]).err(), Some(WireError::MalformedEnvelope));
    }
    for code in [3u8, 4, 255] {
        let mut other = bytes.clone();
        let at = other.len() - 4;
        other[at] = code;
        assert!(decode_envelope(&other).is_err());
    }
    let mut long = bytes.clone();
    long[103] = 0xFF;
    assert!(decode_envelope(&long).is_err());
}

#[test]
fn receipt_payloads_come_back_from_their_bytes() {
    let payload = ReceiptPayload {
        message_id: [7; 32],
        received_at: 12345,
    };
    let bytes = encode_receipt(&payload).unwrap();
    assert_eq!(bytes.len(), 40);
    assert_eq!(&bytes[32..], &[0x39, 0x30, 0, 0, 0, 0, 0, 0]);
    let back = decode_receipt(&bytes).unwrap();
    assert_eq!(back.message_id, [7; 32]);
    assert_eq!(back.received_at, 12345);
    assert_eq!(decode_receipt(&bytes[..39]).err(), Some(WireError::MalformedReceipt));
}

#[test]
fn messages_come_back_from_their_bytes() {
    let bytes = encode_message(&[5, 6], 7).unwrap();
    assert_eq!(bytes, vec![0, 0, 0, 0, 2, 0, 0, 0, 0, 0, 0, 0, 5, 6, 7]);
    let PrimusMessage::Envelope(data, ttl) = decode_message(&bytes).unwrap();
    assert_eq!((data, ttl), (vec![5, 6], 7));
    let mut other = bytes.clone();
    other[0] = 1;
    assert_eq!(decode_message(&other).err(), Some(WireError::MalformedMessage));
    for n in 0..bytes.len() {
        assert!(decode_message(&bytes[..n]).is_err());
    }
}

#[test]
fn integers_have_their_usual_bytes() {
    let mut out = Vec::new();
    append_be_u64(&mut out, 0x0102030405060708);
    assert_eq!(out, 0x0102030405060708u64.to_be_bytes());
    out.clear();
    append_be_u32(&mut out, 0xA1B2C3D4);
    append_le_u32(&mut out, 0xA1B2C3D4);
    assert_eq!(out, vec![0xA1, 0xB2, 0xC3, 0xD4, 0xD4, 0xC3, 0xB2, 0xA1]);
    assert_eq!(read_le_u32(&out[4..]), 0xA1B2C3D4);
    assert!(same_bytes(&[1, 2], &[1, 2]));
    assert!(!same_bytes(&[1, 2], &[1, 2, 3]));
    assert!(!same_bytes(&[1, 2], &[1, 3]));
    let mut other = [4u8; 32];
    other[31] = 5;
    assert!(same_id(&[4; 32], &[4; 32]));
    assert!(!same_id(&[4; 32], &other));
}
