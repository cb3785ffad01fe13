use messenger::delivery::{
    send_direct_message, DeliveryResult, DirectSend, SendAction, GOSSIP_FALLBACK_TTL,
};
use messenger::envelope::{encode_envelope, Envelope, MessageKind};
use messenger::network::{decode_message, PrimusMessage};
use messenger::peer::PrimusNR;
use messenger::sessions::SessionTable;

fn envelope() -> Envelope {
    Envelope {
        message_id: [1; 32],
        sender_node_id: [2; 32],
        recipient_node_id: [3; 32],
        ciphertext: vec![4],
        sent_at: 5,
        kind: MessageKind::DirectMessage,
    }
}

fn record() -> PrimusNR {
    PrimusNR {
        public_key: vec![1],
        addr: "10.0.0.1:9000".to_string(),
        signature: vec![],
    }
}

fn table(entries: &[(&str, u64)]) -> SessionTable {
    let mut out = SessionTable::new();
    for (addr, handle) in entries {
        out.insert(addr.to_string(), *handle);
    }
    out
}

fn start() -> DirectSend {
    send_direct_message(record().node_id(), &envelope())
}

/// The session and hops of the write that is due.
fn write(send: &DirectSend) -> (u64, u8) {
    match send.action() {
        SendAction::Send { session, payload } => {
            let PrimusMessage::Envelope(data, ttl) = decode_message(&payload).unwrap();
            assert_eq!(data, encode_envelope(&envelope()).unwrap());
            (session, ttl)
        }
        _ => panic!("a write is due"),
    }
}

fn outcome(send: &DirectSend) -> DeliveryResult {
    match send.action() {
        SendAction::Finished(result) => result,
        _ => panic!("the send is over"),
    }
}

#[test]
fn open_session_is_used_directly_and_without_hops() {
    let sessions = table(&[("10.0.0.1:9000", 7), ("other:1", 8)]);
    let mut send = start();
    assert!(matches!(send.action(), SendAction::LookUp(id) if id == record().node_id()));
    send.on_closest(&vec![record()], &sessions);
    assert_eq!(write(&send), (7, 0));
    send.on_sent(true, &sessions);
    assert_eq!(outcome(&send), DeliveryResult::DirectDelivered);
}

#[test]
fn failed_write_to_an_open_session_fails_the_send() {
    let sessions = table(&[("10.0.0.1:9000", 7), ("other:1", 8)]);
    let mut send = start();
    send.on_closest(&vec![record()], &sessions);
    send.on_sent(false, &sessions);
    assert_eq!(outcome(&send), DeliveryResult::Failed);
}

#[test]
fn known_address_without_session_is_dialed() {
    let before = table(&[("other:1", 8)]);
    let after = table(&[("other:1", 8), ("10.0.0.1:9000", 9)]);
    let mut send = start();
    send.on_closest(&vec![record()], &before);
    assert!(matches!(send.action(), SendAction::Dial(a) if a == "10.0.0.1:9000"));
    send.on_dialed(true, &after);
    assert_eq!(write(&send), (9, 0));
    send.on_sent(true, &after);
    assert_eq!(outcome(&send), DeliveryResult::DirectDelivered);
}

#[test]
fn failed_dial_or_write_after_it_falls_back_to_flooding() {
    let before = table(&[("other:1", 8)]);
    let mut send = start();
    send.on_closest(&vec![record()], &before);
    send.on_dialed(false, &before);
    assert_eq!(write(&send), (8, GOSSIP_FALLBACK_TTL));
    send.on_sent(true, &before);
    assert_eq!(outcome(&send), DeliveryResult::RelayedViaGossip);

    // The dial worked, but under another address.
    let mut send = start();
    send.on_closest(&vec![record()], &before);
    send.on_dialed(true, &before);
    assert_eq!(write(&send), (8, 32));

    // The dial worked, but the write did not.
    let after = table(&[("10.0.0.1:9000", 9)]);
    let mut send = start();
    send.on_closest(&vec![record()], &before);
    send.on_dialed(true, &after);
    send.on_sent(false, &after);
    assert_eq!(write(&send), (9, 32));
}

#[test]
fn unknown_recipient_is_flooded_to_every_session_once() {
    let sessions = table(&[("a:1", 1), ("b:2", 2), ("c:3", 3)]);
    for ok in [[false, false, false], [false, true, false]] {
        let mut send = start();
        send.on_closest(&vec![], &sessions);
        let mut seen = Vec::new();
        for reached in ok {
            let (session, ttl) = write(&send);
            assert_eq!(ttl, 32);
            seen.push(session);
            send.on_sent(reached, &sessions);
        }
        seen.sort();
        assert_eq!(seen, vec![1, 2, 3]);
        let expected = if ok.contains(&true) {
            DeliveryResult::RelayedViaGossip
        } else {
            DeliveryResult::Failed
        };
        assert_eq!(outcome(&send), expected);
    }
}

#[test]
fn nobody_to_flood_to_fails_the_send() {
    let none = table(&[]);
    let mut send = start();
    send.on_closest(&vec![], &none);
    assert_eq!(outcome(&send), DeliveryResult::Failed);
    // What comes later changes nothing.
    send.on_sent(true, &none);
    send.on_dialed(true, &none);
    assert_eq!(outcome(&send), DeliveryResult::Failed);
}
