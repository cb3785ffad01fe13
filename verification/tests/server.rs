use messenger::cli::CliIngress;
use messenger::envelope::{encode_envelope, Envelope, MessageKind, WireError};
use messenger::ingress::{LoggingIngress, MessageIngress};
use messenger::messenger_core::MessengerCore;
use messenger::network::encode_message;
use messenger::peer::PrimusNR;
use messenger::server::{
    closes_session, deliver_gossip, open_frame, open_gossip, read_failed, settle_gossip, GossipError, GossipRelay, GossipStream,
    PeerSession, PrimusNetworkServer, SessionError, StreamAction, StreamKind, StreamStep, Transport,
    MAX_GOSSIP_PAYLOAD, MAX_STREAMS_PER_PEER, NOISE_MAX_MESSAGE, P2P_PORT, STREAM_TYPE_CONTROL,
    STREAM_TYPE_GOSSIP,
};
use messenger::sessions::SessionTable;
use messenger::transport::PrimusTransportStream;
use sha3::Digest;

/// The two ends of a finished handshake.
fn transports() -> (snow::StatelessTransportState, snow::StatelessTransportState) {
    let params = || "Noise_XX_25519_ChaChaPoly_SHA256".parse().unwrap();
    let mut a = snow::Builder::new(params())
        .local_private_key(&[1; 32])
        .build_initiator()
        .unwrap();
    let mut b = snow::Builder::new(params())
        .local_private_key(&[2; 32])
        .build_responder()
        .unwrap();
    let mut wire = [0u8; 1024];
    let mut read = [0u8; 1024];
    let n = a.write_message(&[], &mut wire).unwrap();
    b.read_message(&wire[..n], &mut read).unwrap();
    let n = b.write_message(&[], &mut wire).unwrap();
    a.read_message(&wire[..n], &mut read).unwrap();
    let n = a.write_message(&[], &mut wire).unwrap();
    b.read_message(&wire[..n], &mut read).unwrap();
    (
        a.into_stateless_transport_mode().unwrap(),
        b.into_stateless_transport_mode().unwrap(),
    )
}

fn sessions() -> (PeerSession, PeerSession) {
    let (a, b) = transports();
    (PeerSession::new(a), PeerSession::new(b))
}

fn table(entries: &[(&str, u64)]) -> SessionTable {
    let mut out = SessionTable::new();
    for (addr, handle) in entries {
        out.insert(addr.to_string(), *handle);
    }
    out
}

fn envelope(id: u8) -> Envelope {
    Envelope {
        message_id: [id; 32],
        sender_node_id: [2; 32],
        recipient_node_id: [3; 32],
        ciphertext: vec![id],
        sent_at: 9,
        kind: MessageKind::DirectMessage,
    }
}

#[test]
fn gossip_is_encrypted_framed_and_read_in_step() {
    let (mut alice, mut bob) = sessions();
    for i in 0..3u8 {
        let payload = encode_message(&[i, i, i], i).unwrap();
        let frame = alice.send_gossip(&payload).unwrap();
        let n = payload.len() + 16;
        assert_eq!(frame.len(), 8 + n);
        assert_eq!(&frame[..8], &[1, 0, 0, 0, 0, n as u8, 0, 0]);
        assert_ne!(&frame[8..8 + payload.len()], &payload[..]);
        let ciphertext = open_frame(&frame).unwrap();
        assert_eq!(bob.decrypt(&ciphertext).unwrap(), payload);
    }
}

#[test]
fn every_message_uses_up_a_nonce() {
    let (mut alice, mut bob) = sessions();
    let first = open_frame(&alice.send_gossip(b"one").unwrap()).unwrap();
    let second = open_frame(&alice.send_gossip(b"one").unwrap()).unwrap();
    assert_ne!(first, second);
    // A message out of order fails, and so does the nonce it used up.
    assert_eq!(bob.decrypt(&second), Err(SessionError::Decryption { nonce: 0 }));
    assert_eq!(bob.decrypt(&first), Err(SessionError::Decryption { nonce: 1 }));
    let third = open_frame(&alice.send_gossip(b"three").unwrap()).unwrap();
    assert_eq!(bob.decrypt(&third).unwrap(), b"three");
    assert_eq!(bob.decrypt(&[0; 15]), Err(SessionError::Decryption { nonce: 3 }));
}

#[test]
fn payloads_over_the_noise_limit_are_refused_but_counted() {
    let (mut alice, mut bob) = sessions();
    let long = vec![0u8; NOISE_MAX_MESSAGE - 15];
    assert_eq!(alice.send_gossip(&long), Err(SessionError::Encryption { nonce: 0 }));
    let frame = alice.send_gossip(&long[1..]).unwrap();
    assert_eq!(frame.len(), 8 + NOISE_MAX_MESSAGE);
    assert!(bob.decrypt(&open_frame(&frame).unwrap()).is_err());
    let frame = alice.send_gossip(b"x").unwrap();
    assert!(bob.decrypt(&open_frame(&frame).unwrap()).is_err());
    let frame = alice.send_gossip(b"y").unwrap();
    assert!(bob.decrypt(&open_frame(&frame).unwrap()).is_err());
}

#[test]
fn stream_waits_for_the_whole_frame() {
    let sessions = table(&[("10.0.0.1:9000", 5)]);
    let mut drops = 0u64;
    let mut stream = GossipStream::new("10.0.0.1:9000".to_string());
    let frame = [1u8, 0, 0, 0, 0, 3, 0, 0, 7, 8, 9];
    for i in 0..frame.len() - 1 {
        assert!(matches!(
            stream.feed(&frame[i..i + 1], false, &sessions, &mut drops),
            StreamStep::ReadMore
        ));
    }
    match stream.feed(&frame[10..], false, &sessions, &mut drops) {
        StreamStep::Deliver {
            session,
            ciphertext,
        } => {
            assert_eq!(session, 5);
            assert_eq!(ciphertext, vec![7, 8, 9]);
        }
        _ => panic!("the frame is complete"),
    }
    assert_eq!(drops, 0);
}

fn give_up(bytes: &[u8], at_end: bool, drops: &mut u64) -> GossipError {
    let sessions = table(&[("peer:1", 1)]);
    let mut stream = GossipStream::new("peer:1".to_string());
    match stream.feed(bytes, at_end, &sessions, drops) {
        StreamStep::GiveUp(e) => e,
        _ => panic!("the stream is bad"),
    }
}

#[test]
fn bad_streams_are_given_up() {
    let mut drops = 0u64;
    assert_eq!(give_up(&[], true, &mut drops), GossipError::ClosedBeforeHeader);
    assert_eq!(drops, 0);
    assert_eq!(give_up(&[1, 0, 0], true, &mut drops), GossipError::FrameDropped);
    assert_eq!(drops, 1);
    assert_eq!(
        give_up(&[1, 0, 0, 0, 0, 9, 0, 0, 1], true, &mut drops),
        GossipError::FrameDropped
    );
    assert_eq!(drops, 2);
    // One byte over 16 MiB is refused with the length alone.
    assert_eq!(
        give_up(&[1, 0, 1, 0, 0, 1], false, &mut drops),
        GossipError::FrameDropped
    );
    assert_eq!(drops, 3);
    assert_eq!(
        give_up(&[2, 0, 0, 0, 0, 0, 0, 0], false, &mut drops),
        GossipError::UnexpectedStreamType(2)
    );
    assert_eq!(drops, 3);
    assert_eq!(open_frame(&[1; 7]), Err(GossipError::FrameTooShort));

    let mut stream = GossipStream::new("other:1".to_string());
    assert!(matches!(
        stream.feed(&[1, 0, 0, 0, 0, 0, 0, 0], false, &table(&[("peer:1", 1)]), &mut drops),
        StreamStep::GiveUp(GossipError::NoSession)
    ));
}

#[test]
fn exactly_the_limit_is_still_read() {
    let mut drops = 0u64;
    let sessions = table(&[("peer:1", 1)]);
    let mut stream = GossipStream::new("peer:1".to_string());
    assert_eq!(MAX_GOSSIP_PAYLOAD, 16 * 1024 * 1024);
    assert!(matches!(
        stream.feed(&[1, 0, 1, 0, 0, 0], false, &sessions, &mut drops),
        StreamStep::ReadMore
    ));
}

#[test]
fn gossip_reaches_the_core_and_is_relayed_further() {
    let (mut alice, mut bob) = sessions();
    let mut core = MessengerCore::new([3; 32]);
    let data = encode_envelope(&envelope(1)).unwrap();
    let frame = alice.send_gossip(&encode_message(&data, 4).unwrap()).unwrap();
    let ciphertext = open_frame(&frame).unwrap();
    let (relayed, ttl) = deliver_gossip(&mut bob, &mut core, &ciphertext).unwrap();
    assert_eq!((relayed, ttl), (data, 4));
    assert_eq!(core.len(), 1);
}

#[test]
fn refused_gossip_is_not_relayed() {
    let (mut alice, mut bob) = sessions();
    let mut core = MessengerCore::new([3; 32]);
    let frame = alice.send_gossip(&encode_message(b"no envelope", 4).unwrap()).unwrap();
    assert_eq!(
        deliver_gossip(&mut bob, &mut core, &open_frame(&frame).unwrap()),
        Err(GossipError::Ingress(WireError::MalformedEnvelope))
    );
    let frame = alice.send_gossip(b"no message").unwrap();
    assert_eq!(
        deliver_gossip(&mut bob, &mut core, &open_frame(&frame).unwrap()),
        Err(GossipError::Message(WireError::MalformedMessage))
    );
    assert_eq!(
        deliver_gossip(&mut bob, &mut core, &[0; 40]),
        Err(GossipError::Session(SessionError::Decryption { nonce: 2 }))
    );
    assert_eq!(core.len(), 0);
}

#[test]
fn a_refused_envelope_does_not_close_the_session() {
    assert!(!closes_session(&GossipError::Ingress(WireError::MalformedEnvelope)));
    for error in [
        GossipError::ClosedBeforeHeader,
        GossipError::FrameDropped,
        GossipError::FrameTooShort,
        GossipError::UnexpectedStreamType(2),
        GossipError::NoSession,
        GossipError::Session(SessionError::Decryption { nonce: 0 }),
        GossipError::Message(WireError::MalformedMessage),
    ] {
        assert!(closes_session(&error));
    }
}

#[test]
fn the_answer_decides_on_relaying() {
    let (mut alice, mut bob) = sessions();
    let frame = alice.send_gossip(&encode_message(&[1, 2], 6).unwrap()).unwrap();
    let message = open_gossip(&mut bob, &open_frame(&frame).unwrap()).unwrap();
    assert_eq!(settle_gossip(message.clone(), Ok(false)), Ok((vec![1, 2], 6)));
    assert_eq!(settle_gossip(message.clone(), Ok(true)), Ok((vec![1, 2], 6)));
    assert_eq!(
        settle_gossip(message, Err(WireError::MalformedReceipt)),
        Err(GossipError::Ingress(WireError::MalformedReceipt))
    );
}

#[test]
fn relay_goes_to_everyone_else_with_one_hop_fewer() {
    let relay = GossipRelay::new(table(&[("a:1", 1), ("b:2", 2), ("c:3", 3)]));
    let plan = relay.relay(&[9], 32, &"b:2".to_string()).unwrap();
    assert_eq!(plan.payload, encode_message(&[9], 31).unwrap());
    let mut targets = plan.targets;
    targets.sort();
    assert_eq!(targets, vec![("a:1".to_string(), 1), ("c:3".to_string(), 3)]);
    let plan = relay.relay(&[9], 1, &"x:9".to_string()).unwrap();
    assert_eq!(plan.targets.len(), 3);
    assert!(relay.relay(&[9], 0, &"b:2".to_string()).is_none());
}

#[test]
fn session_table_keeps_one_session_per_address() {
    let mut sessions = table(&[("a:1", 1), ("b:2", 2)]);
    sessions.insert("a:1".to_string(), 7);
    assert_eq!(sessions.get(&"a:1".to_string()), Some(7));
    assert_eq!(sessions.get(&"c:3".to_string()), None);
    let mut all = sessions.all();
    all.sort();
    assert_eq!(all, vec![("a:1".to_string(), 7), ("b:2".to_string(), 2)]);
    sessions.remove(&"a:1".to_string());
    assert_eq!(sessions.get(&"a:1".to_string()), None);
    assert_eq!(sessions.all().len(), 1);
}

fn server() -> PrimusNetworkServer {
    let nr = PrimusNR {
        public_key: vec![1],
        addr: "0.0.0.0:9000".to_string(),
        signature: vec![],
    };
    PrimusNetworkServer::new(P2P_PORT, nr, &[5; 40])
}

#[test]
fn server_derives_its_handshake_key_and_port() {
    let mut server = server();
    let expected: [u8; 32] = sha3::Sha3_256::digest([5u8; 40]).into();
    assert_eq!(server.noise_static, expected);
    assert_eq!(server.web_port(), 9001);
    assert_eq!(server.frame_drops, 0);
    assert_eq!((STREAM_TYPE_GOSSIP, STREAM_TYPE_CONTROL), (1, 2));
    assert_eq!(MAX_STREAMS_PER_PEER, 100);
    assert_eq!(server.external_addr, None);
    server.set_external_addr("5.6.7.8:9000".to_string());
    assert_eq!(server.external_addr.as_deref(), Some("5.6.7.8:9000"));
}

#[test]
fn streams_are_for_what_their_kind_and_transport_say() {
    let mut server = server();
    let peer = "p:1".to_string();
    for transport in [Transport::Native, Transport::Web] {
        for kind in [StreamKind::Uni, StreamKind::Bi] {
            assert_eq!(server.dispatch(&peer, transport, kind), StreamAction::Ignore);
        }
    }
    assert_eq!(server.discovered(Some(peer.clone())), Some(peer.clone()));
    server.connected(peer.clone(), 4);
    assert_eq!(server.discovered(Some(peer.clone())), None);
    assert_eq!(server.discovered(None), None);
    assert_eq!(
        server.dispatch(&peer, Transport::Native, StreamKind::Uni),
        StreamAction::Gossip { session: 4 }
    );
    assert_eq!(
        server.dispatch(&peer, Transport::Web, StreamKind::Uni),
        StreamAction::Gossip { session: 4 }
    );
    assert_eq!(
        server.dispatch(&peer, Transport::Native, StreamKind::Bi),
        StreamAction::Rpc { session: 4 }
    );
    assert_eq!(
        server.dispatch(&peer, Transport::Web, StreamKind::Bi),
        StreamAction::Ignore
    );
    server.stream_failed(&peer);
    assert_eq!(
        server.dispatch(&peer, Transport::Native, StreamKind::Uni),
        StreamAction::Ignore
    );
}

#[test]
fn browser_clients_are_leaves() {
    assert!(PrimusTransportStream::new(1, true).is_leaf);
    let native = PrimusTransportStream::new(2, false);
    assert!(!native.is_leaf);
    assert_eq!(native.noise, 2);
}

#[test]
fn printing_ingresses_take_everything() {
    let mut log = LoggingIngress { lines: Vec::new() };
    assert_eq!(log.on_envelope(&[0; 12]), Ok(true));
    assert_eq!(log.lines, vec!["Ingress: received 12-byte envelope"]);
    let mut cli = CliIngress { lines: Vec::new() };
    assert_eq!(cli.on_envelope(b"abc"), Ok(true));
    assert_eq!(cli.lines, vec!["[RECV raw] (3 bytes): abc"]);
}

#[test]
fn gossip_errors_have_words() {
    let text = |e: GossipError| e.message("1.2.3.4:5");
    assert_eq!(text(GossipError::ClosedBeforeHeader), "Gossip: stream closed before header");
    assert_eq!(
        text(GossipError::FrameDropped),
        "Gossip: frame size limit exceeded or IO error from 1.2.3.4:5"
    );
    assert_eq!(text(GossipError::FrameTooShort), "Gossip: frame too short from 1.2.3.4:5");
    assert_eq!(
        text(GossipError::UnexpectedStreamType(0x0A)),
        "Gossip: unexpected stream type 0x0a from 1.2.3.4:5 (expected 0x01)"
    );
    assert_eq!(
        text(GossipError::NoSession),
        "Gossip: received data from 1.2.3.4:5 before Noise handshake completed"
    );
    assert_eq!(
        text(GossipError::Session(SessionError::Decryption { nonce: 7 })),
        "Noise decryption failed (nonce=7)"
    );
    assert_eq!(
        SessionError::Encryption { nonce: 10 }.message(),
        "Noise encryption failed (nonce=10)"
    );
    assert_eq!(
        text(GossipError::Message(WireError::MalformedMessage)),
        "Gossip: envelope deserialization failed"
    );
    assert_eq!(
        text(GossipError::Ingress(WireError::MalformedEnvelope)),
        "Gossip: envelope ingestion failed for payload from 1.2.3.4:5"
    );
}

#[test]
fn a_failed_read_counts_as_a_dropped_frame() {
    let mut drops: u64 = 3;
    assert_eq!(read_failed(&mut drops), GossipError::FrameDropped);
    assert_eq!(drops, 4);
    drops = u64::MAX;
    read_failed(&mut drops);
    assert_eq!(drops, 0);
}
