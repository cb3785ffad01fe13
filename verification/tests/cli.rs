use messenger::cli::{
    find_peer_by_hex_prefix, node_id_short, parse_command, peers_lines, plan_send, prefix_bytes,
    received_line, reply_lines, sha3_256_short, whoami_lines, CliSend, Command, CLI_TTL,
};
use messenger::network::encode_message;
use messenger::peer::PrimusNR;
use messenger::sessions::SessionTable;

fn record(key: u8, addr: &str) -> PrimusNR {
    PrimusNR {
        public_key: vec![key],
        addr: addr.to_string(),
        signature: vec![],
    }
}

fn hex(id: &[u8]) -> String {
    hex::encode(id)
}

#[test]
fn commands_are_read_from_the_first_word() {
    assert!(matches!(parse_command("   \t "), Command::Empty));
    for line in ["quit", "exit", "q", " q now please"] {
        assert!(matches!(parse_command(line), Command::Quit));
    }
    assert!(matches!(parse_command("whoami"), Command::WhoAmI));
    assert!(matches!(parse_command("peers  "), Command::Peers));
    assert!(matches!(parse_command("send"), Command::SendUsage));
    assert!(matches!(parse_command("send ab"), Command::SendUsage));
    assert!(matches!(parse_command("send  ab"), Command::SendUsage));
    match parse_command("  send ab  hello there  ") {
        Command::Send { prefix, message } => {
            assert_eq!(prefix, "ab");
            assert_eq!(message, "hello there");
        }
        other => panic!("{other:?}"),
    }
    match parse_command("Quit") {
        Command::Unknown(word) => assert_eq!(word, "Quit"),
        other => panic!("{other:?}"),
    }
}

#[test]
fn some_commands_have_fixed_replies() {
    let reply = |line: &str| reply_lines(&parse_command(line));
    assert_eq!(reply("quit"), vec!["Goodbye."]);
    assert_eq!(reply("send ab"), vec!["usage: send <node_id_hex_prefix> <message...>"]);
    assert_eq!(
        reply("help me"),
        vec!["? unknown command 'help'. Try: whoami | peers | send <id_hex> <msg> | quit"]
    );
    for line in ["", "whoami", "peers", "send ab hi"] {
        assert!(reply(line).is_empty());
    }
}

#[test]
fn prefixes_are_two_character_hexadecimal_numbers() {
    assert_eq!(prefix_bytes("aB01"), Some(vec![0xAB, 1]));
    assert_eq!(prefix_bytes("ab…"), Some(vec![0xAB]));
    assert_eq!(prefix_bytes("ab……"), Some(vec![0xAB]));
    assert_eq!(prefix_bytes("ab......"), Some(vec![0xAB]));
    assert_eq!(prefix_bytes("ab...…"), Some(vec![0xAB]));
    assert_eq!(prefix_bytes("ab.."), None);
    assert_eq!(prefix_bytes("abc"), None);
    assert_eq!(prefix_bytes(""), None);
    assert_eq!(prefix_bytes("…"), None);
    assert_eq!(prefix_bytes("+a"), Some(vec![10]));
    assert_eq!(prefix_bytes("+fAB"), Some(vec![15, 0xAB]));
    assert_eq!(prefix_bytes("a+"), None);
    assert_eq!(prefix_bytes("++"), None);
    assert_eq!(prefix_bytes("-a"), None);
    assert_eq!(prefix_bytes(" a"), None);
    assert_eq!(prefix_bytes("aé1"), None);
    assert_eq!(prefix_bytes(&"0".repeat(64)), Some(vec![0; 32]));
    assert_eq!(prefix_bytes(&"0".repeat(66)), None);
}

#[test]
fn peers_are_found_by_prefix() {
    let records = vec![record(1, "a:1"), record(2, "b:2")];
    for (i, nr) in records.iter().enumerate() {
        let id = hex(&nr.node_id());
        assert_eq!(find_peer_by_hex_prefix(&records, &id), Some(i));
        let short = node_id_short(&nr.node_id()) + "…";
        assert_eq!(find_peer_by_hex_prefix(&records, &short), Some(i));
    }
    let mut other = records[0].node_id();
    other[31] ^= 1;
    assert_eq!(find_peer_by_hex_prefix(&records, &hex(&other)), None);
    assert_eq!(find_peer_by_hex_prefix(&records, "zz"), None);
}

#[test]
fn whoami_shows_identifier_and_address() {
    let nr = record(1, "0.0.0.0:9000");
    assert_eq!(
        whoami_lines(&nr),
        vec![
            format!("NodeID : {}", hex(&nr.node_id())),
            "Listen : 0.0.0.0:9000".to_string()
        ]
    );
}

#[test]
fn peers_are_listed_with_their_sessions() {
    let mut sessions = SessionTable::new();
    assert_eq!(
        peers_lines(&vec![], &sessions),
        vec!["(no peers in DHT yet — waiting for discovery/bootstrap)"]
    );
    sessions.insert("b:2".to_string(), 4);
    let records = vec![record(1, "a:1"), record(2, "b:2")];
    let short = |i: usize| hex(&records[i].node_id()[..4]) + "…";
    assert_eq!(
        peers_lines(&records, &sessions),
        vec![
            format!("{:<18}  {}", "NodeID (prefix)", "Address"),
            "─".repeat(48),
            format!(" {:<18}  a:1", short(0)),
            format!("✓{:<18}  b:2", short(1)),
            "(2 peer(s); ✓ = active session)".to_string(),
        ]
    );
}

#[test]
fn send_needs_a_peer_and_a_session() {
    let records = vec![record(1, "a:1")];
    let id = hex(&records[0].node_id()[..2]);
    let mut sessions = SessionTable::new();
    match plan_send(&records, &sessions, "ffffffffff", "hi") {
        CliSend::Refused(lines) => assert_eq!(
            lines,
            vec![
                "send: no peer with NodeID prefix 'ffffffffff' in DHT.",
                "      Run 'peers' to see known nodes."
            ]
        ),
        _ => panic!("there is no such peer"),
    }
    let short = node_id_short(&records[0].node_id());
    match plan_send(&records, &sessions, &id, "hi") {
        CliSend::Refused(lines) => assert_eq!(
            lines,
            vec![
                format!("send: no active session with {short}… (a:1)."),
                "      Wait for discovery/bootstrap to connect, or restart with".to_string(),
                "      PRIMUS_SEEDS=a:1 to seed that address.".to_string(),
            ]
        ),
        _ => panic!("there is no session"),
    }
    sessions.insert("a:1".to_string(), 6);
    match plan_send(&records, &sessions, &id, "hé") {
        CliSend::Ready {
            session,
            payload,
            sent,
        } => {
            assert_eq!(session, 6);
            assert_eq!(payload, encode_message("hé".as_bytes(), 7).unwrap());
            let digest = sha3_256_short("hé".as_bytes());
            assert_eq!(
                sent,
                format!("[SENT ttl=7] {digest}… (3 bytes) → {short}… (a:1): hé")
            );
        }
        _ => panic!("the message can be sent"),
    }
    assert_eq!(CLI_TTL, 7);
}

#[test]
fn received_messages_are_shown_on_one_line() {
    let bytes = encode_message(b"hello", 3).unwrap();
    let digest = sha3_256_short(b"hello");
    assert_eq!(digest, "3338be69");
    assert_eq!(
        received_line(&bytes),
        format!("[RECV ttl=3] {digest}… (5 bytes): hello")
    );
    assert_eq!(received_line(&[b'a', 0xFF]), "[RECV raw] (2 bytes): a\u{FFFD}");
}
