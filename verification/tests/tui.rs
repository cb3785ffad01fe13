use messenger::app_state::{App, ChatLine, ChatStatus, Focus, PeerEntry};
use messenger::chat::{
    handle_event, on_key, on_tick, refresh_chat, refresh_peer_list, TuiEvent, TuiIngress,
};
use messenger::delivery::DeliveryResult;
use messenger::envelope::{encode_envelope, encode_receipt, Envelope, MessageKind, ReceiptPayload};
use messenger::ingress::MessageIngress;
use messenger::keys::{handle_key, message_id, Key, KeyAction, KeyCode};
use messenger::messenger_core::MessengerCore;
use messenger::network::encode_message;
use messenger::peer::PrimusNR;
use messenger::sessions::SessionTable;
use messenger::theme::{Color, Style, Theme};
use messenger::view::{
    chat_offset, chat_title, format_time, peer_placeholder, render_chat, render_help, render_input,
    render_peer_list, render_status, render_tabs, spinner_frame,
};
use sha3::Digest;

const LOCAL: [u8; 32] = [0xAB; 32];

fn app() -> App {
    App::new(LOCAL, Theme::dark_hacker())
}

fn key(code: KeyCode) -> Key {
    Key {
        code,
        press: true,
        control: false,
        alt: false,
        shift: false,
    }
}

fn alt(code: KeyCode) -> Key {
    Key {
        alt: true,
        ..key(code)
    }
}

fn shift(code: KeyCode) -> Key {
    Key {
        shift: true,
        ..key(code)
    }
}

fn control(code: KeyCode) -> Key {
    Key {
        control: true,
        ..key(code)
    }
}

fn typed(app: &mut App, text: &str) {
    for c in text.chars() {
        handle_key(app, key(KeyCode::Char(c)), 0);
    }
}

fn peer(id: u8) -> PeerEntry {
    PeerEntry {
        node_id: [id; 32],
        addr: format!("p:{id}"),
        connected: false,
        dialing: false,
    }
}

fn envelope(id: u8, from: [u8; 32], to: [u8; 32], at: u64, text: &str) -> Envelope {
    Envelope {
        message_id: [id; 32],
        sender_node_id: from,
        recipient_node_id: to,
        ciphertext: text.as_bytes().to_vec(),
        sent_at: at,
        kind: MessageKind::DirectMessage,
    }
}

#[test]
fn interface_starts_empty() {
    let app = app();
    assert_eq!(app.status, "NodeID: abababab… | Starting up… (unencrypted)");
    assert_eq!(app.sidebar_width, 26);
    assert_eq!(app.focus, Focus::Input);
    assert_eq!(app.focus, Focus::default());
    assert!(app.selected_peer_entry().is_none());
}

#[test]
fn input_is_edited_character_by_character() {
    let mut app = app();
    typed(&mut app, "aéb");
    handle_key(&mut app, key(KeyCode::Left), 0);
    handle_key(&mut app, key(KeyCode::Backspace), 0);
    assert_eq!(app.input.text(), "ab");
    typed(&mut app, "→");
    assert_eq!(app.input.text(), "a→b");
    handle_key(&mut app, key(KeyCode::Right), 0);
    handle_key(&mut app, key(KeyCode::Right), 0);
    typed(&mut app, "!");
    assert_eq!(app.input.text(), "a→b!");
    for _ in 0..9 {
        handle_key(&mut app, key(KeyCode::Left), 0);
    }
    handle_key(&mut app, key(KeyCode::Backspace), 0);
    assert_eq!(app.input.text(), "a→b!");
    assert_eq!(app.take_input(), "a→b!");
    assert_eq!(app.input.text(), "");
}

#[test]
fn input_line_shows_the_cursor() {
    let mut app = app();
    typed(&mut app, "xyz");
    let texts = |app: &App| -> Vec<String> {
        render_input(app).into_iter().map(|s| s.text).collect()
    };
    assert_eq!(texts(&app), vec![" ▷ ", "xyz", " ", ""]);
    app.cursor_left();
    app.cursor_left();
    assert_eq!(texts(&app), vec![" ▷ ", "x", "y", "z"]);
    app.open_tab([1; 32]);
    app.focus = Focus::PeerList;
    assert_eq!(texts(&app), vec![" ▶ ", "xyz"]);
}

#[test]
fn quitting_help_focus_and_sidebar_keys() {
    for k in [
        key(KeyCode::Esc),
        control(KeyCode::Char('c')),
        control(KeyCode::Char('q')),
    ] {
        let mut app = app();
        handle_key(&mut app, k, 0);
        assert!(app.should_quit);
        let mut app2 = App::new(LOCAL, Theme::dark_hacker());
        handle_key(&mut app2, Key { press: false, ..k }, 0);
        assert!(!app2.should_quit);
    }
    let mut app = app();
    handle_key(&mut app, key(KeyCode::Char('q')), 0);
    assert!(!app.should_quit);
    assert_eq!(app.input.text(), "q");
    handle_key(&mut app, key(KeyCode::Tab), 0);
    assert_eq!(app.focus, Focus::PeerList);
    handle_key(&mut app, key(KeyCode::Char('?')), 0);
    assert!(app.help_open);
    for _ in 0..60 {
        handle_key(&mut app, shift(KeyCode::Left), 0);
    }
    assert_eq!(app.sidebar_width, 10);
    for _ in 0..60 {
        handle_key(&mut app, shift(KeyCode::Right), 0);
    }
    assert_eq!(app.sidebar_width, 100);
    handle_key(&mut app, key(KeyCode::Char('q')), 0);
    assert!(app.should_quit);
}

#[test]
fn peers_are_selected_round_and_round() {
    let mut app = app();
    app.select_next_peer();
    app.select_prev_peer();
    assert_eq!(app.selected_peer, None);
    app.peers = vec![peer(1), peer(2), peer(3)];
    app.focus = Focus::PeerList;
    handle_key(&mut app, key(KeyCode::Up), 0);
    assert_eq!(app.selected_peer, Some(2));
    handle_key(&mut app, key(KeyCode::Char('j')), 0);
    assert_eq!(app.selected_peer, Some(0));
    handle_key(&mut app, key(KeyCode::Down), 0);
    assert_eq!(app.selected_peer, Some(1));
    handle_key(&mut app, key(KeyCode::Char('k')), 0);
    assert_eq!(app.selected_peer, Some(0));
    app.chat_scroll = 9;
    handle_key(&mut app, key(KeyCode::Enter), 0);
    assert_eq!(app.open_tabs, vec![[1u8; 32]]);
    assert_eq!(app.focus, Focus::Input);
    assert_eq!(app.chat_scroll, 0);
}

#[test]
fn tabs_open_once_switch_and_close() {
    let mut app = app();
    app.peers = vec![peer(1), peer(2), peer(3)];
    app.open_tab([1; 32]);
    app.open_tab([2; 32]);
    app.open_tab([9; 32]);
    app.open_tab([1; 32]);
    assert_eq!(app.open_tabs.len(), 3);
    assert_eq!(app.active_tab_index, 0);
    assert_eq!(app.selected_peer, Some(0));
    handle_key(&mut app, alt(KeyCode::Right), 0);
    assert_eq!((app.active_tab_index, app.selected_peer), (1, Some(1)));
    handle_key(&mut app, alt(KeyCode::Right), 0);
    assert_eq!((app.active_tab_index, app.selected_peer), (2, None));
    handle_key(&mut app, alt(KeyCode::Right), 0);
    assert_eq!(app.active_tab_index, 0);
    handle_key(&mut app, alt(KeyCode::Left), 0);
    assert_eq!(app.active_tab_index, 2);
    assert_eq!(render_tabs(&app), vec![" 01010101… ", " 02020202… ", " 09090909… "]);
    handle_key(&mut app, alt(KeyCode::Char('w')), 0);
    assert_eq!((app.active_tab_index, app.selected_peer), (1, Some(1)));
    app.close_tab();
    app.close_tab();
    app.close_tab();
    assert_eq!((app.active_tab_index, app.selected_peer), (0, None));
    assert!(app.open_tabs.is_empty());
}

#[test]
fn enter_sends_to_the_active_tab() {
    let mut app = app();
    typed(&mut app, "  ");
    assert!(matches!(handle_key(&mut app, key(KeyCode::Enter), 5), KeyAction::Nothing));
    assert_eq!(app.input.text(), "");
    typed(&mut app, "hé");
    assert!(matches!(handle_key(&mut app, key(KeyCode::Enter), 5), KeyAction::Nothing));
    assert_eq!(app.status, "⚠  No active tab — Tab to Peers pane and pick one");
    app.open_tab([7; 32]);
    app.chat_scroll = 4;
    typed(&mut app, "hé");
    match handle_key(&mut app, key(KeyCode::Enter), 5) {
        KeyAction::Send {
            recipient,
            envelope,
        } => {
            assert_eq!(recipient, [7; 32]);
            assert_eq!(envelope.message_id, message_id(&LOCAL, &[7; 32], 5, "hé"));
            assert_eq!(envelope.sender_node_id, LOCAL);
            assert_eq!(envelope.recipient_node_id, [7; 32]);
            assert_eq!(envelope.ciphertext, "hé".as_bytes());
            assert_eq!(envelope.sent_at, 5);
            assert_eq!(envelope.kind, MessageKind::DirectMessage);
            assert_eq!(app.messages[0].message_id, envelope.message_id);
        }
        KeyAction::Nothing => panic!("the message is sent"),
    }
    assert_eq!(app.status, "↗ Sending message...");
    assert_eq!(app.chat_scroll, 0);
    assert_eq!(app.messages.len(), 1);
    assert_eq!(app.messages[0].text, "hé");
    assert_eq!(app.messages[0].status, ChatStatus::Sent);
    assert!(app.messages[0].is_mine && app.messages[0].animates);
}

#[test]
fn message_id_is_the_digest_of_its_parts() {
    let mut hasher = sha3::Sha3_256::new();
    hasher.update(b"primus-messenger-tui:msg");
    hasher.update([1u8; 32]);
    hasher.update([2u8; 32]);
    hasher.update(77u64.to_be_bytes());
    hasher.update("hé".as_bytes());
    let expected: [u8; 32] = hasher.finalize().into();
    assert_eq!(message_id(&[1; 32], &[2; 32], 77, "hé"), expected);
}

#[test]
fn chat_scrolls_with_the_arrows() {
    let mut app = app();
    handle_key(&mut app, key(KeyCode::Down), 0);
    assert_eq!(app.chat_scroll, 0);
    handle_key(&mut app, key(KeyCode::Up), 0);
    handle_key(&mut app, key(KeyCode::Up), 0);
    handle_key(&mut app, key(KeyCode::Down), 0);
    assert_eq!(app.chat_scroll, 1);
    app.chat_scroll = u16::MAX;
    handle_key(&mut app, key(KeyCode::Up), 0);
    assert_eq!(app.chat_scroll, u16::MAX);
    assert_eq!(chat_offset(30, 12, 5), 15);
    assert_eq!(chat_offset(30, 12, 20), 0);
    assert_eq!(chat_offset(10, 12, 99), 0);
    assert_eq!(chat_offset(3, 1, 1), 2);
}

#[test]
fn peer_list_follows_records_sessions_and_messages() {
    let mut app = app();
    let make = |k: u8, addr: &str| PrimusNR {
        public_key: vec![k],
        addr: addr.to_string(),
        signature: vec![],
    };
    let records = vec![make(1, "a:1"), make(2, "b:2")];
    let mut sessions = SessionTable::new();
    sessions.insert("a:1".to_string(), 1);
    app.peers = vec![peer(1), peer(2), peer(3)];
    app.selected_peer = Some(2);
    refresh_peer_list(&mut app, &records, &sessions);
    assert_eq!(app.selected_peer, Some(1));
    assert_eq!(app.peers[0].node_id, records[0].node_id());
    assert!(app.peers[0].connected && !app.peers[0].dialing);
    assert!(!app.peers[1].connected && !app.peers[1].dialing);
    app.refresh_status();
    assert_eq!(
        app.status,
        "NodeID: abababab… | peers: 2 known, 1 connected | (unencrypted)"
    );
    app.messages.push(ChatLine {
        message_id: [1; 32],
        sender_id: LOCAL,
        text: "x".to_string(),
        sent_at: 0,
        is_mine: true,
        status: ChatStatus::Sent,
        animates: false,
    });
    refresh_peer_list(&mut app, &records, &sessions);
    assert!(!app.peers[0].dialing && app.peers[1].dialing);
    app.messages[0].status = ChatStatus::Failed;
    refresh_peer_list(&mut app, &records, &sessions);
    assert!(!app.peers[1].dialing);
    refresh_peer_list(&mut app, &vec![], &sessions);
    assert_eq!(app.selected_peer, None);
}

#[test]
fn ticks_look_up_sessions_and_now_and_then_the_peers() {
    let mut app = app();
    app.peers = vec![peer(1), peer(2)];
    app.peers[0].connected = true;
    let mut sessions = SessionTable::new();
    sessions.insert("p:2".to_string(), 1);
    let mut ticks = 18u64;
    assert!(!on_tick(&mut app, &sessions, &mut ticks));
    assert!(!app.peers[0].connected && app.peers[1].connected);
    assert!(on_tick(&mut app, &sessions, &mut ticks));
    assert_eq!(ticks, 20);
}

#[test]
fn incoming_messages_show_up_in_the_open_conversation() {
    let mut app = app();
    let mut core = MessengerCore::new(LOCAL);
    app.peers = vec![peer(1), peer(2)];
    app.open_tab([1; 32]);
    let first = encode_envelope(&envelope(10, [1; 32], LOCAL, 100, "hi")).unwrap();
    let other = encode_envelope(&envelope(11, [2; 32], LOCAL, 90, "other")).unwrap();
    handle_event(&mut app, &mut core, TuiEvent::IncomingEnvelope(first, 0), 1);
    assert_eq!(app.messages.len(), 1);
    assert!(app.messages[0].animates && !app.messages[0].is_mine);
    assert_eq!(app.messages[0].status, ChatStatus::Delivered);
    handle_event(&mut app, &mut core, TuiEvent::IncomingEnvelope(other, 0), 2);
    assert_eq!(app.messages.len(), 1);
    assert_eq!(core.len(), 2);
    handle_event(&mut app, &mut core, TuiEvent::IncomingEnvelope(vec![1, 2], 0), 3);
    assert_eq!(core.len(), 2);

    // Selecting the other peer shows the other conversation.
    app.focus = Focus::PeerList;
    on_key(&mut app, &core, key(KeyCode::Down), 4);
    assert_eq!(app.selected_peer, Some(1));
    on_key(&mut app, &core, key(KeyCode::Enter), 4);
    refresh_chat(&mut app, &core);
    assert_eq!(app.messages[0].text, "other");
    app.close_tab();
    app.close_tab();
    refresh_chat(&mut app, &core);
    assert!(app.messages.is_empty());
}

#[test]
fn receipts_and_outcomes_mark_messages() {
    let mut app = app();
    let mut core = MessengerCore::new(LOCAL);
    app.open_tab([1; 32]);
    typed(&mut app, "hello");
    let id = match handle_key(&mut app, key(KeyCode::Enter), 9) {
        KeyAction::Send { envelope, .. } => envelope.message_id,
        KeyAction::Nothing => panic!("the message is sent"),
    };
    let update = |app: &mut App, core: &mut MessengerCore, result| {
        handle_event(app, core, TuiEvent::DeliveryUpdate(id, result), 0);
    };
    update(&mut app, &mut core, DeliveryResult::Failed);
    assert_eq!(app.messages[0].status, ChatStatus::Failed);
    update(&mut app, &mut core, DeliveryResult::RelayedViaGossip);
    assert_eq!(app.messages[0].status, ChatStatus::Sent);
    update(&mut app, &mut core, DeliveryResult::DirectDelivered);
    assert_eq!(app.messages[0].status, ChatStatus::Sent);
    let receipt = Envelope {
        kind: MessageKind::DeliveryReceipt,
        ciphertext: encode_receipt(&ReceiptPayload {
            message_id: id,
            received_at: 1,
        })
        .unwrap(),
        ..envelope(77, [1; 32], LOCAL, 10, "")
    };
    let bytes = encode_envelope(&receipt).unwrap();
    handle_event(&mut app, &mut core, TuiEvent::IncomingEnvelope(bytes, 0), 0);
    assert_eq!(app.messages[0].status, ChatStatus::Delivered);
    handle_event(&mut app, &mut core, TuiEvent::BootstrapStarted, 0);
    assert!(app.bootstrap_running);
    handle_event(&mut app, &mut core, TuiEvent::BootstrapCompleted, 0);
    assert!(!app.bootstrap_running);
}

#[test]
fn ingress_turns_messages_into_events() {
    let mut ingress = TuiIngress { events: Vec::new() };
    assert_eq!(ingress.on_envelope(&encode_message(&[4, 5], 6).unwrap()), Ok(true));
    assert_eq!(ingress.on_envelope(&[1]), Ok(true));
    assert_eq!(ingress.events.len(), 1);
    assert!(matches!(&ingress.events[0], TuiEvent::IncomingEnvelope(d, 6) if *d == vec![4, 5]));
}

#[test]
fn ingress_turns_bare_envelopes_into_events() {
    let envelope = Envelope {
        message_id: [7; 32],
        sender_node_id: [1; 32],
        recipient_node_id: LOCAL,
        ciphertext: b"hello".to_vec(),
        sent_at: 5,
        kind: MessageKind::DirectMessage,
    };
    let bytes = encode_envelope(&envelope).unwrap();
    let mut ingress = TuiIngress { events: Vec::new() };
    assert_eq!(ingress.on_envelope(&bytes), Ok(true));
    assert_eq!(ingress.events.len(), 1);
    let event = ingress.events.remove(0);
    assert!(matches!(&event, TuiEvent::IncomingEnvelope(d, 0) if *d == bytes));

    let mut app = app();
    let mut core = MessengerCore::new(LOCAL);
    app.peers = vec![peer(1)];
    app.selected_peer = Some(0);
    app.open_tab([1; 32]);
    handle_event(&mut app, &mut core, event, 9);
    assert_eq!(core.len(), 1);
    assert_eq!(app.messages.len(), 1);
    assert_eq!(app.messages[0].text, "hello");
}

fn flat(rows: &[Vec<messenger::view::Span>]) -> Vec<String> {
    rows.iter()
        .map(|r| r.iter().map(|s| s.text.as_str()).collect())
        .collect()
}

#[test]
fn chat_shows_hints_and_messages() {
    let mut app = app();
    assert_eq!(chat_title(&app), " ◈ Select a peer to chat ");
    assert_eq!(flat(&render_chat(&app)), vec!["", "  ← Select a peer to start chatting"]);
    app.open_tab([0x1F; 32]);
    assert_eq!(chat_title(&app), " ◈ 1f1f1f1f1f1f ");
    assert_eq!(
        flat(&render_chat(&app)),
        vec!["", "  No messages yet. Type below and press Enter."]
    );
    for (mine, status) in [
        (true, ChatStatus::Sent),
        (true, ChatStatus::Delivered),
        (true, ChatStatus::Failed),
        (false, ChatStatus::Delivered),
    ] {
        app.push_line(ChatLine {
            message_id: [1; 32],
            sender_id: [0x1F; 32],
            text: "t".to_string(),
            sent_at: 3 * 3600 + 4 * 60,
            is_mine: mine,
            status,
            animates: false,
        });
    }
    assert_eq!(
        flat(&render_chat(&app)),
        vec![
            "  [03:04] You ⟳", "  t", "",
            "  [03:04] You ✓", "  t", "",
            "  [03:04] You ✗", "  t", "",
            "  [03:04] 1f1f1f1f…", "  t", "",
        ]
    );
}

#[test]
fn sidebar_status_and_help() {
    let mut app = app();
    let hint = peer_placeholder(&app).unwrap();
    assert_eq!(flat(&hint), vec!["", "  Discovering…"]);
    assert_eq!(hint[1][0].style, app.theme.dim_style());
    app.peers = vec![peer(1), peer(2), peer(3)];
    app.peers[0].connected = true;
    app.peers[1].dialing = true;
    app.selected_peer = Some(1);
    assert!(peer_placeholder(&app).is_none());
    let list = render_peer_list(&app, 160, false);
    let texts: Vec<String> = list
        .iter()
        .map(|r| r.spans.iter().map(|s| s.text.as_str()).collect())
        .collect();
    assert_eq!(texts, vec!["● 01010101…", "⠹ 02020202…", "○ 03030303…"]);
    assert_eq!(list[0].style, app.theme.body_style());
    assert_eq!(list[1].style.bg, Some(app.theme.get_surface2()));
    app.bootstrap_running = true;
    app.set_status("S");
    let bar: String = render_status(&app, 0, true).iter().map(|s| s.text.as_str()).collect();
    assert_eq!(
        bar,
        " S | Bootstrap self-lookup …  │  [?] help  [Tab] focus  [↑↓] peer  [Enter] send  [Esc/q] quit"
    );
    app.show_listening("0.0.0.0:9000");
    assert_eq!(app.status, "NodeID: abababab… | Listening on 0.0.0.0:9000");
    let help = flat(&render_help(&app));
    assert_eq!(help.len(), 15);
    assert_eq!(help[0], " Global:");
    assert_eq!(help[14], "  [Enter]      Send message");
}

#[test]
fn spinner_turns_and_times_wrap() {
    let frames: Vec<&str> = (0..11).map(|i| spinner_frame(i * 80 + 79, false)).collect();
    assert_eq!(frames, vec!["⠋", "⠙", "⠹", "⠸", "⠼", "⠴", "⠦", "⠧", "⠇", "⠏", "⠋"]);
    assert_eq!(spinner_frame(500, true), "…");
    assert_eq!(format_time(0), "00:00");
    assert_eq!(format_time(86399), "23:59");
    assert_eq!(format_time(86400 + 3600 * 13 + 60 * 7 + 5), "13:07");
}

#[test]
fn themes_have_their_colors() {
    let dark = Theme::dark_hacker();
    assert_eq!(dark.get_bg(), Color::Rgb(15, 17, 23));
    assert_eq!(dark.accent2, (52, 152, 175));
    assert_eq!(Theme::muted_forest().get_their_msg(), Color::Rgb(200, 210, 200));
    assert_eq!(Theme::default().bg, dark.bg);
    assert_eq!(
        dark.cursor_style(),
        Style {
            fg: Some(Color::Rgb(15, 17, 23)),
            bg: Some(Color::Rgb(82, 175, 200)),
            bold: false
        }
    );
    assert!(dark.title_style().bold);
    let (theme, save) = Theme::load_or_default(Some(Theme::muted_forest()));
    assert_eq!((theme.bg, save), ((20, 24, 20), false));
    let (theme, save) = Theme::load_or_default(None);
    assert_eq!((theme.bg, save), ((15, 17, 23), true));
}
