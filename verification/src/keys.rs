//! What keys do.
use vstd::prelude::*;
use vstd::string::*;
use vstd::utf8::encode_utf8;

use crate::app_state::{
    char_deleted, char_inserted, cursor_moved_left, cursor_moved_right, line_views, narrowed,
    peer_position, peer_views, peers_are_found_where_they_first_stand,
    selected_next, selected_prev, tab_closed, tab_next, tab_opened, tab_prev, widened, App, ChatLine,
    ChatLineView, ChatStatus, Focus, };
use crate::bytes::{append_be_u64, append_bytes, be_bytes, copy_bytes};
use crate::envelope::{Envelope, EnvelopeView, MessageId, MessageKind, NodeId};
use crate::hash::{sha3_256, sha3_256_digest};
use crate::text::{trim, trimmed};

verus! {

/// A key.
#[derive(Clone, Copy, Debug, PartialEq, Eq, Structural)]
pub enum KeyCode {
    Char(char),
    Esc,
    Tab,
    Enter,
    Backspace,
    Left,
    Right,
    Up,
    Down,
    /// Any other key.
    Other,
}

/// A key event.
#[derive(Clone, Copy, Debug, PartialEq, Eq, Structural)]
pub struct Key {
    pub code: KeyCode,
    /// Whether the key went down, in contrast to a repetition or release.
    pub press: bool,
    pub control: bool,
    pub alt: bool,
    pub shift: bool,
}

/// What is to be done for a key besides the change of state.
pub enum KeyAction {
    Nothing,
    /// Send the envelope, with tracking.
    Send { recipient: NodeId, envelope: Envelope },
}

/// What is to be done for a key, as mathematical values.
pub enum KeyActionView {
    Nothing,
    Send { recipient: Seq<u8>, envelope: EnvelopeView },
}

impl View for KeyAction {
    type V = KeyActionView;

    open spec fn view(&self) -> KeyActionView {
        match self {
            KeyAction::Nothing => KeyActionView::Nothing,
            KeyAction::Send { recipient, envelope } => KeyActionView::Send {
                recipient: recipient@,
                envelope: envelope@,
            },
        }
    }
}

// ── Model ──────────────────────────────────────────────────────────────────

/// What is hashed for the identifier of a composed message.
pub open spec fn message_id_input(
    local: Seq<u8>,
    peer: Seq<u8>,
    sent_at: u64,
    text: Seq<char>,
) -> Seq<u8> {
    encode_utf8("primus-messenger-tui:msg"@) + local + peer + be_bytes(sent_at as nat, 8)
        + encode_utf8(text)
}

/// The envelope of a composed message.
pub open spec fn composed(local: Seq<u8>, peer: Seq<u8>, sent_at: u64, text: Seq<char>) -> EnvelopeView {
    EnvelopeView {
        message_id: sha3_256(message_id_input(local, peer, sent_at, text))@,
        sender_node_id: local,
        recipient_node_id: peer,
        ciphertext: encode_utf8(text),
        sent_at,
        kind: MessageKind::DirectMessage,
    }
}

/// The input was submitted at `now`. It is emptied in any case; white space
/// alone is not sent, and without an open conversation nothing is.
pub open spec fn submitted(before: App, after: App, now: u64, action: KeyActionView) -> bool {
    let text = before.input.chars@;
    &&& after.input.chars@ == Seq::<char>::empty()
    &&& after.input.cursor == 0
    &&& if trim(text).len() == 0 {
        &&& after == (App { input: after.input, ..before })
        &&& action is Nothing
    } else if before.open_tabs@.len() == 0 {
        &&& after == (App { input: after.input, status: after.status, ..before })
        &&& after.status@ == "⚠  No active tab — Tab to Peers pane and pick one"@
        &&& action is Nothing
    } else {
        let peer = before.open_tabs@[before.active_tab_index as int]@;
        let envelope = composed(before.local_node_id@, peer, now, text);
        &&& after == (App {
            input: after.input,
            status: after.status,
            messages: after.messages,
            chat_scroll: 0,
            ..before
        })
        &&& after.status@ == "↗ Sending message..."@
        &&& line_views(after.messages@) == line_views(before.messages@).push(
            ChatLineView {
                message_id: envelope.message_id,
                sender_id: before.local_node_id@,
                text,
                sent_at: now,
                is_mine: true,
                status: ChatStatus::Sent,
                animates: true,
            },
        )
        &&& action == (KeyActionView::Send { recipient: peer, envelope })
    }
}

/// What a key does while the input has focus.
pub open spec fn input_key(
    before: App,
    after: App,
    code: KeyCode,
    now: u64,
    action: KeyActionView,
) -> bool {
    match code {
        KeyCode::Char(c) => char_inserted(before, after, c) && action is Nothing,
        KeyCode::Backspace => char_deleted(before, after) && action is Nothing,
        KeyCode::Left => cursor_moved_left(before, after) && action is Nothing,
        KeyCode::Right => cursor_moved_right(before, after) && action is Nothing,
        KeyCode::Enter => submitted(before, after, now, action),
        KeyCode::Up => after == (App {
            chat_scroll: if before.chat_scroll == u16::MAX {
                u16::MAX
            } else {
                (before.chat_scroll + 1) as u16
            },
            ..before
        }) && action is Nothing,
        KeyCode::Down => after == (App {
            chat_scroll: if before.chat_scroll == 0 {
                0
            } else {
                (before.chat_scroll - 1) as u16
            },
            ..before
        }) && action is Nothing,
        _ => after == before && action is Nothing,
    }
}

/// The conversation with the selected peer is open, scrolled to its end,
/// and the input has focus. Nothing happens without a selection.
pub open spec fn peer_opened(before: App, after: App) -> bool {
    match before.selected_peer {
        None => after == before,
        Some(i) => exists|opened: App| #[trigger]
            tab_opened(before, opened, before.peers@[i as int].node_id) && after == (App {
                chat_scroll: 0,
                focus: Focus::Input,
                ..opened
            }),
    }
}

/// What a key does while the sidebar has focus.
pub open spec fn peer_list_key(before: App, after: App, code: KeyCode) -> bool {
    match code {
        KeyCode::Up => selected_prev(before, after),
        KeyCode::Char('k') => selected_prev(before, after),
        KeyCode::Down => selected_next(before, after),
        KeyCode::Char('j') => selected_next(before, after),
        KeyCode::Char('q') => after == (App { should_quit: true, ..before }),
        KeyCode::Enter => peer_opened(before, after),
        _ => after == before,
    }
}

/// What a key does, whatever has focus; `None` where that depends on focus.
pub open spec fn global_key(before: App, after: App, key: Key) -> Option<bool> {
    if key.control && (key.code == KeyCode::Char('c') || key.code == KeyCode::Char('q')) {
        Some(after == (App { should_quit: true, ..before }))
    } else if key.code == KeyCode::Esc {
        Some(after == (App { should_quit: true, ..before }))
    } else if key.code == KeyCode::Tab {
        Some(
            after == (App {
                focus: match before.focus {
                    Focus::Input => Focus::PeerList,
                    Focus::PeerList => Focus::Input,
                },
                ..before
            }),
        )
    } else if key.code == KeyCode::Char('?') {
        Some(after == (App { help_open: !before.help_open, ..before }))
    } else if key.code == KeyCode::Left && key.alt {
        Some(tab_prev(before, after))
    } else if key.code == KeyCode::Right && key.alt {
        Some(tab_next(before, after))
    } else if key.code == KeyCode::Char('w') && key.alt {
        Some(tab_closed(before, after))
    } else if key.code == KeyCode::Left && key.shift {
        Some(narrowed(before, after))
    } else if key.code == KeyCode::Right && key.shift {
        Some(widened(before, after))
    } else {
        None
    }
}

/// What a key does.
pub open spec fn key_handled(
    before: App,
    after: App,
    key: Key,
    now: u64,
    action: KeyActionView,
) -> bool {
    if !key.press {
        after == before && action is Nothing
    } else {
        match global_key(before, after, key) {
            Some(done) => done && action is Nothing,
            None => match before.focus {
                Focus::Input => input_key(before, after, key.code, now, action),
                Focus::PeerList => peer_list_key(before, after, key.code) && action is Nothing,
            },
        }
    }
}

// ── Implementation ─────────────────────────────────────────────────────────

/// The identifier of a composed message.
pub fn message_id(local: &NodeId, peer: &NodeId, sent_at: u64, text: &str) -> (out: MessageId)
    ensures
        out == sha3_256(message_id_input(local@, peer@, sent_at, text@)),
{
    let mut input = copy_bytes("primus-messenger-tui:msg".as_bytes());
    append_bytes(&mut input, local.as_slice());
    append_bytes(&mut input, peer.as_slice());
    append_be_u64(&mut input, sent_at);
    append_bytes(&mut input, text.as_bytes());
    assert(input@ =~= message_id_input(local@, peer@, sent_at, text@));
    sha3_256_digest(input.as_slice())
}

/// Submits the input.
fn submit(app: &mut App, now: u64) -> (action: KeyAction)
    requires
        old(app).wf(),
    ensures
        final(app).wf(),
        submitted(*old(app), *final(app), now, action@),
{
    let text = app.take_input();
    if trimmed(text.as_str()).as_str().unicode_len() == 0 {
        return KeyAction::Nothing;
    }
    if app.open_tabs.len() == 0 {
        app.set_status("⚠  No active tab — Tab to Peers pane and pick one");
        return KeyAction::Nothing;
    }
    let peer_id = app.open_tabs[app.active_tab_index];
    let local = app.local_node_id;
    let id = message_id(&local, &peer_id, now, text.as_str());
    let envelope = Envelope {
        message_id: id,
        sender_node_id: local,
        recipient_node_id: peer_id,
        ciphertext: copy_bytes(text.as_str().as_bytes()),
        sent_at: now,
        kind: MessageKind::DirectMessage,
    };
    app.set_status("↗ Sending message...");
    app.push_line(
        ChatLine {
            message_id: id,
            sender_id: local,
            text,
            sent_at: now,
            is_mine: true,
            status: ChatStatus::Sent,
            animates: true,
        },
    );
    app.chat_scroll = 0;
    assert(envelope@ =~= composed(local@, peer_id@, now, text@));
    KeyAction::Send { recipient: peer_id, envelope }
}

/// Handles a key while the input has focus.
pub fn handle_key_input(app: &mut App, code: KeyCode, now: u64) -> (action: KeyAction)
    requires
        old(app).wf(),
        old(app).input.chars@.len() < usize::MAX,
    ensures
        final(app).wf(),
        input_key(*old(app), *final(app), code, now, action@),
{
    match code {
        KeyCode::Char(c) => {
            app.insert_char(c);
        },
        KeyCode::Backspace => {
            app.backspace();
        },
        KeyCode::Left => {
            app.cursor_left();
        },
        KeyCode::Right => {
            app.cursor_right();
        },
        KeyCode::Enter => {
            return submit(app, now);
        },
        KeyCode::Up => {
            app.chat_scroll = app.chat_scroll.saturating_add(1);
        },
        KeyCode::Down => {
            app.chat_scroll = app.chat_scroll.saturating_sub(1);
        },
        _ => {},
    }
    KeyAction::Nothing
}

/// Handles a key while the sidebar has focus.
pub fn handle_key_peer_list(app: &mut App, code: KeyCode)
    requires
        old(app).wf(),
    ensures
        final(app).wf(),
        peer_list_key(*old(app), *final(app), code),
{
    match code {
        KeyCode::Up | KeyCode::Char('k') => {
            app.select_prev_peer();
        },
        KeyCode::Down | KeyCode::Char('j') => {
            app.select_next_peer();
        },
        KeyCode::Char('q') => {
            app.should_quit = true;
        },
        KeyCode::Enter => {
            let id = match app.selected_peer_entry() {
                Some(peer) => peer.node_id,
                None => return,
            };
            app.open_tab(id);
            let ghost opened = *app;
            assert(tab_opened(*old(app), opened, id));
            app.chat_scroll = 0;
            app.focus = Focus::Input;
        },
        _ => {},
    }
}

/// Handles a key event at `now`.
pub fn handle_key(app: &mut App, key: Key, now: u64) -> (action: KeyAction)
    requires
        old(app).wf(),
        old(app).input.chars@.len() < usize::MAX,
    ensures
        final(app).wf(),
        key_handled(*old(app), *final(app), key, now, action@),
{
    if !key.press {
        return KeyAction::Nothing;
    }
    if key.control && (key.code == KeyCode::Char('c') || key.code == KeyCode::Char('q')) {
        app.should_quit = true;
        return KeyAction::Nothing;
    }
    if key.code == KeyCode::Esc {
        app.should_quit = true;
    } else if key.code == KeyCode::Tab {
        app.focus = match app.focus {
            Focus::Input => Focus::PeerList,
            Focus::PeerList => Focus::Input,
        };
    } else if key.code == KeyCode::Char('?') {
        app.help_open = !app.help_open;
    } else if key.code == KeyCode::Left && key.alt {
        app.prev_tab();
    } else if key.code == KeyCode::Right && key.alt {
        app.next_tab();
    } else if key.code == KeyCode::Char('w') && key.alt {
        app.close_tab();
    } else if key.code == KeyCode::Left && key.shift {
        app.narrow_sidebar();
    } else if key.code == KeyCode::Right && key.shift {
        app.widen_sidebar();
    } else {
        match app.focus {
            Focus::Input => {
                return handle_key_input(app, key.code, now);
            },
            Focus::PeerList => {
                handle_key_peer_list(app, key.code);
            },
        }
    }
    KeyAction::Nothing
}

// ── Laws ───────────────────────────────────────────────────────────────────

/// An event that is no key going down changes nothing.
pub proof fn releases_change_nothing(before: App, after: App, key: Key, now: u64, action: KeyActionView)
    requires
        !key.press,
        key_handled(before, after, key, now, action),
    ensures
        after == before,
        action is Nothing,
{
}

/// Nothing is sent unless the input holds more than white space, a
/// conversation is open, and Enter goes down in the input; what is sent
/// then goes from this node to the open conversation, under an identifier
/// that sender, recipient, time and text determine, and stands last in the
/// chat as sent and not yet confirmed.
pub proof fn only_enter_sends(before: App, after: App, key: Key, now: u64, action: KeyActionView)
    requires
        before.wf(),
        key_handled(before, after, key, now, action),
        action is Send,
    ensures
        key.press,
        key.code == KeyCode::Enter,
        before.focus == Focus::Input,
        trim(before.input.chars@).len() > 0,
        before.open_tabs@.len() > 0,
        action->recipient == before.open_tabs@[before.active_tab_index as int]@,
        action->envelope.ciphertext == encode_utf8(before.input.chars@),
        action->envelope.kind == MessageKind::DirectMessage,
        action->envelope.sender_node_id == before.local_node_id@,
        action->envelope.recipient_node_id == action->recipient,
        action->envelope.sent_at == now,
        action->envelope.message_id == sha3_256(
            encode_utf8("primus-messenger-tui:msg"@) + before.local_node_id@ + action->recipient
                + be_bytes(now as nat, 8) + encode_utf8(before.input.chars@),
        )@,
        line_views(after.messages@).drop_last() == line_views(before.messages@),
        line_views(after.messages@).last().message_id == action->envelope.message_id,
        line_views(after.messages@).last().sender_id == before.local_node_id@,
        line_views(after.messages@).last().text == before.input.chars@,
        line_views(after.messages@).last().sent_at == now,
        line_views(after.messages@).last().is_mine,
        line_views(after.messages@).last().status == ChatStatus::Sent,
        after.input.chars@.len() == 0,
        after.chat_scroll == 0,
{
    assert(line_views(after.messages@).drop_last() =~= line_views(before.messages@));
}

/// Enter in the input sends what was typed wherever it is more than white
/// space and a conversation is open, and empties the input in any case.
pub proof fn enter_sends_what_was_typed(
    before: App,
    after: App,
    key: Key,
    now: u64,
    action: KeyActionView,
)
    requires
        before.wf(),
        key.press,
        key.code == KeyCode::Enter,
        before.focus == Focus::Input,
        key_handled(before, after, key, now, action),
    ensures
        action is Send <==> trim(before.input.chars@).len() > 0 && before.open_tabs@.len() > 0,
        action is Nothing ==> after.messages == before.messages,
        after.input.chars@.len() == 0,
        after.input.cursor == 0,
        after.open_tabs == before.open_tabs,
        after.active_tab_index == before.active_tab_index,
        after.focus == before.focus,
        after.should_quit == before.should_quit,
{
}

/// The interface ends exactly where it had ended before or one of the keys
/// for it goes down: Esc, C or Q with Control, and Q in the sidebar.
pub proof fn only_quit_keys_quit(before: App, after: App, key: Key, now: u64, action: KeyActionView)
    requires
        before.wf(),
        key_handled(before, after, key, now, action),
    ensures
        after.should_quit <==> before.should_quit || (key.press && (key.code == KeyCode::Esc || (
        key.control && key.code == KeyCode::Char('c')) || (key.control && key.code
            == KeyCode::Char('q')) || (key.code == KeyCode::Char('q') && before.focus
            == Focus::PeerList))),
{
    if key.press && before.focus == Focus::PeerList && global_key(before, after, key) is None {
        if key.code == KeyCode::Enter && before.selected_peer is Some {
            let opened = choose|opened: App| #[trigger]
                tab_opened(
                    before,
                    opened,
                    before.peers@[before.selected_peer->0 as int].node_id,
                ) && after == (App { chat_scroll: 0, focus: Focus::Input, ..opened });
            assert(opened.should_quit == before.should_quit);
        }
    }
}

/// What is typed in the input goes into it at the cursor and nowhere else,
/// except for the question mark and keys held with Control or Alt that have
/// another meaning.
pub proof fn typing_goes_into_the_input(
    before: App,
    after: App,
    c: char,
    key: Key,
    now: u64,
    action: KeyActionView,
)
    requires
        before.wf(),
        key.press,
        key.code == KeyCode::Char(c),
        !key.control,
        !key.alt,
        c != '?',
        before.focus == Focus::Input,
        key_handled(before, after, key, now, action),
    ensures
        action is Nothing,
        after.input.chars@ == before.input.chars@.subrange(0, before.input.cursor as int) + seq![c]
            + before.input.chars@.subrange(
            before.input.cursor as int,
            before.input.chars@.len() as int,
        ),
        after.input.cursor == before.input.cursor + 1,
        after == (App { input: after.input, ..before }),
{
    assert(after.input.chars@ =~= before.input.chars@.subrange(0, before.input.cursor as int)
        + seq![c] + before.input.chars@.subrange(
        before.input.cursor as int,
        before.input.chars@.len() as int,
    ));
}

/// A character that is typed and deleted again leaves everything as it was.
pub proof fn deleting_undoes_typing(before: App, typed: App, after: App, c: char)
    requires
        before.wf(),
        char_inserted(before, typed, c),
        char_deleted(typed, after),
    ensures
        after.input.chars@ == before.input.chars@,
        after.input.cursor == before.input.cursor,
        after == (App { input: after.input, ..before }),
{
    assert(after.input.chars@ =~= before.input.chars@);
}

/// Within the text, a step of the cursor to one side undoes a step to the
/// other; the text stays, and the cursor within it.
pub proof fn cursor_steps_undo_each_other(before: App, there: App, back: App)
    requires
        before.wf(),
        before.input.cursor < before.input.chars@.len(),
        cursor_moved_right(before, there),
        cursor_moved_left(there, back),
    ensures
        there.input.cursor == before.input.cursor + 1,
        there.input.chars == before.input.chars,
        back == before,
{
    assert(before.input.chars.len() <= usize::MAX);
}

/// At either end of the text the cursor stays.
pub proof fn cursor_stops_at_the_ends(before: App, after: App)
    requires
        before.wf(),
    ensures
        before.input.cursor == 0 && cursor_moved_left(before, after) ==> after == before,
        before.input.cursor == before.input.chars@.len() && cursor_moved_right(before, after)
            ==> after == before,
{
}

/// Going down the sidebar and up again, or the other way round, ends at the
/// peer where it began.
pub proof fn selections_go_round(before: App, there: App, back: App)
    requires
        before.wf(),
        before.selected_peer is Some,
        (selected_next(before, there) && selected_prev(there, back)) || (selected_prev(
            before,
            there,
        ) && selected_next(there, back)),
    ensures
        back == before,
        before.peers@.len() > 1 ==> there.selected_peer != before.selected_peer,
{
    assert(before.peers.len() <= usize::MAX);
}

/// Going down the sidebar goes on to the next peer in the list, from the
/// last one to the first, and starts at the first; going up starts at the
/// last.
pub proof fn selections_go_in_order(before: App, after: App)
    requires
        before.wf(),
        before.peers@.len() > 0,
    ensures
        selected_next(before, after) ==> after.selected_peer is Some && after.selected_peer->0
            == match before.selected_peer {
            Some(i) => (i + 1) % before.peers@.len() as int,
            None => 0,
        },
        selected_prev(before, after) && before.selected_peer is None ==> after.selected_peer
            == Some((before.peers@.len() - 1) as usize),
{
    assert(before.peers.len() <= usize::MAX);
    if let Some(i) = before.selected_peer {
        let n = before.peers@.len() as int;
        if i + 1 == n {
            assert((i + 1) % n == 0) by (nonlinear_arith)
                requires
                    i + 1 == n,
                    n > 0,
            ;
        } else {
            vstd::arithmetic::div_mod::lemma_small_mod((i + 1) as nat, n as nat);
        }
    }
}

/// A conversation that is opened is the active one and open once; the ones
/// that were open stay, in their order, and the peer is selected if it is
/// listed.
pub proof fn opening_activates_the_conversation(before: App, after: App, peer_id: NodeId)
    requires
        before.wf(),
        tab_opened(before, after, peer_id),
    ensures
        after.active_tab_index < after.open_tabs@.len(),
        after.open_tabs@[after.active_tab_index as int]@ == peer_id@,
        before.open_tabs@.is_prefix_of(after.open_tabs@),
        after.open_tabs@.len() <= before.open_tabs@.len() + 1,
        (exists|i: int| 0 <= i < before.open_tabs@.len() && (#[trigger] before.open_tabs@[i])@
            == peer_id@) <==> after.open_tabs@.len() == before.open_tabs@.len(),
        forall|i: int|
            0 <= i < before.peers@.len() && (#[trigger] before.peers@[i]).node_id@ == peer_id@
                ==> (after.selected_peer matches Some(s) && s <= i
                && before.peers@[s as int].node_id@ == peer_id@),
        after.messages == before.messages,
        after.input == before.input,
        after.peers == before.peers,
{
    let peers = peer_views(before.peers@);
    peers_are_found_where_they_first_stand(peers, peer_id@);
    assert(before.open_tabs@ =~= after.open_tabs@.subrange(0, before.open_tabs@.len() as int));
    assert(before.peers.len() <= usize::MAX);
    assert forall|i: int|
        0 <= i < before.peers@.len() && (#[trigger] before.peers@[i]).node_id@
            == peer_id@ implies (after.selected_peer matches Some(s) && s <= i
        && before.peers@[s as int].node_id@ == peer_id@) by {
        assert(peers[i].node_id == peer_id@);
        let p = peer_position(peers, peer_id@)->0;
        assert(peers[p] == before.peers@[p]@);
    }
}

/// Closing a tab closes the active one; the others stay open in their order,
/// and the one behind it becomes active, or the last one.
pub proof fn closing_keeps_the_other_tabs(before: App, after: App)
    requires
        before.wf(),
        before.open_tabs@.len() > 0,
        tab_closed(before, after),
    ensures
        ({
            let a = before.active_tab_index as int;
            let n = before.open_tabs@.len() as int;
            &&& after.open_tabs@.len() == n - 1
            &&& forall|i: int| 0 <= i < a ==> #[trigger] after.open_tabs@[i] == before.open_tabs@[i]
            &&& forall|i: int|
                a <= i < n - 1 ==> #[trigger] after.open_tabs@[i] == before.open_tabs@[i + 1]
            &&& a < n - 1 ==> after.open_tabs@[after.active_tab_index as int]
                == before.open_tabs@[a + 1]
            &&& a == n - 1 && n > 1 ==> after.open_tabs@[after.active_tab_index as int]
                == before.open_tabs@[n - 2]
            &&& n == 1 ==> after.active_tab_index == 0
        }),
        after.messages == before.messages,
        after.peers == before.peers,
        after.focus == before.focus,
{
}

/// The next tab is the one behind the active one, the first behind the last,
/// and its peer is the one selected, if it is listed. The tabs stay.
pub proof fn tabs_go_in_order(before: App, after: App)
    requires
        before.wf(),
        before.open_tabs@.len() > 0,
        tab_next(before, after),
    ensures
        after.open_tabs == before.open_tabs,
        after.active_tab_index == if before.active_tab_index == before.open_tabs@.len() - 1 {
            0
        } else {
            before.active_tab_index + 1
        },
        after.selected_peer matches Some(s) ==> s < before.peers@.len()
            && before.peers@[s as int].node_id@
            == after.open_tabs@[after.active_tab_index as int]@,
        after.selected_peer is None ==> forall|i: int|
            0 <= i < before.peers@.len() ==> (#[trigger] before.peers@[i]).node_id@
                != after.open_tabs@[after.active_tab_index as int]@,
{
    assert(before.open_tabs.len() <= usize::MAX);
    assert(before.peers.len() <= usize::MAX);
    let peers = peer_views(before.peers@);
    let id = after.open_tabs@[after.active_tab_index as int]@;
    peers_are_found_where_they_first_stand(peers, id);
    match peer_position(peers, id) {
        Some(p) => {
            assert(peers[p] == before.peers@[p]@);
        },
        None => {
            assert forall|i: int| 0 <= i < before.peers@.len() implies (
            #[trigger] before.peers@[i]).node_id@ != id by {
                assert(peers[i].node_id != id);
            }
        },
    }
}

/// The sidebar changes by two columns, and stops at its bounds.
pub proof fn the_sidebar_keeps_its_bounds(before: App, after: App)
    requires
        before.wf(),
    ensures
        narrowed(before, after) ==> after.sidebar_width == if before.sidebar_width - 2 < 10 {
            10
        } else {
            before.sidebar_width - 2
        } && after == (App { sidebar_width: after.sidebar_width, ..before }),
        widened(before, after) ==> after.sidebar_width == if before.sidebar_width + 2 > 100 {
            100
        } else {
            before.sidebar_width + 2
        } && after == (App { sidebar_width: after.sidebar_width, ..before }),
{
}

/// In the input the arrow keys scroll the chat: up and down again ends where
/// it began, and nothing but the scrolling changes.
pub proof fn scrolling_goes_both_ways(
    before: App,
    up: App,
    down: App,
    now: u64,
    first: KeyActionView,
    second: KeyActionView,
)
    requires
        before.chat_scroll < u16::MAX,
        input_key(before, up, KeyCode::Up, now, first),
        input_key(up, down, KeyCode::Down, now, second),
    ensures
        up.chat_scroll == before.chat_scroll + 1,
        up == (App { chat_scroll: up.chat_scroll, ..before }),
        down == before,
        first is Nothing,
        second is Nothing,
{
}

/// Enter in the sidebar opens the conversation with the selected peer and
/// gives the input focus; it does nothing without a selection.
pub proof fn choosing_a_peer_opens_its_conversation(before: App, after: App)
    requires
        before.wf(),
        peer_list_key(before, after, KeyCode::Enter),
    ensures
        before.selected_peer is None ==> after == before,
        before.selected_peer matches Some(i) ==> {
            &&& after.focus == Focus::Input
            &&& after.chat_scroll == 0
            &&& after.active_tab_index < after.open_tabs@.len()
            &&& after.open_tabs@[after.active_tab_index as int]@
                == before.peers@[i as int].node_id@
        },
{
}

/// Tab moves the focus to the other pane and the question mark shows or
/// hides the help, whatever has focus; doing so twice changes nothing.
pub proof fn toggles_undo_themselves(
    before: App,
    there: App,
    back: App,
    key: Key,
    now: u64,
    first: KeyActionView,
    second: KeyActionView,
)
    requires
        key.press,
        !key.control,
        key.code == KeyCode::Tab || key.code == KeyCode::Char('?'),
        key_handled(before, there, key, now, first),
        key_handled(there, back, key, now, second),
    ensures
        back == before,
        key.code == KeyCode::Tab ==> there.focus != before.focus && there.help_open
            == before.help_open,
        key.code == KeyCode::Char('?') ==> there.help_open != before.help_open && there.focus
            == before.focus,
{
}

/// Switching tabs forth and back ends at the tab where it began.
pub proof fn tabs_go_round(before: App, there: App, back: App)
    requires
        before.wf(),
        before.open_tabs@.len() > 0,
        tab_next(before, there),
        tab_prev(there, back),
    ensures
        back.active_tab_index == before.active_tab_index,
        back.open_tabs == before.open_tabs,
{
    assert(before.open_tabs.len() <= usize::MAX);
}

} // verus!
