//! The state behind the terminal interface.
use vstd::prelude::*;
use vstd::string::*;

use crate::bytes::same_id;
use crate::envelope::NodeId;
use crate::peer::NodeAddr;
use crate::text::{decimal, decimal_text, hex_short, hex_short_text, text_of};
use crate::theme::Theme;

verus! {

/// Narrowest and widest sidebar.
pub const SIDEBAR_MIN: u16 = 10;

pub const SIDEBAR_MAX: u16 = 100;

/// Which pane owns keyboard focus.
#[derive(Clone, Copy, Debug, PartialEq, Eq, Structural)]
pub enum Focus {
    Input,
    PeerList,
}

impl Default for Focus {
    fn default() -> (out: Self)
        ensures
            out == Focus::Input,
    {
        Focus::Input
    }
}

/// A peer in the sidebar.
#[derive(Debug)]
pub struct PeerEntry {
    pub node_id: NodeId,
    pub addr: NodeAddr,
    /// Whether there is an active session.
    pub connected: bool,
    /// Whether a message is on its way to the peer without a session.
    pub dialing: bool,
}

/// What a `PeerEntry` holds, as mathematical values.
#[verifier::ext_equal]
pub struct PeerEntryView {
    pub node_id: Seq<u8>,
    pub addr: Seq<char>,
    pub connected: bool,
    pub dialing: bool,
}

impl View for PeerEntry {
    type V = PeerEntryView;

    open spec fn view(&self) -> PeerEntryView {
        PeerEntryView {
            node_id: self.node_id@,
            addr: self.addr@,
            connected: self.connected,
            dialing: self.dialing,
        }
    }
}

/// Delivery status of a message in the chat.
#[derive(Clone, Copy, Debug, PartialEq, Eq, Structural)]
pub enum ChatStatus {
    Sent,
    Delivered,
    Failed,
}

/// A message in the chat.
#[derive(Debug)]
pub struct ChatLine {
    pub message_id: [u8; 32],
    pub sender_id: NodeId,
    pub text: String,
    /// Unix epoch seconds.
    pub sent_at: u64,
    pub is_mine: bool,
    pub status: ChatStatus,
    /// Whether the message is new and slides in.
    pub animates: bool,
}

/// What a `ChatLine` holds, as mathematical values.
#[verifier::ext_equal]
pub struct ChatLineView {
    pub message_id: Seq<u8>,
    pub sender_id: Seq<u8>,
    pub text: Seq<char>,
    pub sent_at: u64,
    pub is_mine: bool,
    pub status: ChatStatus,
    pub animates: bool,
}

impl View for ChatLine {
    type V = ChatLineView;

    open spec fn view(&self) -> ChatLineView {
        ChatLineView {
            message_id: self.message_id@,
            sender_id: self.sender_id@,
            text: self.text@,
            sent_at: self.sent_at,
            is_mine: self.is_mine,
            status: self.status,
            animates: self.animates,
        }
    }
}

/// What the peers of a list hold.
pub open spec fn peer_views(list: Seq<PeerEntry>) -> Seq<PeerEntryView> {
    list.map_values(|p: PeerEntry| p@)
}

/// What the messages of a list hold.
pub open spec fn line_views(list: Seq<ChatLine>) -> Seq<ChatLineView> {
    list.map_values(|l: ChatLine| l@)
}

// ── Input line ─────────────────────────────────────────────────────────────

/// Text being composed, with a cursor between its characters.
#[derive(Debug)]
pub struct InputLine {
    pub chars: Vec<char>,
    /// How many characters stand left of the cursor.
    pub cursor: usize,
}

impl InputLine {
    /// The cursor stands within the text.
    pub open spec fn wf(self) -> bool {
        self.cursor <= self.chars@.len()
    }

    /// An empty line.
    pub fn new() -> (out: Self)
        ensures
            out.wf(),
            out.chars@ == Seq::<char>::empty(),
            out.cursor == 0,
    {
        InputLine { chars: Vec::new(), cursor: 0 }
    }

    /// Inserts a character at the cursor, which moves behind it.
    pub fn insert_char(&mut self, ch: char)
        requires
            old(self).wf(),
            old(self).chars@.len() < usize::MAX,
        ensures
            final(self).wf(),
            final(self).chars@ == old(self).chars@.insert(old(self).cursor as int, ch),
            final(self).cursor == old(self).cursor + 1,
    {
        self.chars.insert(self.cursor, ch);
        self.cursor = self.cursor + 1;
    }

    /// Deletes the character left of the cursor, if there is one.
    pub fn backspace(&mut self)
        requires
            old(self).wf(),
        ensures
            final(self).wf(),
            if old(self).cursor == 0 {
                *final(self) == *old(self)
            } else {
                &&& final(self).chars@ == old(self).chars@.remove(old(self).cursor - 1)
                &&& final(self).cursor == old(self).cursor - 1
            },
    {
        if self.cursor == 0 {
            return;
        }
        self.cursor = self.cursor - 1;
        self.chars.remove(self.cursor);
    }

    /// Moves the cursor one character left, if there is one.
    pub fn cursor_left(&mut self)
        requires
            old(self).wf(),
        ensures
            final(self).wf(),
            final(self).chars == old(self).chars,
            final(self).cursor == if old(self).cursor == 0 {
                0
            } else {
                old(self).cursor - 1
            },
    {
        if self.cursor > 0 {
            self.cursor = self.cursor - 1;
        }
    }

    /// Moves the cursor one character right, if there is one.
    pub fn cursor_right(&mut self)
        requires
            old(self).wf(),
        ensures
            final(self).wf(),
            final(self).chars == old(self).chars,
            final(self).cursor == if old(self).cursor < old(self).chars@.len() {
                old(self).cursor + 1
            } else {
                old(self).cursor as int
            },
    {
        if self.cursor < self.chars.len() {
            self.cursor = self.cursor + 1;
        }
    }

    /// The text.
    pub fn text(&self) -> (out: String)
        ensures
            out@ == self.chars@,
    {
        let out = text_of(&self.chars, 0, self.chars.len());
        assert(out@ =~= self.chars@);
        out
    }

    /// Takes the text and leaves the line empty.
    pub fn take(&mut self) -> (out: String)
        ensures
            out@ == old(self).chars@,
            final(self).wf(),
            final(self).chars@ == Seq::<char>::empty(),
            final(self).cursor == 0,
    {
        let out = self.text();
        self.chars.clear();
        self.cursor = 0;
        out
    }
}

/// Typing a character and deleting it again leaves the line as it was.
pub proof fn backspace_undoes_insert(chars: Seq<char>, cursor: int, ch: char)
    requires
        0 <= cursor <= chars.len(),
    ensures
        chars.insert(cursor, ch).remove(cursor + 1 - 1) == chars,
{
    assert(chars.insert(cursor, ch).remove(cursor) =~= chars);
}

// ── Application state ──────────────────────────────────────────────────────

/// The state of the terminal interface.
pub struct App {
    pub local_node_id: NodeId,
    /// Known peers.
    pub peers: Vec<PeerEntry>,
    /// The highlighted peer.
    pub selected_peer: Option<usize>,
    /// Messages of the open conversation.
    pub messages: Vec<ChatLine>,
    /// Lines that the chat is scrolled up from its end.
    pub chat_scroll: u16,
    pub input: InputLine,
    pub focus: Focus,
    /// The status bar's text.
    pub status: String,
    pub should_quit: bool,
    /// Whether the bootstrap is running.
    pub bootstrap_running: bool,
    pub theme: Theme,
    pub help_open: bool,
    pub sidebar_width: u16,
    /// The conversations that are open.
    pub open_tabs: Vec<NodeId>,
    pub active_tab_index: usize,
}

/// The first place at which a peer stands in the sidebar.
pub open spec fn peer_position(peers: Seq<PeerEntryView>, id: Seq<u8>) -> Option<int>
    decreases peers.len(),
{
    if peers.len() == 0 {
        None
    } else if peers[0].node_id == id {
        Some(0)
    } else {
        match peer_position(peers.drop_first(), id) {
            Some(i) => Some(i + 1),
            None => None,
        }
    }
}

/// The first place at which a message stands in the chat.
pub open spec fn line_position(lines: Seq<ChatLineView>, id: Seq<u8>) -> Option<int>
    decreases lines.len(),
{
    if lines.len() == 0 {
        None
    } else if lines[0].message_id == id {
        Some(0)
    } else {
        match line_position(lines.drop_first(), id) {
            Some(i) => Some(i + 1),
            None => None,
        }
    }
}

/// How many of the peers are connected.
pub open spec fn connected_count(peers: Seq<PeerEntryView>) -> nat
    decreases peers.len(),
{
    if peers.len() == 0 {
        0
    } else {
        connected_count(peers.drop_last()) + if peers.last().connected {
            1nat
        } else {
            0nat
        }
    }
}

/// `i` as an optional place.
pub open spec fn as_place(i: Option<int>) -> Option<usize> {
    match i {
        Some(n) => Some(n as usize),
        None => None,
    }
}

/// A place found in a list lies in it.
pub proof fn peer_position_bound(peers: Seq<PeerEntryView>, id: Seq<u8>)
    ensures
        peer_position(peers, id) matches Some(i) ==> 0 <= i < peers.len() && peers[i].node_id == id,
    decreases peers.len(),
{
    if peers.len() > 0 && peers[0].node_id != id {
        peer_position_bound(peers.drop_first(), id);
    }
}

/// A place found in a list lies in it.
pub proof fn line_position_bound(lines: Seq<ChatLineView>, id: Seq<u8>)
    ensures
        line_position(lines, id) matches Some(i) ==> 0 <= i < lines.len() && lines[i].message_id
            == id,
    decreases lines.len(),
{
    if lines.len() > 0 && lines[0].message_id != id {
        line_position_bound(lines.drop_first(), id);
    }
}

/// A message is found at the first place at which it stands, and not found
/// where it stands nowhere.
pub proof fn lines_are_found_where_they_first_stand(lines: Seq<ChatLineView>, id: Seq<u8>)
    ensures
        match line_position(lines, id) {
            Some(i) => 0 <= i < lines.len() && lines[i].message_id == id && forall|j: int|
                0 <= j < i ==> (#[trigger] lines[j]).message_id != id,
            None => forall|j: int|
                0 <= j < lines.len() ==> (#[trigger] lines[j]).message_id != id,
        },
    decreases lines.len(),
{
    if lines.len() > 0 && lines[0].message_id != id {
        let rest = lines.drop_first();
        lines_are_found_where_they_first_stand(rest, id);
        let end = match line_position(lines, id) {
            Some(i) => i,
            None => lines.len() as int,
        };
        assert forall|j: int| 0 <= j < end implies (#[trigger] lines[j]).message_id != id by {
            if j > 0 {
                assert(rest[j - 1] == lines[j]);
            }
        }
    }
}

/// A peer is found at the first place at which it stands, and not found
/// where it stands nowhere.
pub proof fn peers_are_found_where_they_first_stand(peers: Seq<PeerEntryView>, id: Seq<u8>)
    ensures
        match peer_position(peers, id) {
            Some(i) => 0 <= i < peers.len() && peers[i].node_id == id && forall|j: int|
                0 <= j < i ==> (#[trigger] peers[j]).node_id != id,
            None => forall|j: int| 0 <= j < peers.len() ==> (#[trigger] peers[j]).node_id != id,
        },
    decreases peers.len(),
{
    if peers.len() > 0 && peers[0].node_id != id {
        let rest = peers.drop_first();
        peers_are_found_where_they_first_stand(rest, id);
        let end = match peer_position(peers, id) {
            Some(i) => i,
            None => peers.len() as int,
        };
        assert forall|j: int| 0 <= j < end implies (#[trigger] peers[j]).node_id != id by {
            if j > 0 {
                assert(rest[j - 1] == peers[j]);
            }
        }
    }
}

/// One more peer counts exactly where it is connected; no more are
/// connected than known, and all are exactly where each is.
pub proof fn connected_peers_are_counted(peers: Seq<PeerEntryView>, peer: PeerEntryView)
    ensures
        connected_count(Seq::empty()) == 0,
        connected_count(peers.push(peer)) == connected_count(peers) + if peer.connected {
            1int
        } else {
            0
        },
        connected_count(peers) <= peers.len(),
        connected_count(peers) == peers.len() <==> forall|i: int|
            0 <= i < peers.len() ==> (#[trigger] peers[i]).connected,
    decreases peers.len(),
{
    assert(peers.push(peer).drop_last() =~= peers);
    if peers.len() > 0 {
        let init = peers.drop_last();
        connected_peers_are_counted(init, peers.last());
        assert(init.push(peers.last()) =~= peers);
        if forall|i: int| 0 <= i < peers.len() ==> (#[trigger] peers[i]).connected {
            assert forall|i: int| 0 <= i < init.len() implies (#[trigger] init[i]).connected by {
                assert(peers[i].connected);
            }
            assert(peers[peers.len() - 1].connected);
        }
        if connected_count(peers) == peers.len() {
            assert forall|i: int| 0 <= i < peers.len() implies (#[trigger] peers[i]).connected by {
                if i < init.len() {
                    assert(init[i].connected);
                }
            }
        }
    }
}

/// The status while the node starts.
pub open spec fn starting_text(id: Seq<u8>) -> Seq<char> {
    "NodeID: "@ + hex_short_text(id) + "… | Starting up… (unencrypted)"@
}

/// The status once the node listens on `addr`.
pub open spec fn listening_text(id: Seq<u8>, addr: Seq<char>) -> Seq<char> {
    "NodeID: "@ + hex_short_text(id) + "… | Listening on "@ + addr
}

/// The status with the peers.
pub open spec fn status_text(id: Seq<u8>, known: nat, connected: nat) -> Seq<char> {
    "NodeID: "@ + hex_short_text(id) + "… | peers: "@ + decimal_text(known) + " known, "@
        + decimal_text(connected) + " connected | (unencrypted)"@
}

/// The peer above is selected, the last one behind the first.
pub open spec fn selected_prev(before: App, after: App) -> bool {
    after == (App {
        selected_peer: if before.peers@.len() == 0 {
            before.selected_peer
        } else {
            match before.selected_peer {
                None | Some(0) => Some((before.peers@.len() - 1) as usize),
                Some(i) => Some((i - 1) as usize),
            }
        },
        ..before
    })
}

/// The peer below is selected, the first one behind the last.
pub open spec fn selected_next(before: App, after: App) -> bool {
    after == (App {
        selected_peer: if before.peers@.len() == 0 {
            before.selected_peer
        } else {
            match before.selected_peer {
                None => Some(0),
                Some(i) => if i + 1 == before.peers@.len() {
                    Some(0)
                } else {
                    Some((i + 1) as usize)
                },
            }
        },
        ..before
    })
}

/// The conversation with `peer_id` is open and active, and the peer
/// selected if it is listed.
pub open spec fn tab_opened(before: App, after: App, peer_id: NodeId) -> bool {
    &&& after == (App {
        open_tabs: after.open_tabs,
        active_tab_index: after.active_tab_index,
        selected_peer: match peer_position(peer_views(before.peers@), peer_id@) {
            Some(i) => Some(i as usize),
            None => before.selected_peer,
        },
        ..before
    })
    &&& after.active_tab_index < after.open_tabs@.len()
    &&& after.open_tabs@[after.active_tab_index as int]@ == peer_id@
    &&& if exists|i: int|
        0 <= i < before.open_tabs@.len() && (#[trigger] before.open_tabs@[i])@
            == peer_id@ {
        after.open_tabs@ == before.open_tabs@
    } else {
        after.open_tabs@ == before.open_tabs@.push(peer_id)
    }
}

/// The active tab is closed, and another one active.
pub open spec fn tab_closed(before: App, after: App) -> bool {
    if before.open_tabs@.len() == 0 {
        after == before
    } else {
        &&& after.open_tabs@ == before.open_tabs@.remove(
            before.active_tab_index as int,
        )
        &&& after.active_tab_index == if before.active_tab_index + 1
            < before.open_tabs@.len() || before.active_tab_index == 0 {
            before.active_tab_index as int
        } else {
            before.active_tab_index - 1
        }
        &&& after.selected_peer == after.tab_selection()
        &&& after == (App {
            open_tabs: after.open_tabs,
            active_tab_index: after.active_tab_index,
            selected_peer: after.selected_peer,
            ..before
        })
    }
}

/// The next tab is active, the first one behind the last.
pub open spec fn tab_next(before: App, after: App) -> bool {
    if before.open_tabs@.len() == 0 {
        after == before
    } else {
        after == (App {
            active_tab_index: if before.active_tab_index + 1
                == before.open_tabs@.len() {
                0
            } else {
                (before.active_tab_index + 1) as usize
            },
            selected_peer: after.tab_selection(),
            ..before
        })
    }
}

/// The previous tab is active, the last one behind the first.
pub open spec fn tab_prev(before: App, after: App) -> bool {
    if before.open_tabs@.len() == 0 {
        after == before
    } else {
        after == (App {
            active_tab_index: if before.active_tab_index == 0 {
                (before.open_tabs@.len() - 1) as usize
            } else {
                (before.active_tab_index - 1) as usize
            },
            selected_peer: after.tab_selection(),
            ..before
        })
    }
}

/// The sidebar is two columns narrower, down to its narrowest.
pub open spec fn narrowed(before: App, after: App) -> bool {
    after == (App {
        sidebar_width: if before.sidebar_width < SIDEBAR_MIN + 2 {
            SIDEBAR_MIN
        } else {
            (before.sidebar_width - 2) as u16
        },
        ..before
    })
}

/// The sidebar is two columns wider, up to its widest.
pub open spec fn widened(before: App, after: App) -> bool {
    after == (App {
        sidebar_width: if before.sidebar_width > SIDEBAR_MAX - 2 {
            SIDEBAR_MAX
        } else {
            (before.sidebar_width + 2) as u16
        },
        ..before
    })
}

/// A character was inserted at the cursor.
pub open spec fn char_inserted(before: App, after: App, ch: char) -> bool {
    &&& after.input.chars@ == before.input.chars@.insert(before.input.cursor as int, ch)
    &&& after.input.cursor == before.input.cursor + 1
    &&& after == (App { input: after.input, ..before })
}

/// The character left of the cursor was deleted, if there was one.
pub open spec fn char_deleted(before: App, after: App) -> bool {
    if before.input.cursor == 0 {
        after == before
    } else {
        &&& after.input.chars@ == before.input.chars@.remove(before.input.cursor - 1)
        &&& after.input.cursor == before.input.cursor - 1
        &&& after == (App { input: after.input, ..before })
    }
}

/// The cursor moved one character left, if there was one.
pub open spec fn cursor_moved_left(before: App, after: App) -> bool {
    after == (App {
        input: InputLine {
            cursor: if before.input.cursor == 0 {
                0
            } else {
                (before.input.cursor - 1) as usize
            },
            ..before.input
        },
        ..before
    })
}

/// The cursor moved one character right, if there was one.
pub open spec fn cursor_moved_right(before: App, after: App) -> bool {
    after == (App {
        input: InputLine {
            cursor: if before.input.cursor < before.input.chars@.len() {
                (before.input.cursor + 1) as usize
            } else {
                before.input.cursor
            },
            ..before.input
        },
        ..before
    })
}

impl App {
    /// The cursor, the selection and the active tab point at what is there;
    /// no conversation is open twice; the sidebar keeps within its bounds.
    pub open spec fn wf(self) -> bool {
        &&& self.input.wf()
        &&& self.selected_peer matches Some(i) ==> i < self.peers@.len()
        &&& self.active_tab_index < self.open_tabs@.len() || (self.open_tabs@.len() == 0
            && self.active_tab_index == 0)
        &&& forall|i: int, j: int|
            0 <= i < j < self.open_tabs@.len() ==> (#[trigger] self.open_tabs@[i])@ != (
            #[trigger] self.open_tabs@[j])@
        &&& SIDEBAR_MIN <= self.sidebar_width <= SIDEBAR_MAX
    }

    /// The selection that goes with the active tab.
    pub open spec fn tab_selection(self) -> Option<usize> {
        if self.active_tab_index < self.open_tabs@.len() {
            as_place(
                peer_position(
                    peer_views(self.peers@),
                    self.open_tabs@[self.active_tab_index as int]@,
                ),
            )
        } else {
            None
        }
    }

    /// An interface without peers, messages or tabs.
    pub fn new(local_node_id: NodeId, theme: Theme) -> (out: Self)
        ensures
            out.wf(),
            out.local_node_id == local_node_id,
            out.theme == theme,
            out.peers@.len() == 0,
            out.selected_peer is None,
            out.messages@.len() == 0,
            out.chat_scroll == 0,
            out.input.chars@.len() == 0,
            out.focus == Focus::Input,
            out.status@ == starting_text(local_node_id@),
            !out.should_quit,
            !out.bootstrap_running,
            !out.help_open,
            out.sidebar_width == 26,
            out.open_tabs@.len() == 0,
    {
        let mut status = String::from_str("NodeID: ");
        status.append(hex_short(&local_node_id).as_str());
        status.append("… | Starting up… (unencrypted)");
        App {
            local_node_id,
            peers: Vec::new(),
            selected_peer: None,
            messages: Vec::new(),
            chat_scroll: 0,
            input: InputLine::new(),
            focus: Focus::Input,
            status,
            should_quit: false,
            bootstrap_running: false,
            theme,
            help_open: false,
            sidebar_width: 26,
            open_tabs: Vec::new(),
            active_tab_index: 0,
        }
    }

    // ── Input ──────────────────────────────────────────────────────────────

    /// Inserts a character at the cursor.
    pub fn insert_char(&mut self, ch: char)
        requires
            old(self).wf(),
            old(self).input.chars@.len() < usize::MAX,
        ensures
            final(self).wf(),
            char_inserted(*old(self), *final(self), ch),
    {
        self.input.insert_char(ch);
    }

    /// Deletes the character left of the cursor.
    pub fn backspace(&mut self)
        requires
            old(self).wf(),
        ensures
            final(self).wf(),
            char_deleted(*old(self), *final(self)),
    {
        self.input.backspace();
    }

    /// Moves the cursor one character left.
    pub fn cursor_left(&mut self)
        requires
            old(self).wf(),
        ensures
            final(self).wf(),
            cursor_moved_left(*old(self), *final(self)),
    {
        self.input.cursor_left();
    }

    /// Moves the cursor one character right.
    pub fn cursor_right(&mut self)
        requires
            old(self).wf(),
        ensures
            final(self).wf(),
            cursor_moved_right(*old(self), *final(self)),
    {
        self.input.cursor_right();
    }

    /// Takes the composed text and leaves the input empty.
    pub fn take_input(&mut self) -> (out: String)
        requires
            old(self).wf(),
        ensures
            final(self).wf(),
            out@ == old(self).input.chars@,
            final(self).input.chars@ == Seq::<char>::empty(),
            final(self).input.cursor == 0,
            *final(self) == (App { input: final(self).input, ..*old(self) }),
    {
        self.input.take()
    }

    // ── Peer selection ─────────────────────────────────────────────────────

    /// Selects the peer above, the last one behind the first.
    pub fn select_prev_peer(&mut self)
        requires
            old(self).wf(),
        ensures
            final(self).wf(),
            selected_prev(*old(self), *final(self)),
    {
        if self.peers.len() == 0 {
            return;
        }
        self.selected_peer = Some(
            match self.selected_peer {
                None | Some(0) => self.peers.len() - 1,
                Some(i) => i - 1,
            },
        );
    }

    /// Selects the peer below, the first one behind the last.
    pub fn select_next_peer(&mut self)
        requires
            old(self).wf(),
        ensures
            final(self).wf(),
            selected_next(*old(self), *final(self)),
    {
        if self.peers.len() == 0 {
            return;
        }
        self.selected_peer = Some(
            match self.selected_peer {
                None => 0,
                Some(i) => if i + 1 == self.peers.len() {
                    0
                } else {
                    i + 1
                },
            },
        );
    }

    /// The selected peer.
    pub fn selected_peer_entry(&self) -> (out: Option<&PeerEntry>)
        requires
            self.wf(),
        ensures
            match self.selected_peer {
                Some(i) => out matches Some(p) && *p == self.peers@[i as int],
                None => out is None,
            },
    {
        match self.selected_peer {
            Some(i) => Some(&self.peers[i]),
            None => None,
        }
    }

    // ── Status ─────────────────────────────────────────────────────────────

    /// Shows a text in the status bar.
    pub fn set_status(&mut self, msg: &str)
        ensures
            final(self).status@ == msg@,
            *final(self) == (App { status: final(self).status, ..*old(self) }),
    {
        self.status = String::from_str(msg);
    }

    /// Shows that the node listens on `addr`.
    pub fn show_listening(&mut self, addr: &str)
        ensures
            final(self).status@ == listening_text(old(self).local_node_id@, addr@),
            *final(self) == (App { status: final(self).status, ..*old(self) }),
    {
        let mut status = String::from_str("NodeID: ");
        status.append(hex_short(&self.local_node_id).as_str());
        status.append("… | Listening on ");
        status.append(addr);
        self.status = status;
    }

    /// Shows how many peers are known and connected.
    pub fn refresh_status(&mut self)
        ensures
            final(self).status@ == status_text(
                old(self).local_node_id@,
                old(self).peers@.len(),
                connected_count(peer_views(old(self).peers@)),
            ),
            *final(self) == (App { status: final(self).status, ..*old(self) }),
    {
        let mut active: usize = 0;
        let mut i: usize = 0;
        let ghost all = peer_views(self.peers@);
        assert(all.subrange(0, 0) =~= Seq::empty());
        while i < self.peers.len()
            invariant
                i <= self.peers@.len(),
                active <= i,
                all == peer_views(self.peers@),
                active == connected_count(all.subrange(0, i as int)),
                *self == *old(self),
            decreases self.peers@.len() - i,
        {
            proof {
                let next = all.subrange(0, i + 1);
                assert(next.drop_last() =~= all.subrange(0, i as int));
                assert(next.last() == self.peers@[i as int]@);
            }
            if self.peers[i].connected {
                active = active + 1;
            }
            i = i + 1;
        }
        assert(all.subrange(0, i as int) =~= all);
        let mut status = String::from_str("NodeID: ");
        status.append(hex_short(&self.local_node_id).as_str());
        status.append("… | peers: ");
        status.append(decimal(self.peers.len() as u64).as_str());
        status.append(" known, ");
        status.append(decimal(active as u64).as_str());
        status.append(" connected | (unencrypted)");
        self.status = status;
    }

    // ── Tabs ───────────────────────────────────────────────────────────────

    /// The first place at which `id` stands in the sidebar.
    fn find_peer(&self, id: &NodeId) -> (out: Option<usize>)
        ensures
            out == as_place(peer_position(peer_views(self.peers@), id@)),
            out matches Some(i) ==> i < self.peers@.len(),
    {
        let ghost all = peer_views(self.peers@);
        let mut i: usize = 0;
        assert(all.skip(0) =~= all);
        while i < self.peers.len()
            invariant
                i <= self.peers@.len(),
                all == peer_views(self.peers@),
                peer_position(all, id@) == match peer_position(all.skip(i as int), id@) {
                    Some(n) => Some(n + i),
                    None => None,
                },
            decreases self.peers@.len() - i,
        {
            let ghost rest = all.skip(i as int);
            assert(rest[0] == self.peers@[i as int]@);
            assert(rest.drop_first() =~= all.skip(i + 1));
            if same_id(&self.peers[i].node_id, id) {
                return Some(i);
            }
            i = i + 1;
        }
        None
    }

    /// Opens the conversation with `peer_id`, or goes to it where it is
    /// open, and selects the peer if it is listed.
    pub fn open_tab(&mut self, peer_id: NodeId)
        requires
            old(self).wf(),
        ensures
            final(self).wf(),
            tab_opened(*old(self), *final(self), peer_id),
    {
        let mut i: usize = 0;
        while i < self.open_tabs.len() && !same_id(&self.open_tabs[i], &peer_id)
            invariant
                *self == *old(self),
                i <= self.open_tabs@.len(),
                forall|j: int| 0 <= j < i ==> (#[trigger] self.open_tabs@[j])@ != peer_id@,
            decreases self.open_tabs@.len() - i,
        {
            i = i + 1;
        }
        let found = i < self.open_tabs.len();
        if !found {
            self.open_tabs.push(peer_id);
        }
        assert(found ==> old(self).open_tabs@[i as int]@ == peer_id@);
        self.active_tab_index = i;
        match self.find_peer(&peer_id) {
            Some(at) => {
                self.selected_peer = Some(at);
            },
            None => {},
        }
        proof {
            peer_position_bound(peer_views(self.peers@), peer_id@);
        }
    }

    /// Selects the peer of the active tab.
    fn sync_selected_peer_with_tab(&mut self)
        ensures
            *final(self) == (App { selected_peer: old(self).tab_selection(), ..*old(self) }),
            final(self).selected_peer matches Some(i) ==> i < final(self).peers@.len(),
    {
        if self.active_tab_index < self.open_tabs.len() {
            let id = self.open_tabs[self.active_tab_index];
            self.selected_peer = self.find_peer(&id);
        } else {
            self.selected_peer = None;
        }
    }

    /// Closes the active tab. The one behind it becomes active, the last
    /// one where there is none behind it.
    pub fn close_tab(&mut self)
        requires
            old(self).wf(),
        ensures
            final(self).wf(),
            tab_closed(*old(self), *final(self)),
    {
        if self.open_tabs.len() == 0 {
            return;
        }
        self.open_tabs.remove(self.active_tab_index);
        proof {
            let a = old(self).active_tab_index as int;
            assert forall|i: int, j: int| 0 <= i < j < self.open_tabs@.len() implies (
            #[trigger] self.open_tabs@[i])@ != (#[trigger] self.open_tabs@[j])@ by {
                let oi = if i < a { i } else { i + 1 };
                let oj = if j < a { j } else { j + 1 };
                assert(self.open_tabs@[i] == old(self).open_tabs@[oi]);
                assert(self.open_tabs@[j] == old(self).open_tabs@[oj]);
            }
        }
        if self.active_tab_index >= self.open_tabs.len() {
            self.active_tab_index = if self.open_tabs.len() == 0 {
                0
            } else {
                self.open_tabs.len() - 1
            };
        }
        self.sync_selected_peer_with_tab();
    }

    /// Goes to the next tab, the first one behind the last.
    pub fn next_tab(&mut self)
        requires
            old(self).wf(),
        ensures
            final(self).wf(),
            tab_next(*old(self), *final(self)),
    {
        if self.open_tabs.len() == 0 {
            return;
        }
        self.active_tab_index = if self.active_tab_index + 1 == self.open_tabs.len() {
            0
        } else {
            self.active_tab_index + 1
        };
        self.sync_selected_peer_with_tab();
    }

    /// Goes to the previous tab, the last one behind the first.
    pub fn prev_tab(&mut self)
        requires
            old(self).wf(),
        ensures
            final(self).wf(),
            tab_prev(*old(self), *final(self)),
    {
        if self.open_tabs.len() == 0 {
            return;
        }
        self.active_tab_index = if self.active_tab_index == 0 {
            self.open_tabs.len() - 1
        } else {
            self.active_tab_index - 1
        };
        self.sync_selected_peer_with_tab();
    }

    // ── Sidebar ────────────────────────────────────────────────────────────

    /// Makes the sidebar two columns narrower, down to its narrowest.
    pub fn narrow_sidebar(&mut self)
        requires
            old(self).wf(),
        ensures
            final(self).wf(),
            narrowed(*old(self), *final(self)),
    {
        self.sidebar_width = if self.sidebar_width < SIDEBAR_MIN + 2 {
            SIDEBAR_MIN
        } else {
            self.sidebar_width - 2
        };
    }

    /// Makes the sidebar two columns wider, up to its widest.
    pub fn widen_sidebar(&mut self)
        requires
            old(self).wf(),
        ensures
            final(self).wf(),
            widened(*old(self), *final(self)),
    {
        self.sidebar_width = if self.sidebar_width > SIDEBAR_MAX - 2 {
            SIDEBAR_MAX
        } else {
            self.sidebar_width + 2
        };
    }

    // ── Chat ───────────────────────────────────────────────────────────────

    /// The first place at which message `id` stands in the chat.
    pub fn find_line(&self, id: &[u8; 32]) -> (out: Option<usize>)
        ensures
            match out {
                Some(i) => line_position(line_views(self.messages@), id@) == Some(i as int) && i
                    < self.messages@.len(),
                None => line_position(line_views(self.messages@), id@) is None,
            },
    {
        let ghost all = line_views(self.messages@);
        let mut i: usize = 0;
        assert(all.skip(0) =~= all);
        while i < self.messages.len()
            invariant
                i <= self.messages@.len(),
                all == line_views(self.messages@),
                line_position(all, id@) == match line_position(all.skip(i as int), id@) {
                    Some(n) => Some(n + i),
                    None => None,
                },
            decreases self.messages@.len() - i,
        {
            let ghost rest = all.skip(i as int);
            assert(rest[0] == self.messages@[i as int]@);
            assert(rest.drop_first() =~= all.skip(i + 1));
            if same_id(&self.messages[i].message_id, id) {
                return Some(i);
            }
            i = i + 1;
        }
        None
    }

    /// Sets the status of the message at place `i` of the chat.
    pub fn set_line_status(&mut self, i: usize, status: ChatStatus)
        requires
            i < old(self).messages@.len(),
        ensures
            line_views(final(self).messages@) == line_views(old(self).messages@).update(
                i as int,
                ChatLineView { status, ..line_views(old(self).messages@)[i as int] },
            ),
            *final(self) == (App { messages: final(self).messages, ..*old(self) }),
    {
        let ghost before = line_views(self.messages@);
        self.messages[i].status = status;
        assert(line_views(self.messages@) =~= before.update(
            i as int,
            ChatLineView { status, ..before[i as int] },
        ));
    }

    /// Adds a message at the end of the chat.
    pub fn push_line(&mut self, line: ChatLine)
        ensures
            line_views(final(self).messages@) == line_views(old(self).messages@).push(line@),
            *final(self) == (App { messages: final(self).messages, ..*old(self) }),
    {
        let ghost before = line_views(self.messages@);
        let ghost added = line@;
        self.messages.push(line);
        assert(line_views(self.messages@) =~= before.push(added));
    }
}

} // verus!
