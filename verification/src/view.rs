//! What the terminal interface shows: texts and their styles, line by line.
//! Drawing them, and the colors of moving parts, is left to the terminal.
use vstd::prelude::*;
use vstd::string::*;

use crate::app_state::{
    line_views, App, ChatLine, ChatLineView, ChatStatus, Focus, PeerEntry, PeerEntryView,
};
use crate::envelope::NodeId;
use crate::text::{
    digit_value, hex_digit, hex_of, hex_short, hex_short_text, hex_text, text_of,
};
use crate::theme::{Style, Theme};

verus! {

/// A piece of text in one style.
#[derive(Debug)]
pub struct Span {
    pub text: String,
    pub style: Style,
}

/// What a `Span` holds, as mathematical values.
#[verifier::ext_equal]
pub struct SpanView {
    pub text: Seq<char>,
    pub style: Style,
}

impl View for Span {
    type V = SpanView;

    open spec fn view(&self) -> SpanView {
        SpanView { text: self.text@, style: self.style }
    }
}

/// What the pieces of a line hold.
pub open spec fn span_views(line: Seq<Span>) -> Seq<SpanView> {
    line.map_values(|s: Span| s@)
}

/// What lines hold.
pub open spec fn rows(lines: Seq<Vec<Span>>) -> Seq<Seq<SpanView>> {
    lines.map_values(|l: Vec<Span>| span_views(l@))
}

/// A piece of text.
pub open spec fn span(text: Seq<char>, style: Style) -> SpanView {
    SpanView { text, style }
}

/// The style that changes nothing.
pub open spec fn plain() -> Style {
    Style { fg: None, bg: None, bold: false }
}

/// Adds a piece to a line.
fn add_span(line: &mut Vec<Span>, text: String, style: Style)
    ensures
        span_views(final(line)@) == span_views(old(line)@).push(span(text@, style)),
{
    let ghost before = span_views(line@);
    let ghost added = span(text@, style);
    line.push(Span { text, style });
    assert(span_views(line@) =~= before.push(added));
}

/// Adds a line.
fn add_row(lines: &mut Vec<Vec<Span>>, line: Vec<Span>)
    ensures
        rows(final(lines)@) == rows(old(lines)@).push(span_views(line@)),
{
    let ghost before = rows(lines@);
    let ghost added = span_views(line@);
    lines.push(line);
    assert(rows(lines@) =~= before.push(added));
}

/// A line of one piece.
fn single(text: &str, style: Style) -> (out: Vec<Span>)
    ensures
        span_views(out@) == seq![span(text@, style)],
{
    let mut out: Vec<Span> = Vec::new();
    add_span(&mut out, String::from_str(text), style);
    assert(span_views(out@) =~= seq![span(text@, style)]);
    out
}

/// The style that changes nothing.
fn plain_style() -> (out: Style)
    ensures
        out == plain(),
{
    Style { fg: None, bg: None, bold: false }
}

// ── Small texts ────────────────────────────────────────────────────────────

/// The frame of the spinner, which turns every 80 milliseconds. Without
/// motion it is an ellipsis.
pub open spec fn spinner_text(elapsed_ms: u64, reduced_motion: bool) -> Seq<char> {
    let frame = (elapsed_ms / 80) % 10;
    if reduced_motion {
        "…"@
    } else if frame == 0 {
        "⠋"@
    } else if frame == 1 {
        "⠙"@
    } else if frame == 2 {
        "⠹"@
    } else if frame == 3 {
        "⠸"@
    } else if frame == 4 {
        "⠼"@
    } else if frame == 5 {
        "⠴"@
    } else if frame == 6 {
        "⠦"@
    } else if frame == 7 {
        "⠧"@
    } else if frame == 8 {
        "⠇"@
    } else {
        "⠏"@
    }
}

/// The frame of the spinner, `elapsed_ms` milliseconds after the start.
pub fn spinner_frame(elapsed_ms: u64, reduced_motion: bool) -> (out: &'static str)
    ensures
        out@ == spinner_text(elapsed_ms, reduced_motion),
{
    if reduced_motion {
        return "…";
    }
    match (elapsed_ms / 80) % 10 {
        0 => "⠋",
        1 => "⠙",
        2 => "⠹",
        3 => "⠸",
        4 => "⠼",
        5 => "⠴",
        6 => "⠦",
        7 => "⠧",
        8 => "⠇",
        _ => "⠏",
    }
}

/// A number below one hundred, as two digits.
pub open spec fn two_digits(n: int) -> Seq<char> {
    seq![hex_digit(n / 10), hex_digit(n % 10)]
}

/// The time of day, hours and minutes, of a Unix time.
pub open spec fn time_text(unix_secs: u64) -> Seq<char> {
    let s = unix_secs % 86400;
    two_digits(s as int / 3600) + ":"@ + two_digits((s as int % 3600) / 60)
}

/// Adds a number below one hundred, as two digits.
fn push_two_digits(out: &mut String, n: u8)
    requires
        n < 100,
    ensures
        final(out)@ == old(out)@ + two_digits(n as int),
{
    out.push((n / 10 + 48) as char);
    out.push((n % 10 + 48) as char);
    assert(out@ =~= old(out)@ + two_digits(n as int));
}

/// The time of day, hours and minutes, of a Unix time.
pub fn format_time(unix_secs: u64) -> (out: String)
    ensures
        out@ == time_text(unix_secs),
{
    let s: u64 = unix_secs % 86400;
    let mut out = String::new();
    push_two_digits(&mut out, (s / 3600) as u8);
    out.append(":");
    push_two_digits(&mut out, ((s % 3600) / 60) as u8);
    assert(out@ =~= time_text(unix_secs));
    out
}

/// An identifier as the interface shows it.
pub open spec fn id_text(id: Seq<u8>) -> Seq<char> {
    hex_short_text(id) + "…"@
}

/// An identifier as the interface shows it.
fn id_label(id: &NodeId) -> (out: String)
    ensures
        out@ == id_text(id@),
{
    let mut out = hex_short(id);
    out.append("…");
    out
}

// ── Sidebar ────────────────────────────────────────────────────────────────

/// One line of the sidebar.
pub struct PeerRow {
    pub spans: Vec<Span>,
    pub style: Style,
}

/// What a `PeerRow` holds, as mathematical values.
#[verifier::ext_equal]
pub struct PeerRowView {
    pub spans: Seq<SpanView>,
    pub style: Style,
}

impl View for PeerRow {
    type V = PeerRowView;

    open spec fn view(&self) -> PeerRowView {
        PeerRowView { spans: span_views(self.spans@), style: self.style }
    }
}

/// The sidebar's line for a peer: a dot that tells its state, and its
/// identifier.
pub open spec fn peer_row(
    peer: PeerEntryView,
    selected: bool,
    theme: Theme,
    elapsed_ms: u64,
    reduced_motion: bool,
) -> PeerRowView {
    PeerRowView {
        spans: seq![
            span(
                if peer.connected {
                    "● "@
                } else if peer.dialing {
                    spinner_text(elapsed_ms, reduced_motion) + " "@
                } else {
                    "○ "@
                },
                if peer.connected {
                    theme.peer_active_look()
                } else {
                    theme.peer_known_look()
                },
            ),
            span(
                id_text(peer.node_id),
                if selected {
                    theme.highlight_look()
                } else {
                    theme.body_look()
                },
            ),
        ],
        style: if selected {
            Style { bg: theme.input_look().bg, ..theme.body_look() }
        } else {
            theme.body_look()
        },
    }
}

/// The sidebar's line for a peer.
fn peer_line(
    peer: &PeerEntry,
    selected: bool,
    theme: &Theme,
    elapsed_ms: u64,
    reduced_motion: bool,
) -> (out: PeerRow)
    ensures
        out@ == peer_row(peer@, selected, *theme, elapsed_ms, reduced_motion),
{
    let dot = if peer.connected {
        String::from_str("● ")
    } else if peer.dialing {
        let mut dot = String::from_str(spinner_frame(elapsed_ms, reduced_motion));
        dot.append(" ");
        dot
    } else {
        String::from_str("○ ")
    };
    let dot_style = if peer.connected {
        theme.peer_active_style()
    } else {
        theme.peer_known_style()
    };
    let name_style = if selected {
        theme.highlight_style()
    } else {
        theme.body_style()
    };
    let mut spans: Vec<Span> = Vec::new();
    add_span(&mut spans, dot, dot_style);
    add_span(&mut spans, id_label(&peer.node_id), name_style);
    let mut style = theme.body_style();
    if selected {
        style.bg = Some(theme.get_surface2());
    }
    let out = PeerRow { spans, style };
    assert(out@ =~= peer_row(peer@, selected, *theme, elapsed_ms, reduced_motion));
    out
}

/// The sidebar's lines, one per known peer.
pub fn render_peer_list(app: &App, elapsed_ms: u64, reduced_motion: bool) -> (out: Vec<PeerRow>)
    ensures
        out@.len() == app.peers@.len(),
        forall|i: int|
            0 <= i < out@.len() ==> (#[trigger] out@[i])@ == peer_row(
                app.peers@[i]@,
                app.selected_peer == Some(i as usize),
                app.theme,
                elapsed_ms,
                reduced_motion,
            ),
{
    let mut out: Vec<PeerRow> = Vec::new();
    let mut i: usize = 0;
    while i < app.peers.len()
        invariant
            i <= app.peers@.len(),
            out@.len() == i,
            forall|j: int|
                0 <= j < i ==> (#[trigger] out@[j])@ == peer_row(
                    app.peers@[j]@,
                    app.selected_peer == Some(j as usize),
                    app.theme,
                    elapsed_ms,
                    reduced_motion,
                ),
        decreases app.peers@.len() - i,
    {
        let selected = match app.selected_peer {
            Some(s) => s == i,
            None => false,
        };
        out.push(peer_line(&app.peers[i], selected, &app.theme, elapsed_ms, reduced_motion));
        i = i + 1;
    }
    out
}

/// What the sidebar shows while no peer is known.
pub open spec fn placeholder_rows(theme: Theme) -> Seq<Seq<SpanView>> {
    seq![seq![span(""@, plain())], seq![span("  Discovering…"@, theme.dim_look())]]
}

/// What the sidebar shows in place of its lines: something exactly while no
/// peer is known.
pub fn peer_placeholder(app: &App) -> (out: Option<Vec<Vec<Span>>>)
    ensures
        match out {
            Some(lines) => app.peers@.len() == 0 && rows(lines@) == placeholder_rows(app.theme),
            None => app.peers@.len() > 0,
        },
{
    if app.peers.len() > 0 {
        return None;
    }
    let mut out: Vec<Vec<Span>> = Vec::new();
    add_row(&mut out, single("", plain_style()));
    add_row(&mut out, single("  Discovering…", app.theme.dim_style()));
    assert(rows(out@) =~= placeholder_rows(app.theme));
    Some(out)
}

// ── Tabs ───────────────────────────────────────────────────────────────────

/// The title of a tab.
pub open spec fn tab_title(id: Seq<u8>) -> Seq<char> {
    " "@ + hex_short_text(id) + "… "@
}

/// The titles of the open tabs.
pub fn render_tabs(app: &App) -> (out: Vec<String>)
    ensures
        out@.len() == app.open_tabs@.len(),
        forall|i: int| 0 <= i < out@.len() ==> (#[trigger] out@[i])@ == tab_title(app.open_tabs@[i]@),
{
    let mut out: Vec<String> = Vec::new();
    let mut i: usize = 0;
    while i < app.open_tabs.len()
        invariant
            i <= app.open_tabs@.len(),
            out@.len() == i,
            forall|j: int|
                0 <= j < i ==> (#[trigger] out@[j])@ == tab_title(app.open_tabs@[j]@),
        decreases app.open_tabs@.len() - i,
    {
        let mut title = String::from_str(" ");
        title.append(hex_short(&app.open_tabs[i]).as_str());
        title.append("… ");
        out.push(title);
        i = i + 1;
    }
    out
}

// ── Chat ───────────────────────────────────────────────────────────────────

/// The title of the chat pane: the first six bytes of the peer's
/// identifier.
pub open spec fn chat_title_text(app: App) -> Seq<char> {
    if app.active_tab_index < app.open_tabs@.len() {
        " ◈ "@ + hex_text(app.open_tabs@[app.active_tab_index as int]@.subrange(0, 6)) + " "@
    } else {
        " ◈ Select a peer to chat "@
    }
}

/// The title of the chat pane.
pub fn chat_title(app: &App) -> (out: String)
    ensures
        out@ == chat_title_text(*app),
{
    if app.active_tab_index < app.open_tabs.len() {
        let id = app.open_tabs[app.active_tab_index];
        let head: [u8; 6] = [id[0], id[1], id[2], id[3], id[4], id[5]];
        assert(head@ =~= id@.subrange(0, 6));
        let mut out = String::from_str(" ◈ ");
        out.append(hex_of(head.as_slice()).as_str());
        out.append(" ");
        out
    } else {
        String::from_str(" ◈ Select a peer to chat ")
    }
}

/// The mark of a message's status.
pub open spec fn status_mark(status: ChatStatus) -> Seq<char> {
    match status {
        ChatStatus::Sent => "⟳"@,
        ChatStatus::Delivered => "✓"@,
        ChatStatus::Failed => "✗"@,
    }
}

/// The style of a message's status.
pub open spec fn status_look(status: ChatStatus, theme: Theme) -> Style {
    match status {
        ChatStatus::Sent => theme.status_sent_look(),
        ChatStatus::Delivered => theme.status_delivered_look(),
        ChatStatus::Failed => theme.status_failed_look(),
    }
}

/// The three lines of a message: who and when, what, and a blank. Own
/// messages carry their status.
pub open spec fn message_rows(line: ChatLineView, theme: Theme) -> Seq<Seq<SpanView>> {
    let time = span("  ["@ + time_text(line.sent_at) + "] "@, theme.timestamp_look());
    let body_look = if line.is_mine {
        theme.msg_mine_look()
    } else {
        theme.msg_theirs_look()
    };
    seq![
        if line.is_mine {
            seq![
                time,
                span("You "@, theme.msg_mine_look()),
                span(status_mark(line.status), status_look(line.status, theme)),
            ]
        } else {
            seq![time, span(id_text(line.sender_id), theme.peer_known_look())]
        },
        seq![span("  "@, plain()), span(line.text, body_look)],
        Seq::empty(),
    ]
}

/// The lines of the chat. Without messages it is a hint below a blank.
pub open spec fn chat_rows(app: App) -> Seq<Seq<SpanView>> {
    if app.messages@.len() == 0 {
        seq![
            Seq::empty(),
            seq![
                span(
                    "  "@ + (if app.active_tab_index < app.open_tabs@.len() {
                        "No messages yet. Type below and press Enter."@
                    } else {
                        "← Select a peer to start chatting"@
                    }),
                    app.theme.dim_look(),
                ),
            ],
        ]
    } else {
        history_rows(line_views(app.messages@), app.theme)
    }
}

/// The lines of messages in a row.
pub open spec fn history_rows(lines: Seq<ChatLineView>, theme: Theme) -> Seq<Seq<SpanView>>
    decreases lines.len(),
{
    if lines.len() == 0 {
        Seq::empty()
    } else {
        history_rows(lines.drop_last(), theme) + message_rows(lines.last(), theme)
    }
}

/// Adds the three lines of a message.
fn add_message(lines: &mut Vec<Vec<Span>>, msg: &ChatLine, theme: &Theme)
    ensures
        rows(final(lines)@) == rows(old(lines)@) + message_rows(msg@, *theme),
{
    let ghost before = rows(lines@);
    let mut time = String::from_str("  [");
    time.append(format_time(msg.sent_at).as_str());
    time.append("] ");
    let mut head: Vec<Span> = Vec::new();
    add_span(&mut head, time, theme.timestamp_style());
    let mut body: Vec<Span> = Vec::new();
    add_span(&mut body, String::from_str("  "), plain_style());
    if msg.is_mine {
        add_span(&mut head, String::from_str("You "), theme.msg_mine_style());
        let (mark, style) = match msg.status {
            ChatStatus::Sent => ("⟳", theme.status_sent_style()),
            ChatStatus::Delivered => ("✓", theme.status_delivered_style()),
            ChatStatus::Failed => ("✗", theme.status_failed_style()),
        };
        add_span(&mut head, String::from_str(mark), style);
        add_span(&mut body, msg.text.clone(), theme.msg_mine_style());
    } else {
        add_span(&mut head, id_label(&msg.sender_id), theme.peer_known_style());
        add_span(&mut body, msg.text.clone(), theme.msg_theirs_style());
    }
    let blank: Vec<Span> = Vec::new();
    proof {
        let expected = message_rows(msg@, *theme);
        assert(span_views(head@) =~= expected[0]);
        assert(span_views(body@) =~= expected[1]);
        assert(span_views(blank@) =~= expected[2]);
    }
    add_row(lines, head);
    add_row(lines, body);
    add_row(lines, blank);
    assert(rows(lines@) =~= before + message_rows(msg@, *theme));
}

/// The lines of the chat, the most recent message last.
pub fn render_chat(app: &App) -> (out: Vec<Vec<Span>>)
    ensures
        rows(out@) == chat_rows(*app),
{
    let mut out: Vec<Vec<Span>> = Vec::new();
    if app.messages.len() == 0 {
        let blank: Vec<Span> = Vec::new();
        assert(span_views(blank@) =~= Seq::empty());
        add_row(&mut out, blank);
        let mut hint = String::from_str("  ");
        if app.active_tab_index < app.open_tabs.len() {
            hint.append("No messages yet. Type below and press Enter.");
        } else {
            hint.append("← Select a peer to start chatting");
        }
        add_row(&mut out, single(hint.as_str(), app.theme.dim_style()));
        assert(rows(out@) =~= chat_rows(*app));
        return out;
    }
    let ghost all = line_views(app.messages@);
    let mut i: usize = 0;
    assert(rows(out@) =~= history_rows(all.subrange(0, 0), app.theme));
    while i < app.messages.len()
        invariant
            i <= app.messages@.len(),
            all == line_views(app.messages@),
            rows(out@) == history_rows(all.subrange(0, i as int), app.theme),
        decreases app.messages@.len() - i,
    {
        proof {
            let next = all.subrange(0, i + 1);
            assert(next.drop_last() =~= all.subrange(0, i as int));
            assert(next.last() == app.messages@[i as int]@);
        }
        add_message(&mut out, &app.messages[i], &app.theme);
        i = i + 1;
    }
    assert(all.subrange(0, i as int) =~= all);
    out
}

/// How many lines fit into a pane `height` lines high, borders included.
pub open spec fn visible_rows(height: u16) -> int {
    if height >= 2 {
        height - 2
    } else {
        0
    }
}

/// How many lines of the chat are scrolled out at the top, where `total`
/// lines stand in a pane `height` lines high. The chat cannot be scrolled
/// up further than its first line.
pub fn chat_offset(total: u16, height: u16, chat_scroll: u16) -> (out: u16)
    requires
        total > visible_rows(height) ==> chat_scroll <= total - visible_rows(height),
    ensures
        out == if total > visible_rows(height) {
            total - visible_rows(height) - chat_scroll
        } else {
            0
        },
{
    let visible: u16 = height.saturating_sub(2);
    if total > visible {
        total - visible - chat_scroll
    } else {
        0
    }
}

// ── Input line ─────────────────────────────────────────────────────────────

/// The input line. With focus the character under the cursor stands out, a
/// blank behind the end; without focus the whole line is dim.
pub open spec fn input_row(app: App) -> Seq<SpanView> {
    let prompt = if app.active_tab_index < app.open_tabs@.len() {
        " ▶ "@
    } else {
        " ▷ "@
    };
    let chars = app.input.chars@;
    let cursor = app.input.cursor as int;
    if app.focus == Focus::Input {
        seq![
            span(prompt, app.theme.msg_mine_look()),
            span(chars.subrange(0, cursor), app.theme.input_look()),
            span(
                if cursor < chars.len() {
                    chars.subrange(cursor, cursor + 1)
                } else {
                    " "@
                },
                app.theme.cursor_look(),
            ),
            span(
                if cursor < chars.len() {
                    chars.subrange(cursor + 1, chars.len() as int)
                } else {
                    ""@
                },
                app.theme.input_look(),
            ),
        ]
    } else {
        seq![span(prompt, app.theme.dim_look()), span(chars, app.theme.dim_look())]
    }
}

/// The input line.
pub fn render_input(app: &App) -> (out: Vec<Span>)
    requires
        app.input.wf(),
    ensures
        span_views(out@) == input_row(*app),
{
    let prompt = if app.active_tab_index < app.open_tabs.len() {
        String::from_str(" ▶ ")
    } else {
        String::from_str(" ▷ ")
    };
    let mut out: Vec<Span> = Vec::new();
    if app.focus == Focus::Input {
        let cursor: usize = app.input.cursor;
        let n: usize = app.input.chars.len();
        let (at, after) = if cursor < n {
            (
                text_of(&app.input.chars, cursor, cursor + 1),
                text_of(&app.input.chars, cursor + 1, n),
            )
        } else {
            (String::from_str(" "), String::from_str(""))
        };
        add_span(&mut out, prompt, app.theme.msg_mine_style());
        add_span(&mut out, text_of(&app.input.chars, 0, cursor), app.theme.input_style());
        add_span(&mut out, at, app.theme.cursor_style());
        add_span(&mut out, after, app.theme.input_style());
    } else {
        add_span(&mut out, prompt, app.theme.dim_style());
        add_span(&mut out, app.input.text(), app.theme.dim_style());
    }
    assert(span_views(out@) =~= input_row(*app));
    out
}

/// The pieces of the input line make up the whole text again.
pub proof fn input_row_shows_the_text(app: App)
    requires
        app.input.wf(),
    ensures
        app.focus == Focus::Input && app.input.cursor < app.input.chars@.len() ==> input_row(
            app,
        )[1].text + input_row(app)[2].text + input_row(app)[3].text == app.input.chars@,
        app.focus == Focus::Input && app.input.cursor == app.input.chars@.len() ==> input_row(
            app,
        )[1].text == app.input.chars@,
        app.focus != Focus::Input ==> input_row(app)[1].text == app.input.chars@,
{
    let row = input_row(app);
    if app.focus == Focus::Input {
        if app.input.cursor < app.input.chars@.len() {
            assert(row[1].text + row[2].text + row[3].text =~= app.input.chars@);
        } else {
            assert(row[1].text =~= app.input.chars@);
        }
    }
}

// ── Status bar and help ────────────────────────────────────────────────────

/// The status bar: the status, a spinner while the bootstrap runs, and the
/// keys.
pub open spec fn status_row(app: App, elapsed_ms: u64, reduced_motion: bool) -> Seq<SpanView> {
    seq![
        span(" "@, app.theme.status_bar_look()),
        span(
            if app.bootstrap_running {
                app.status@ + " | Bootstrap self-lookup "@ + spinner_text(
                    elapsed_ms,
                    reduced_motion,
                )
            } else {
                app.status@
            },
            app.theme.dim_look(),
        ),
        span("  │  "@, app.theme.dim_look()),
        span(
            "[?] help  [Tab] focus  [↑↓] peer  [Enter] send  [Esc/q] quit"@,
            app.theme.dim_look(),
        ),
    ]
}

/// The status bar.
pub fn render_status(app: &App, elapsed_ms: u64, reduced_motion: bool) -> (out: Vec<Span>)
    ensures
        span_views(out@) == status_row(*app, elapsed_ms, reduced_motion),
{
    let mut status = app.status.clone();
    if app.bootstrap_running {
        status.append(" | Bootstrap self-lookup ");
        status.append(spinner_frame(elapsed_ms, reduced_motion));
    }
    let mut out = single(" ", app.theme.status_bar_style());
    add_span(&mut out, status, app.theme.dim_style());
    add_span(&mut out, String::from_str("  │  "), app.theme.dim_style());
    add_span(
        &mut out,
        String::from_str("[?] help  [Tab] focus  [↑↓] peer  [Enter] send  [Esc/q] quit"),
        app.theme.dim_style(),
    );
    assert(span_views(out@) =~= status_row(*app, elapsed_ms, reduced_motion));
    out
}

/// The help overlay: the keys, by pane.
pub open spec fn help_rows(theme: Theme) -> Seq<Seq<SpanView>> {
    seq![
        seq![span(" Global:"@, theme.highlight_look())],
        seq![span("  [?]          Toggle this help overlay"@, plain())],
        seq![span("  [Tab]        Cycle focus (Input ↔ Peers)"@, plain())],
        seq![span("  [Alt+Left/Right] Switch active tabs"@, plain())],
        seq![span("  [Alt+W]      Close active tab"@, plain())],
        seq![span("  [Shift+Left/Right] Resize peer sidebar"@, plain())],
        seq![span("  [Ctrl+C, q]  Quit application"@, plain())],
        seq![span(""@, plain())],
        seq![span(" Peers Pane:"@, theme.highlight_look())],
        seq![span("  [↑ / ↓]      Select previous / next peer"@, plain())],
        seq![span("  [Enter]      Open chat tab with peer"@, plain())],
        seq![span(""@, plain())],
        seq![span(" Chat Pane:"@, theme.highlight_look())],
        seq![span("  [↑ / ↓]      Scroll chat history (when Input focused)"@, plain())],
        seq![span("  [Enter]      Send message"@, plain())],
    ]
}

/// The help overlay.
pub fn render_help(app: &App) -> (out: Vec<Vec<Span>>)
    ensures
        rows(out@) == help_rows(app.theme),
{
    let title = app.theme.highlight_style();
    let text = plain_style();
    let mut out: Vec<Vec<Span>> = Vec::new();
    add_row(&mut out, single(" Global:", title));
    add_row(&mut out, single("  [?]          Toggle this help overlay", text));
    add_row(&mut out, single("  [Tab]        Cycle focus (Input ↔ Peers)", text));
    add_row(&mut out, single("  [Alt+Left/Right] Switch active tabs", text));
    add_row(&mut out, single("  [Alt+W]      Close active tab", text));
    add_row(&mut out, single("  [Shift+Left/Right] Resize peer sidebar", text));
    add_row(&mut out, single("  [Ctrl+C, q]  Quit application", text));
    add_row(&mut out, single("", text));
    add_row(&mut out, single(" Peers Pane:", title));
    add_row(&mut out, single("  [↑ / ↓]      Select previous / next peer", text));
    add_row(&mut out, single("  [Enter]      Open chat tab with peer", text));
    add_row(&mut out, single("", text));
    add_row(&mut out, single(" Chat Pane:", title));
    add_row(&mut out, single("  [↑ / ↓]      Scroll chat history (when Input focused)", text));
    add_row(&mut out, single("  [Enter]      Send message", text));
    assert(rows(out@) =~= help_rows(app.theme));
    out
}

// ── Laws ───────────────────────────────────────────────────────────────────

/// The chat shows every message in three lines, in the order of the
/// messages.
pub proof fn messages_are_shown_in_order(lines: Seq<ChatLineView>, theme: Theme, i: int)
    requires
        0 <= i < lines.len(),
    ensures
        history_rows(lines, theme).len() == 3 * lines.len(),
        history_rows(lines, theme).subrange(3 * i, 3 * i + 3) == message_rows(lines[i], theme),
    decreases lines.len(),
{
    let init = lines.drop_last();
    let before = history_rows(init, theme);
    let all = history_rows(lines, theme);
    let last = message_rows(lines.last(), theme);
    assert(last.len() == 3);
    if init.len() > 0 {
        messages_are_shown_in_order(init, theme, 0);
    }
    assert(before.len() == 3 * init.len());
    if i < init.len() {
        messages_are_shown_in_order(init, theme, i);
        assert(all.subrange(3 * i, 3 * i + 3) =~= before.subrange(3 * i, 3 * i + 3));
        assert(init[i] == lines[i]);
    } else {
        assert(all.subrange(3 * i, 3 * i + 3) =~= last);
    }
}

/// A message shows its time and its text. One of this node's own is told by
/// its name and carries the mark of its status; another's is told by the
/// identifier of its sender and carries none.
pub proof fn messages_show_who_and_what(line: ChatLineView, theme: Theme)
    ensures
        ({
            let shown = message_rows(line, theme);
            &&& shown.len() == 3
            &&& shown[0][0].text == "  ["@ + time_text(line.sent_at) + "] "@
            &&& line.is_mine ==> shown[0].len() == 3 && shown[0][1].text == "You "@
                && shown[0][2].text == status_mark(line.status)
            &&& !line.is_mine ==> shown[0].len() == 2 && shown[0][1].text == hex_short_text(
                line.sender_id,
            ) + "…"@
            &&& shown[1].last().text == line.text
            &&& shown[2].len() == 0
        }),
{
}

/// The mark tells the status: a check mark stands for delivered alone, a
/// cross for failed alone.
pub proof fn marks_tell_the_status(status: ChatStatus)
    ensures
        status_mark(status) == "✓"@ <==> status == ChatStatus::Delivered,
        status_mark(status) == "✗"@ <==> status == ChatStatus::Failed,
        status_mark(status) == "⟳"@ <==> status == ChatStatus::Sent,
{
    reveal_strlit("✓");
    reveal_strlit("✗");
    reveal_strlit("⟳");
    assert("✓"@[0] == '✓' && "✗"@[0] == '✗' && "⟳"@[0] == '⟳');
}

/// The time of day is shown in hours and minutes, two digits each, and is
/// the same at the same time of any day.
pub proof fn times_are_hours_and_minutes(unix_secs: u64)
    ensures
        ({
            let t = time_text(unix_secs);
            let hours = digit_value(t[0])->0 * 10 + digit_value(t[1])->0;
            let minutes = digit_value(t[3])->0 * 10 + digit_value(t[4])->0;
            &&& t.len() == 5
            &&& t[2] == ':'
            &&& digit_value(t[0]) is Some && digit_value(t[1]) is Some
            &&& digit_value(t[3]) is Some && digit_value(t[4]) is Some
            &&& hours == unix_secs / 3600 % 24
            &&& minutes == unix_secs / 60 % 60
        }),
{
    reveal_strlit(":");
    let s = unix_secs as int % 86400;
    assert(unix_secs as int / 3600 % 24 == s / 3600);
    assert(unix_secs as int / 60 % 60 == s % 3600 / 60);
    assert(0 <= s / 3600 < 24);
    assert(0 <= s % 3600 / 60 < 60);
}

/// A peer's line tells its state and its identifier: a full dot stands for a
/// session, an empty one for a peer that is neither connected nor being
/// dialed.
pub proof fn dots_tell_the_state(
    peer: PeerEntryView,
    selected: bool,
    theme: Theme,
    elapsed_ms: u64,
    reduced_motion: bool,
)
    ensures
        ({
            let shown = peer_row(peer, selected, theme, elapsed_ms, reduced_motion).spans;
            &&& shown.len() == 2
            &&& shown[0].text == "● "@ <==> peer.connected
            &&& shown[0].text == "○ "@ <==> !peer.connected && !peer.dialing
            &&& shown[1].text == hex_short_text(peer.node_id) + "…"@
        }),
{
    reveal_strlit("● ");
    reveal_strlit("○ ");
    reveal_strlit(" ");
    reveal_strlit("…");
    reveal_strlit("⠋");
    reveal_strlit("⠙");
    reveal_strlit("⠹");
    reveal_strlit("⠸");
    reveal_strlit("⠼");
    reveal_strlit("⠴");
    reveal_strlit("⠦");
    reveal_strlit("⠧");
    reveal_strlit("⠇");
    reveal_strlit("⠏");
    let turn = spinner_text(elapsed_ms, reduced_motion) + " "@;
    assert("● "@[0] == '●' && "○ "@[0] == '○');
    assert(turn[0] != '●' && turn[0] != '○');
}

/// Without messages the chat says what to do: to write where a conversation
/// is open, to pick a peer where none is. With messages it shows them.
pub proof fn empty_chats_give_a_hint(app: App)
    ensures
        app.messages@.len() > 0 ==> chat_rows(app) == history_rows(
            line_views(app.messages@),
            app.theme,
        ),
        app.messages@.len() == 0 ==> chat_rows(app).len() == 2 && chat_rows(app)[1][0].text
            == if app.active_tab_index < app.open_tabs@.len() {
            "  "@ + "No messages yet. Type below and press Enter."@
        } else {
            "  "@ + "← Select a peer to start chatting"@
        },
{
}

/// The status bar shows the status, and the spinner exactly while the
/// bootstrap runs.
pub proof fn the_status_bar_shows_the_status(app: App, elapsed_ms: u64, reduced_motion: bool)
    ensures
        ({
            let text = status_row(app, elapsed_ms, reduced_motion)[1].text;
            &&& app.status@.is_prefix_of(text)
            &&& text == app.status@ <==> !app.bootstrap_running
        }),
{
    reveal_strlit(" | Bootstrap self-lookup ");
    let text = status_row(app, elapsed_ms, reduced_motion)[1].text;
    assert(app.status@ =~= text.subrange(0, app.status@.len() as int));
}

} // verus!
