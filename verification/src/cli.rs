//! The line-oriented command interface: what a line asks for, and what is
//! printed in answer.
use vstd::prelude::*;
use vstd::string::*;
use vstd::utf8::encode_utf8;

use crate::envelope::WireError;
use crate::hash::{sha3_256, sha3_256_digest};
use crate::ingress::MessageIngress;
use crate::network::{
    decode_message, encode_message, message_bytes, message_round_trip, parse_message, MessageView,
    PrimusMessage,
};
use crate::peer::{PrimusNR, RecordView};
use crate::sessions::SessionTable;
use crate::text::{
    before, behind, chars_of, cut, decimal, decimal_text, find, find_is_first, from_utf8_lossy,
    hex_digit, hex_of, hex_short, hex_short_text, hex_text, is_white, pad, padded,
    padding_fills_with_blanks, same_text, texts, trim, trimmed, utf8_lossy,
};

verus! {

/// Hops that a message sent from the command line has.
pub const CLI_TTL: u8 = 7;

// ── Commands ───────────────────────────────────────────────────────────────

/// What a line asks for.
#[derive(Debug)]
pub enum Command {
    /// Nothing.
    Empty,
    Quit,
    WhoAmI,
    Peers,
    /// Send a message to the peer whose identifier starts so.
    Send { prefix: String, message: String },
    /// `send` without its arguments.
    SendUsage,
    Unknown(String),
}

/// What a line asks for, as mathematical values.
pub enum CommandView {
    Empty,
    Quit,
    WhoAmI,
    Peers,
    Send { prefix: Seq<char>, message: Seq<char> },
    SendUsage,
    Unknown(Seq<char>),
}

impl View for Command {
    type V = CommandView;

    open spec fn view(&self) -> CommandView {
        match self {
            Command::Empty => CommandView::Empty,
            Command::Quit => CommandView::Quit,
            Command::WhoAmI => CommandView::WhoAmI,
            Command::Peers => CommandView::Peers,
            Command::Send { prefix, message } => CommandView::Send {
                prefix: prefix@,
                message: message@,
            },
            Command::SendUsage => CommandView::SendUsage,
            Command::Unknown(word) => CommandView::Unknown(word@),
        }
    }
}

/// What a line asks for. The first word is the command; for `send` the
/// second is the peer, and everything behind it the message.
pub open spec fn command_of(line: Seq<char>) -> CommandView {
    let line = trim(line);
    let word = before(line, ' ');
    let prefix = trim(before(behind(line, ' '), ' '));
    let message = trim(behind(behind(line, ' '), ' '));
    if line.len() == 0 {
        CommandView::Empty
    } else if word == "quit"@ || word == "exit"@ || word == "q"@ {
        CommandView::Quit
    } else if word == "whoami"@ {
        CommandView::WhoAmI
    } else if word == "peers"@ {
        CommandView::Peers
    } else if word == "send"@ {
        if prefix.len() == 0 || message.len() == 0 {
            CommandView::SendUsage
        } else {
            CommandView::Send { prefix, message }
        }
    } else {
        CommandView::Unknown(word)
    }
}

/// Reads a line.
pub fn parse_command(line: &str) -> (out: Command)
    ensures
        out@ == command_of(line@),
{
    let line = trimmed(line);
    if line.as_str().unicode_len() == 0 {
        return Command::Empty;
    }
    let (word, rest) = cut(line.as_str(), ' ');
    let (second, third) = cut(rest.as_str(), ' ');
    let prefix = trimmed(second.as_str());
    let message = trimmed(third.as_str());
    if same_text(word.as_str(), "quit") || same_text(word.as_str(), "exit") || same_text(
        word.as_str(),
        "q",
    ) {
        Command::Quit
    } else if same_text(word.as_str(), "whoami") {
        Command::WhoAmI
    } else if same_text(word.as_str(), "peers") {
        Command::Peers
    } else if same_text(word.as_str(), "send") {
        if prefix.as_str().unicode_len() == 0 || message.as_str().unicode_len() == 0 {
            Command::SendUsage
        } else {
            Command::Send { prefix, message }
        }
    } else {
        Command::Unknown(word)
    }
}

/// What is printed for a command whatever the node's state: nothing where
/// the answer depends on it.
pub open spec fn reply_text(command: CommandView) -> Seq<Seq<char>> {
    match command {
        CommandView::Quit => seq!["Goodbye."@],
        CommandView::SendUsage => seq!["usage: send <node_id_hex_prefix> <message...>"@],
        CommandView::Unknown(word) => seq![
            "? unknown command '"@ + word
                + "'. Try: whoami | peers | send <id_hex> <msg> | quit"@,
        ],
        _ => Seq::empty(),
    }
}

/// The lines for a command whose answer does not depend on the node's state.
pub fn reply_lines(command: &Command) -> (out: Vec<String>)
    ensures
        texts(out@) == reply_text(command@),
{
    let mut out: Vec<String> = Vec::new();
    match command {
        Command::Quit => out.push(String::from_str("Goodbye.")),
        Command::SendUsage => out.push(
            String::from_str("usage: send <node_id_hex_prefix> <message...>"),
        ),
        Command::Unknown(word) => {
            let mut line = String::from_str("? unknown command '");
            line.append(word.as_str());
            line.append("'. Try: whoami | peers | send <id_hex> <msg> | quit");
            out.push(line);
        },
        _ => {},
    }
    assert(texts(out@) =~= reply_text(command@));
    out
}

// ── Identifier prefixes ────────────────────────────────────────────────────

/// `s` without any `c` behind it.
pub open spec fn without_trailing(s: Seq<char>, c: char) -> Seq<char>
    decreases s.len(),
{
    if s.len() > 0 && s.last() == c {
        without_trailing(s.drop_last(), c)
    } else {
        s
    }
}

/// `s` without any three dots behind it.
pub open spec fn without_dots(s: Seq<char>) -> Seq<char>
    decreases s.len(),
{
    let n = s.len() as int;
    if n >= 3 && s[n - 1] == '.' && s[n - 2] == '.' && s[n - 3] == '.' {
        without_dots(s.subrange(0, n - 3))
    } else {
        s
    }
}

/// The value of a hexadecimal digit, in either case.
pub open spec fn hex_value(c: char) -> Option<int> {
    if '0' <= c && c <= '9' {
        Some(c as int - '0' as int)
    } else if 'a' <= c && c <= 'f' {
        Some(c as int - 'a' as int + 10)
    } else if 'A' <= c && c <= 'F' {
        Some(c as int - 'A' as int + 10)
    } else {
        None
    }
}

/// The value of two characters as a hexadecimal number: two digits, or a
/// plus sign and one digit.
pub open spec fn pair_value(first: char, second: char) -> Option<int> {
    match (hex_value(first), hex_value(second)) {
        (Some(high), Some(low)) => Some(16 * high + low),
        (None, Some(low)) => if first == '+' {
            Some(low)
        } else {
            None
        },
        _ => None,
    }
}

/// The bytes that pairs of characters make up as hexadecimal numbers.
pub open spec fn parse_hex(s: Seq<char>) -> Option<Seq<u8>>
    decreases s.len(),
{
    let n = s.len() as int;
    if n == 0 {
        Some(Seq::empty())
    } else if n == 1 {
        None
    } else {
        match (parse_hex(s.subrange(0, n - 2)), pair_value(s[n - 2], s[n - 1])) {
            (Some(bytes), Some(value)) => Some(bytes.push(value as u8)),
            _ => None,
        }
    }
}

/// The bytes that an identifier prefix stands for: up to 32 hexadecimal
/// numbers of two characters each, at least one. An ellipsis copied along is
/// ignored.
pub open spec fn parse_prefix(s: Seq<char>) -> Option<Seq<u8>> {
    let digits = without_dots(without_trailing(s, '…'));
    if digits.len() == 0 || digits.len() > 64 {
        None
    } else {
        parse_hex(digits)
    }
}

/// Text that does not parse does not parse with more behind it either.
proof fn parse_hex_fails_early(s: Seq<char>, n: int)
    requires
        0 <= n <= s.len(),
        n % 2 == s.len() % 2,
        parse_hex(s.subrange(0, n)) is None,
    ensures
        parse_hex(s) is None,
    decreases s.len() - n,
{
    if n == s.len() {
        assert(s.subrange(0, n) =~= s);
    } else {
        assert(s.subrange(0, n + 2).subrange(0, n) =~= s.subrange(0, n));
        parse_hex_fails_early(s, n + 2);
    }
}

/// An odd number of digits does not parse.
proof fn parse_hex_odd(s: Seq<char>)
    requires
        s.len() % 2 == 1,
    ensures
        parse_hex(s) is None,
    decreases s.len(),
{
    if s.len() > 1 {
        parse_hex_odd(s.subrange(0, s.len() - 2));
    }
}

/// The value of a hexadecimal digit.
fn hex_value_of(c: char) -> (out: Option<u8>)
    ensures
        match out {
            Some(v) => hex_value(c) == Some(v as int) && v < 16,
            None => hex_value(c) is None,
        },
{
    if '0' <= c && c <= '9' {
        Some((c as u32 - '0' as u32) as u8)
    } else if 'a' <= c && c <= 'f' {
        Some((c as u32 - 'a' as u32 + 10) as u8)
    } else if 'A' <= c && c <= 'F' {
        Some((c as u32 - 'A' as u32 + 10) as u8)
    } else {
        None
    }
}

/// The value of two characters as a hexadecimal number.
fn pair_value_of(first: char, second: char) -> (out: Option<u8>)
    ensures
        match out {
            Some(v) => pair_value(first, second) == Some(v as int),
            None => pair_value(first, second) is None,
        },
{
    match (hex_value_of(first), hex_value_of(second)) {
        (Some(high), Some(low)) => Some(16 * high + low),
        (None, Some(low)) => if first == '+' {
            Some(low)
        } else {
            None
        },
        _ => None,
    }
}

/// The bytes that an identifier prefix stands for.
pub fn prefix_bytes(s: &str) -> (out: Option<Vec<u8>>)
    ensures
        match out {
            Some(b) => parse_prefix(s@) == Some(b@),
            None => parse_prefix(s@) is None,
        },
{
    let chars = chars_of(s);
    let mut n: usize = chars.len();
    assert(chars@.subrange(0, n as int) =~= s@);
    while n > 0 && chars[n - 1] == '…'
        invariant
            n <= chars@.len(),
            without_trailing(s@, '…') == without_trailing(chars@.subrange(0, n as int), '…'),
        decreases n,
    {
        assert(chars@.subrange(0, n as int).drop_last() =~= chars@.subrange(0, n - 1));
        n = n - 1;
    }
    let ghost plain = without_trailing(s@, '…');
    assert(plain == chars@.subrange(0, n as int));
    while n >= 3 && chars[n - 1] == '.' && chars[n - 2] == '.' && chars[n - 3] == '.'
        invariant
            n <= chars@.len(),
            without_dots(plain) == without_dots(chars@.subrange(0, n as int)),
        decreases n,
    {
        assert(chars@.subrange(0, n as int).subrange(0, n - 3) =~= chars@.subrange(0, n - 3));
        n = n - 3;
    }
    let ghost digits = chars@.subrange(0, n as int);
    assert(digits == without_dots(plain));
    if n == 0 || n > 64 {
        return None;
    }
    if n % 2 != 0 {
        proof {
            parse_hex_odd(digits);
        }
        return None;
    }
    let mut out: Vec<u8> = Vec::new();
    let mut i: usize = 0;
    assert(digits.subrange(0, 0) =~= Seq::empty());
    while i < n
        invariant
            i <= n <= chars@.len(),
            0 < n <= 64,
            i % 2 == 0,
            n % 2 == 0,
            digits == chars@.subrange(0, n as int),
            digits == without_dots(without_trailing(s@, '…')),
            parse_hex(digits.subrange(0, i as int)) == Some(out@),
        decreases n - i,
    {
        proof {
            let next = digits.subrange(0, i + 2);
            assert(next.subrange(0, i as int) =~= digits.subrange(0, i as int));
            assert(next[i as int] == chars@[i as int]);
            assert(next[i + 1] == chars@[i + 1]);
        }
        match pair_value_of(chars[i], chars[i + 1]) {
            Some(value) => {
                out.push(value);
            },
            None => {
                proof {
                    parse_hex_fails_early(digits, i + 2);
                }
                return None;
            },
        }
        i = i + 2;
    }
    assert(digits.subrange(0, i as int) =~= digits);
    Some(out)
}

/// The place of the first record whose identifier starts with `prefix`.
pub open spec fn first_with_prefix(records: Seq<PrimusNR>, prefix: Seq<u8>) -> Option<int> {
    if exists|i: int| is_first_with_prefix(records, prefix, i) {
        Some(choose|i: int| is_first_with_prefix(records, prefix, i))
    } else {
        None
    }
}

/// Whether `i` is the place of the first record whose identifier starts
/// with `prefix`.
pub open spec fn is_first_with_prefix(records: Seq<PrimusNR>, prefix: Seq<u8>, i: int) -> bool {
    &&& 0 <= i < records.len()
    &&& prefix.is_prefix_of(records[i]@.node_id()@)
    &&& forall|j: int| 0 <= j < i ==> !prefix.is_prefix_of((#[trigger] records[j])@.node_id()@)
}

/// Whether an identifier starts with `prefix`.
fn starts_with(id: &[u8; 32], prefix: &Vec<u8>) -> (r: bool)
    ensures
        r == prefix@.is_prefix_of(id@),
{
    if prefix.len() > 32 {
        return false;
    }
    let mut i: usize = 0;
    while i < prefix.len()
        invariant
            i <= prefix@.len() <= 32,
            forall|j: int| 0 <= j < i ==> prefix@[j] == id@[j],
        decreases prefix@.len() - i,
    {
        if prefix[i] != id[i] {
            assert(prefix@[i as int] != id@.subrange(0, prefix@.len() as int)[i as int]);
            return false;
        }
        i = i + 1;
    }
    assert(prefix@ =~= id@.subrange(0, prefix@.len() as int));
    true
}

/// The first record whose identifier starts with the prefix that `hex`
/// stands for.
pub fn find_peer_by_hex_prefix(records: &Vec<PrimusNR>, hex: &str) -> (out: Option<usize>)
    ensures
        match parse_prefix(hex@) {
            None => out is None,
            Some(prefix) => match out {
                Some(i) => first_with_prefix(records@, prefix) == Some(i as int) && i
                    < records@.len(),
                None => first_with_prefix(records@, prefix) is None,
            },
        },
{
    let prefix = match prefix_bytes(hex) {
        Some(prefix) => prefix,
        None => return None,
    };
    let mut i: usize = 0;
    while i < records.len()
        invariant
            i <= records@.len(),
            parse_prefix(hex@) == Some(prefix@),
            forall|j: int|
                0 <= j < i ==> !prefix@.is_prefix_of((#[trigger] records@[j])@.node_id()@),
        decreases records@.len() - i,
    {
        if starts_with(&records[i].node_id(), &prefix) {
            proof {
                assert(is_first_with_prefix(records@, prefix@, i as int));
                let k = choose|k: int| is_first_with_prefix(records@, prefix@, k);
                assert(k == i) by {
                    if k < i {
                        assert(!prefix@.is_prefix_of(records@[k]@.node_id()@));
                    }
                    if i < k {
                        assert(!prefix@.is_prefix_of(records@[i as int]@.node_id()@));
                    }
                }
            }
            return Some(i);
        }
        i = i + 1;
    }
    None
}

// ── Output ─────────────────────────────────────────────────────────────────

/// The first four bytes of SHA3-256 of `data`, as eight hexadecimal digits.
pub fn sha3_256_short(data: &[u8]) -> (out: String)
    ensures
        out@ == hex_short_text(sha3_256(data@)@),
{
    hex_short(&sha3_256_digest(data))
}

/// The first four bytes of an identifier, as eight hexadecimal digits.
pub fn node_id_short(id: &[u8; 32]) -> (out: String)
    ensures
        out@ == hex_short_text(id@),
{
    hex_short(id)
}

/// The answer to `whoami`.
pub open spec fn whoami_text(nr: RecordView) -> Seq<Seq<char>> {
    seq!["NodeID : "@ + hex_text(nr.node_id()@), "Listen : "@ + nr.addr]
}

/// The answer to `whoami`.
pub fn whoami_lines(nr: &PrimusNR) -> (out: Vec<String>)
    ensures
        texts(out@) == whoami_text(nr@),
{
    let mut first = String::from_str("NodeID : ");
    first.append(hex_of(nr.node_id().as_slice()).as_str());
    let mut second = String::from_str("Listen : ");
    second.append(nr.addr.as_str());
    let ghost lines = seq![first@, second@];
    let mut out: Vec<String> = Vec::new();
    out.push(first);
    out.push(second);
    assert(texts(out@) =~= lines);
    out
}

/// One line of the answer to `peers`.
pub open spec fn peer_line_text(nr: RecordView, sessions: Map<Seq<char>, u64>) -> Seq<char> {
    (if sessions.dom().contains(nr.addr) {
        "✓"@
    } else {
        " "@
    }) + padded(hex_short_text(nr.node_id()@) + "…"@, 18) + "  "@ + nr.addr
}

/// Forty-eight dashes.
pub open spec fn rule_text() -> Seq<char> {
    Seq::new(48, |i: int| '─')
}

/// The answer to `peers`.
pub open spec fn peers_text(records: Seq<PrimusNR>, sessions: Map<Seq<char>, u64>) -> Seq<Seq<char>> {
    if records.len() == 0 {
        seq!["(no peers in DHT yet — waiting for discovery/bootstrap)"@]
    } else {
        seq![padded("NodeID (prefix)"@, 18) + "  "@ + "Address"@, rule_text()]
            + records.map_values(|nr: PrimusNR| peer_line_text(nr@, sessions)) + seq![
            "("@ + decimal_text(records.len()) + " peer(s); ✓ = active session)"@,
        ]
    }
}

/// One line of the answer to `peers`.
fn peer_line(nr: &PrimusNR, sessions: &SessionTable) -> (out: String)
    ensures
        out@ == peer_line_text(nr@, sessions@),
{
    let mut out = match sessions.get(&nr.addr) {
        Some(_) => String::from_str("✓"),
        None => String::from_str(" "),
    };
    let mut short = node_id_short(&nr.node_id());
    short.append("…");
    out.append(pad(short.as_str(), 18).as_str());
    out.append("  ");
    out.append(nr.addr.as_str());
    out
}

/// Forty-eight dashes.
fn rule_line() -> (out: String)
    ensures
        out@ == rule_text(),
{
    let mut out = String::new();
    let mut n: usize = 0;
    while n < 48
        invariant
            n <= 48,
            out@ == Seq::new(n as nat, |i: int| '─'),
        decreases 48 - n,
    {
        out.push('─');
        n = n + 1;
        assert(out@ =~= Seq::new(n as nat, |i: int| '─'));
    }
    out
}

/// The answer to `peers`: every known peer, with a mark where there is an
/// active session.
pub fn peers_lines(records: &Vec<PrimusNR>, sessions: &SessionTable) -> (out: Vec<String>)
    ensures
        texts(out@) == peers_text(records@, sessions@),
{
    let mut out: Vec<String> = Vec::new();
    if records.len() == 0 {
        out.push(String::from_str("(no peers in DHT yet — waiting for discovery/bootstrap)"));
        assert(texts(out@) =~= peers_text(records@, sessions@));
        return out;
    }
    let mut head = pad("NodeID (prefix)", 18);
    head.append("  ");
    head.append("Address");
    let ghost top = seq![head@, rule_text()];
    out.push(head);
    out.push(rule_line());
    assert(texts(out@) =~= top);
    let ghost lines = records@.map_values(|nr: PrimusNR| peer_line_text(nr@, sessions@));
    let mut i: usize = 0;
    assert(top + lines.subrange(0, 0) =~= top);
    while i < records.len()
        invariant
            i <= records@.len(),
            lines == records@.map_values(|nr: PrimusNR| peer_line_text(nr@, sessions@)),
            texts(out@) == top + lines.subrange(0, i as int),
        decreases records@.len() - i,
    {
        let ghost done = texts(out@);
        let line = peer_line(&records[i], sessions);
        let ghost added = line@;
        out.push(line);
        assert(texts(out@) =~= done.push(added));
        assert(top + lines.subrange(0, i + 1) =~= done.push(added));
        i = i + 1;
    }
    assert(lines.subrange(0, i as int) =~= lines);
    let mut last = String::from_str("(");
    last.append(decimal(records.len() as u64).as_str());
    last.append(" peer(s); ✓ = active session)");
    let ghost done = texts(out@);
    let ghost added = last@;
    out.push(last);
    assert(texts(out@) =~= done + seq![added]);
    out
}

/// What `send` comes to.
pub enum CliSend {
    /// Nothing can be sent: print these lines.
    Refused(Vec<String>),
    /// Write the payload to the session, and print the line once it is out.
    Ready { session: u64, payload: Vec<u8>, sent: String },
}

/// What `send` comes to, as mathematical values.
pub enum CliSendView {
    Refused(Seq<Seq<char>>),
    Ready { session: u64, payload: Seq<u8>, sent: Seq<char> },
}

impl View for CliSend {
    type V = CliSendView;

    open spec fn view(&self) -> CliSendView {
        match self {
            CliSend::Refused(lines) => CliSendView::Refused(texts(lines@)),
            CliSend::Ready { session, payload, sent } => CliSendView::Ready {
                session: *session,
                payload: payload@,
                sent: sent@,
            },
        }
    }
}

/// What is printed where no peer has the prefix.
pub open spec fn no_peer_text(prefix: Seq<char>) -> Seq<Seq<char>> {
    seq![
        "send: no peer with NodeID prefix '"@ + prefix + "' in DHT."@,
        "      Run 'peers' to see known nodes."@,
    ]
}

/// What is printed where there is no session with the peer.
pub open spec fn no_session_text(nr: RecordView) -> Seq<Seq<char>> {
    seq![
        "send: no active session with "@ + hex_short_text(nr.node_id()@) + "… ("@ + nr.addr
            + ")."@,
        "      Wait for discovery/bootstrap to connect, or restart with"@,
        "      PRIMUS_SEEDS="@ + nr.addr + " to seed that address."@,
    ]
}

/// What is printed once a message is out.
pub open spec fn sent_text(nr: RecordView, message: Seq<char>) -> Seq<char> {
    let data = encode_utf8(message);
    "[SENT ttl=7] "@ + hex_short_text(sha3_256(data)@) + "… ("@ + decimal_text(data.len())
        + " bytes) → "@ + hex_short_text(nr.node_id()@) + "… ("@ + nr.addr + "): "@ + message
}

/// What `send` comes to.
pub open spec fn cli_send(
    records: Seq<PrimusNR>,
    sessions: Map<Seq<char>, u64>,
    prefix: Seq<char>,
    message: Seq<char>,
) -> CliSendView {
    let found = match parse_prefix(prefix) {
        Some(bytes) => first_with_prefix(records, bytes),
        None => None,
    };
    match found {
        None => CliSendView::Refused(no_peer_text(prefix)),
        Some(i) => {
            let nr = records[i]@;
            if sessions.dom().contains(nr.addr) {
                CliSendView::Ready {
                    session: sessions[nr.addr],
                    payload: message_bytes(encode_utf8(message), CLI_TTL),
                    sent: sent_text(nr, message),
                }
            } else {
                CliSendView::Refused(no_session_text(nr))
            }
        },
    }
}

/// The lines where no peer has the prefix.
fn no_peer_lines(prefix: &str) -> (out: Vec<String>)
    ensures
        texts(out@) == no_peer_text(prefix@),
{
    let mut first = String::from_str("send: no peer with NodeID prefix '");
    first.append(prefix);
    first.append("' in DHT.");
    let mut out: Vec<String> = Vec::new();
    out.push(first);
    out.push(String::from_str("      Run 'peers' to see known nodes."));
    assert(texts(out@) =~= no_peer_text(prefix@));
    out
}

/// The lines where there is no session with the peer.
fn no_session_lines(nr: &PrimusNR) -> (out: Vec<String>)
    ensures
        texts(out@) == no_session_text(nr@),
{
    let mut first = String::from_str("send: no active session with ");
    first.append(node_id_short(&nr.node_id()).as_str());
    first.append("… (");
    first.append(nr.addr.as_str());
    first.append(").");
    let mut third = String::from_str("      PRIMUS_SEEDS=");
    third.append(nr.addr.as_str());
    third.append(" to seed that address.");
    let mut out: Vec<String> = Vec::new();
    out.push(first);
    out.push(String::from_str("      Wait for discovery/bootstrap to connect, or restart with"));
    out.push(third);
    assert(texts(out@) =~= no_session_text(nr@));
    out
}

/// Works out a `send`: which session to write to and what, or why not.
pub fn plan_send(
    records: &Vec<PrimusNR>,
    sessions: &SessionTable,
    prefix: &str,
    message: &str,
) -> (out: CliSend)
    ensures
        out@ == cli_send(records@, sessions@, prefix@, message@),
{
    let nr = match find_peer_by_hex_prefix(records, prefix) {
        Some(i) => &records[i],
        None => return CliSend::Refused(no_peer_lines(prefix)),
    };
    let session = match sessions.get(&nr.addr) {
        Some(session) => session,
        None => return CliSend::Refused(no_session_lines(nr)),
    };
    let data = message.as_bytes();
    let payload = match encode_message(data, CLI_TTL) {
        Ok(payload) => payload,
        Err(_) => return CliSend::Refused(Vec::new()),
    };
    let mut sent = String::from_str("[SENT ttl=7] ");
    sent.append(sha3_256_short(data).as_str());
    sent.append("… (");
    sent.append(decimal(data.len() as u64).as_str());
    sent.append(" bytes) → ");
    sent.append(node_id_short(&nr.node_id()).as_str());
    sent.append("… (");
    sent.append(nr.addr.as_str());
    sent.append("): ");
    sent.append(message);
    CliSend::Ready { session, payload, sent }
}

// ── Incoming messages ──────────────────────────────────────────────────────

/// What is printed for bytes that arrived.
pub open spec fn received_text(bytes: Seq<u8>) -> Seq<char> {
    match parse_message(bytes) {
        Some(m) => "[RECV ttl="@ + decimal_text(m.ttl as nat) + "] "@ + hex_short_text(
            sha3_256(m.data)@,
        ) + "… ("@ + decimal_text(m.data.len()) + " bytes): "@ + utf8_lossy(m.data),
        None => "[RECV raw] ("@ + decimal_text(bytes.len()) + " bytes): "@ + utf8_lossy(bytes),
    }
}

/// The line for bytes that arrived. What is no message is shown as it is,
/// so that nothing is swallowed.
pub fn received_line(bytes: &[u8]) -> (out: String)
    ensures
        out@ == received_text(bytes@),
{
    match decode_message(bytes) {
        Ok(PrimusMessage::Envelope(data, ttl)) => {
            let mut out = String::from_str("[RECV ttl=");
            out.append(decimal(ttl as u64).as_str());
            out.append("] ");
            out.append(sha3_256_short(data.as_slice()).as_str());
            out.append("… (");
            out.append(decimal(data.len() as u64).as_str());
            out.append(" bytes): ");
            out.append(from_utf8_lossy(data.as_slice()).as_str());
            out
        },
        Err(_) => {
            let mut out = String::from_str("[RECV raw] (");
            out.append(decimal(bytes.len() as u64).as_str());
            out.append(" bytes): ");
            out.append(from_utf8_lossy(bytes).as_str());
            out
        },
    }
}

/// Takes every envelope and keeps the line to print for it.
pub struct CliIngress {
    pub lines: Vec<String>,
}

impl MessageIngress for CliIngress {
    open spec fn ready(&self) -> bool {
        true
    }

    /// The line is added, and the envelope always news.
    open spec fn taken(&self, bytes: Seq<u8>, after: Self, out: Result<bool, WireError>) -> bool {
        &&& out == Ok::<bool, WireError>(true)
        &&& texts(after.lines@) == texts(self.lines@).push(received_text(bytes))
    }

    fn on_envelope(&mut self, bytes: &[u8]) -> (out: Result<bool, WireError>) {
        let ghost before = texts(self.lines@);
        let line = received_line(bytes);
        let ghost added = line@;
        self.lines.push(line);
        assert(texts(self.lines@) =~= before.push(added));
        Ok(true)
    }
}

// ── Laws ───────────────────────────────────────────────────────────────────

/// A prefix finds the first record whose identifier starts with it, and
/// nothing where none does.
pub proof fn prefixes_find_the_first_match(records: Seq<PrimusNR>, prefix: Seq<u8>)
    ensures
        match first_with_prefix(records, prefix) {
            Some(i) => 0 <= i < records.len() && prefix.is_prefix_of(records[i]@.node_id()@)
                && forall|j: int|
                0 <= j < i ==> !prefix.is_prefix_of((#[trigger] records[j])@.node_id()@),
            None => forall|j: int|
                0 <= j < records.len() ==> !prefix.is_prefix_of(
                    (#[trigger] records[j])@.node_id()@,
                ),
        },
{
    if first_with_prefix(records, prefix) is None {
        assert forall|j: int| 0 <= j < records.len() implies !prefix.is_prefix_of(
            (#[trigger] records[j])@.node_id()@,
        ) by {
            no_match_up_to(records, prefix, j + 1);
        }
    }
}

/// Without a first match there is none among the first records.
proof fn no_match_up_to(records: Seq<PrimusNR>, prefix: Seq<u8>, n: int)
    requires
        first_with_prefix(records, prefix) is None,
        0 <= n <= records.len(),
    ensures
        forall|j: int|
            0 <= j < n ==> !prefix.is_prefix_of((#[trigger] records[j])@.node_id()@),
    decreases n,
{
    if n > 0 {
        no_match_up_to(records, prefix, n - 1);
        if prefix.is_prefix_of(records[n - 1]@.node_id()@) {
            assert(is_first_with_prefix(records, prefix, n - 1));
        }
    }
}

/// A message goes out exactly where the prefix reads, a known peer's
/// identifier starts with it, and there is a session with the first such
/// peer; it goes over that session, as it was typed, with seven hops.
pub proof fn sends_go_to_the_peer_meant(
    records: Seq<PrimusNR>,
    sessions: Map<Seq<char>, u64>,
    prefix: Seq<char>,
    message: Seq<char>,
    i: int,
)
    requires
        0 <= i < records.len(),
        parse_prefix(prefix) is Some,
        parse_prefix(prefix)->0.is_prefix_of(records[i]@.node_id()@),
        forall|j: int|
            0 <= j < i ==> !parse_prefix(prefix)->0.is_prefix_of(
                (#[trigger] records[j])@.node_id()@,
            ),
        encode_utf8(message).len() <= u64::MAX,
    ensures
        ({
            let out = cli_send(records, sessions, prefix, message);
            &&& out is Ready <==> sessions.dom().contains(records[i]@.addr)
            &&& out is Ready ==> out->session == sessions[records[i]@.addr] && parse_message(
                out->payload,
            ) == Some(MessageView { data: encode_utf8(message), ttl: 7 })
        }),
{
    let bytes = parse_prefix(prefix)->0;
    assert(is_first_with_prefix(records, bytes, i));
    let k = choose|k: int| is_first_with_prefix(records, bytes, k);
    assert(k == i) by {
        if k < i {
            assert(!bytes.is_prefix_of(records[k]@.node_id()@));
        }
        if i < k {
            assert(!bytes.is_prefix_of(records[i]@.node_id()@));
        }
    }
    let data = encode_utf8(message);
    message_round_trip(data, 7, Seq::empty());
    assert(message_bytes(data, 7) + Seq::<u8>::empty() =~= message_bytes(data, 7));
}

/// Nothing goes out where the prefix does not read or no known peer's
/// identifier starts with it.
pub proof fn nothing_goes_to_strangers(
    records: Seq<PrimusNR>,
    sessions: Map<Seq<char>, u64>,
    prefix: Seq<char>,
    message: Seq<char>,
)
    requires
        parse_prefix(prefix) matches Some(bytes) ==> forall|j: int|
            0 <= j < records.len() ==> !bytes.is_prefix_of((#[trigger] records[j])@.node_id()@),
    ensures
        cli_send(records, sessions, prefix, message) is Refused,
{
    if let Some(bytes) = parse_prefix(prefix) {
        prefixes_find_the_first_match(records, bytes);
    }
}

/// `send`, a peer and a message are read as such: the peer is one word, and
/// the message everything behind it, blanks within it included.
pub proof fn send_commands_are_read(prefix: Seq<char>, message: Seq<char>)
    requires
        prefix.len() > 0,
        message.len() > 0,
        !prefix.contains(' '),
        !is_white(prefix[0]),
        !is_white(prefix.last()),
        !is_white(message[0]),
        !is_white(message.last()),
    ensures
        command_of("send "@ + prefix + " "@ + message) == (CommandView::Send { prefix, message }),
{
    reveal_strlit("send ");
    reveal_strlit(" ");
    reveal_strlit("send");
    reveal_strlit("quit");
    reveal_strlit("exit");
    reveal_strlit("q");
    reveal_strlit("whoami");
    reveal_strlit("peers");
    let line = "send "@ + prefix + " "@ + message;
    let n = line.len() as int;
    assert(line[0] == 's');
    assert(line[n - 1] == message.last());
    trim_keeps(line);
    let rest = prefix + " "@ + message;
    assert(line[4] == ' ');
    assert forall|i: int| 0 <= i < 4 implies #[trigger] line[i] != ' ' by {}
    find_at(line, ' ', 4);
    assert(before(line, ' ') =~= "send"@);
    assert(behind(line, ' ') =~= rest);
    let p = prefix.len() as int;
    assert(rest[p] == ' ');
    assert forall|i: int| 0 <= i < p implies #[trigger] rest[i] != ' ' by {
        assert(rest[i] == prefix[i]);
        assert(prefix.contains(prefix[i]));
    }
    find_at(rest, ' ', p);
    assert(before(rest, ' ') =~= prefix);
    assert(behind(rest, ' ') =~= message);
    trim_keeps(prefix);
    trim_keeps(message);
    assert("send"@.len() == 4);
    assert("send"@[0] == 's' && "quit"@[0] == 'q' && "exit"@[0] == 'e');
    assert("q"@.len() == 1 && "whoami"@.len() == 6 && "peers"@.len() == 5);
}

/// Text without white space at its ends is left alone by trimming.
proof fn trim_keeps(s: Seq<char>)
    requires
        s.len() > 0,
        !is_white(s[0]),
        !is_white(s.last()),
    ensures
        trim(s) == s,
{
}

/// A character is found at the first place at which it stands.
proof fn find_at(s: Seq<char>, c: char, n: int)
    requires
        0 <= n < s.len(),
        s[n] == c,
        forall|i: int| 0 <= i < n ==> #[trigger] s[i] != c,
    ensures
        find(s, c) == n,
{
    find_is_first(s, c);
    let f = find(s, c) as int;
    if f < n {
        assert(s[f] != c);
    }
    if n < f {
        assert(s[n] != c);
    }
}

/// The first word decides what a line asks for, whatever follows it.
pub proof fn first_words_are_commands(line: Seq<char>)
    ensures
        ({
            let word = before(trim(line), ' ');
            &&& command_of(line) is Empty <==> trim(line).len() == 0
            &&& trim(line).len() > 0 ==> {
                &&& command_of(line) is Quit <==> word == "quit"@ || word == "exit"@ || word
                    == "q"@
                &&& command_of(line) is WhoAmI <==> word == "whoami"@
                &&& command_of(line) is Peers <==> word == "peers"@
                &&& command_of(line) is Send || command_of(line) is SendUsage <==> word == "send"@
            }
            &&& command_of(line) matches CommandView::Unknown(w) ==> w == word
        }),
{
    reveal_strlit("quit");
    reveal_strlit("exit");
    reveal_strlit("q");
    reveal_strlit("whoami");
    reveal_strlit("peers");
    reveal_strlit("send");
    assert("quit"@.len() == 4 && "exit"@.len() == 4 && "q"@.len() == 1 && "whoami"@.len() == 6
        && "peers"@.len() == 5 && "send"@.len() == 4);
    assert("quit"@[0] == 'q' && "exit"@[0] == 'e' && "send"@[0] == 's');
}

/// The peers are listed one a line, in their order, between a heading of two
/// lines and their number. A line begins with a check mark exactly where
/// there is a session with the peer, and ends with its address.
pub proof fn peers_are_listed_in_order(
    records: Seq<PrimusNR>,
    sessions: Map<Seq<char>, u64>,
    i: int,
)
    requires
        0 <= i < records.len(),
    ensures
        ({
            let lines = peers_text(records, sessions);
            let line = lines[i + 2];
            let addr = records[i]@.addr;
            &&& lines.len() == records.len() + 3
            &&& line[0] == '✓' <==> sessions.dom().contains(addr)
            &&& line.len() >= addr.len() && line.skip(line.len() - addr.len()) == addr
            &&& line.subrange(1, 9) == hex_short_text(records[i]@.node_id()@)
        }),
{
    reveal_strlit("✓");
    reveal_strlit(" ");
    reveal_strlit("…");
    reveal_strlit("  ");
    let nr = records[i]@;
    let lines = peers_text(records, sessions);
    let line = peer_line_text(nr, sessions);
    let short = hex_short_text(nr.node_id()@);
    hex_round_trip(nr.node_id()@.subrange(0, 4));
    assert(short.len() == 8);
    assert(lines[i + 2] == line);
    padding_fills_with_blanks(short + "…"@, 18);
    let pad = padded(short + "…"@, 18);
    assert(pad.len() == 18);
    assert((short + "…"@) =~= pad.subrange(0, 9));
    assert forall|k: int| 0 <= k < 8 implies pad[k] == short[k] by {
        assert(pad.subrange(0, 9)[k] == (short + "…"@)[k]);
    }
    assert(line.subrange(1, 9) =~= short);
    assert(line.skip(line.len() - nr.addr.len()) =~= nr.addr);
}

/// Written digits parse to the bytes they were written for.
pub proof fn hex_round_trip(bytes: Seq<u8>)
    ensures
        parse_hex(hex_text(bytes)) == Some(bytes),
        hex_text(bytes).len() == 2 * bytes.len(),
        bytes.len() > 0 ==> hex_value(hex_text(bytes).last()) is Some,
    decreases bytes.len(),
{
    if bytes.len() == 0 {
        assert(parse_hex(hex_text(bytes)) == Some(Seq::<u8>::empty()));
        assert(bytes =~= Seq::empty());
    } else {
        let init = bytes.drop_last();
        hex_round_trip(init);
        let b = bytes.last();
        let s = hex_text(bytes);
        let n = s.len() as int;
        assert(s.subrange(0, n - 2) =~= hex_text(init));
        digit_round_trip(b as int / 16);
        digit_round_trip(b as int % 16);
        assert(s[n - 2] == hex_digit(b as int / 16));
        assert(s[n - 1] == hex_digit(b as int % 16));
        assert(init.push(b) =~= bytes);
    }
}

/// A written digit has the value it was written for.
proof fn digit_round_trip(n: int)
    requires
        0 <= n < 16,
    ensures
        hex_value(hex_digit(n)) == Some(n),
{
}

/// The identifier prefix that the peer list shows, ellipsis and all, finds
/// the bytes it was written for again.
pub proof fn shown_prefix_is_understood(id: Seq<u8>)
    requires
        id.len() == 32,
    ensures
        parse_prefix(hex_short_text(id) + "…"@) == Some(id.subrange(0, 4)),
{
    reveal_strlit("…");
    let head = id.subrange(0, 4);
    hex_round_trip(head);
    let digits = hex_text(head);
    let s = digits + "…"@;
    assert(s.last() == '…');
    assert(s.drop_last() =~= digits);
    assert(digits.last() != '…' && digits.last() != '.');
    assert(without_trailing(s, '…') == without_trailing(digits, '…'));
    assert(without_trailing(digits, '…') == digits);
    assert(without_dots(digits) == digits);
}

} // verus!
