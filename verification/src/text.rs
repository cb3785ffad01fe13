//! Text building: hexadecimal and decimal digits, trimming and splitting.
use vstd::prelude::*;
use vstd::string::*;
use vstd::utf8::{decode_utf8, encode_utf8_decode_utf8, valid_utf8};

use crate::bytes::same_bytes;

verus! {

/// `String::push` appends the character.
pub assume_specification[ String::push ](s: &mut String, c: char)
    ensures
        final(s)@ == old(s)@.push(c),
;

/// The lowercase hexadecimal digit for a value below sixteen.
pub open spec fn hex_digit(n: int) -> char {
    if n < 10 {
        (n + 48) as u8 as char
    } else {
        (n + 87) as u8 as char
    }
}

/// Two lowercase hexadecimal digits per byte.
pub open spec fn hex_text(bytes: Seq<u8>) -> Seq<char>
    decreases bytes.len(),
{
    if bytes.len() == 0 {
        Seq::empty()
    } else {
        hex_text(bytes.drop_last()).push(hex_digit(bytes.last() as int / 16)).push(
            hex_digit(bytes.last() as int % 16),
        )
    }
}

fn hex_digit_of(n: u8) -> (c: char)
    requires
        n < 16,
    ensures
        c == hex_digit(n as int),
{
    if n < 10 {
        (n + 48) as char
    } else {
        (n + 87) as char
    }
}

/// Writes bytes as lowercase hexadecimal text.
pub fn hex_of(bytes: &[u8]) -> (out: String)
    ensures
        out@ == hex_text(bytes@),
{
    let mut out = String::new();
    let mut i: usize = 0;
    while i < bytes.len()
        invariant
            i <= bytes@.len(),
            out@ == hex_text(bytes@.subrange(0, i as int)),
        decreases bytes@.len() - i,
    {
        let b: u8 = bytes[i];
        out.push(hex_digit_of(b / 16));
        out.push(hex_digit_of(b % 16));
        proof {
            let next = bytes@.subrange(0, i + 1);
            assert(next.drop_last() =~= bytes@.subrange(0, i as int));
            assert(next.last() == b);
        }
        i = i + 1;
    }
    assert(bytes@.subrange(0, i as int) =~= bytes@);
    out
}

/// The first four bytes of an identifier as eight hexadecimal digits.
pub open spec fn hex_short_text(id: Seq<u8>) -> Seq<char> {
    hex_text(id.subrange(0, 4))
}

/// The first four bytes of an identifier as eight hexadecimal digits.
pub fn hex_short(id: &[u8; 32]) -> (out: String)
    ensures
        out@ == hex_short_text(id@),
{
    let head: [u8; 4] = [id[0], id[1], id[2], id[3]];
    assert(head@ =~= id@.subrange(0, 4));
    hex_of(head.as_slice())
}

/// The decimal digits of `n`, without leading zeros.
pub open spec fn decimal_text(n: nat) -> Seq<char>
    decreases n,
{
    if n < 10 {
        seq![hex_digit(n as int)]
    } else {
        decimal_text(n / 10).push(hex_digit(n as int % 10))
    }
}

/// Writes a number in decimal.
pub fn decimal(n: u64) -> (out: String)
    ensures
        out@ == decimal_text(n as nat),
    decreases n,
{
    if n < 10 {
        let mut out = String::new();
        out.push(hex_digit_of(n as u8));
        assert(out@ =~= decimal_text(n as nat));
        out
    } else {
        let mut out = decimal(n / 10);
        out.push(hex_digit_of((n % 10) as u8));
        out
    }
}

// ── Characters ─────────────────────────────────────────────────────────────

/// The characters of a text.
pub fn chars_of(s: &str) -> (out: Vec<char>)
    ensures
        out@ == s@,
{
    let mut out: Vec<char> = Vec::new();
    for c in it: s.chars()
        invariant
            it.seq() == s@,
            out@ == s@.subrange(0, it.index() as int),
    {
        out.push(c);
    }
    assert(out@ =~= s@);
    out
}

/// The text that the characters from `from` up to `to` make up.
pub fn text_of(chars: &Vec<char>, from: usize, to: usize) -> (out: String)
    requires
        from <= to <= chars@.len(),
    ensures
        out@ == chars@.subrange(from as int, to as int),
{
    let mut out = String::new();
    let mut i: usize = from;
    while i < to
        invariant
            from <= i <= to <= chars@.len(),
            out@ == chars@.subrange(from as int, i as int),
        decreases to - i,
    {
        out.push(chars[i]);
        i = i + 1;
    }
    out
}

/// Whether two texts are the same.
pub fn same_text(a: &str, b: &str) -> (r: bool)
    ensures
        r == (a@ == b@),
{
    proof {
        encode_utf8_decode_utf8(a@);
        encode_utf8_decode_utf8(b@);
    }
    same_bytes(a.as_bytes(), b.as_bytes())
}

/// What the strings of a list hold.
pub open spec fn texts(list: Seq<String>) -> Seq<Seq<char>> {
    list.map_values(|s: String| s@)
}

// ── White space ────────────────────────────────────────────────────────────

/// Whether a character has the Unicode property `White_Space`.
pub open spec fn is_white(c: char) -> bool {
    let n = c as u32;
    ||| 0x9 <= n <= 0xd
    ||| n == 0x20
    ||| n == 0x85
    ||| n == 0xa0
    ||| n == 0x1680
    ||| 0x2000 <= n <= 0x200a
    ||| n == 0x2028
    ||| n == 0x2029
    ||| n == 0x202f
    ||| n == 0x205f
    ||| n == 0x3000
}

/// Whether a character is white space.
pub fn white(c: char) -> (r: bool)
    ensures
        r == is_white(c),
{
    let n: u32 = c as u32;
    (0x9 <= n && n <= 0xd) || n == 0x20 || n == 0x85 || n == 0xa0 || n == 0x1680 || (0x2000 <= n
        && n <= 0x200a) || n == 0x2028 || n == 0x2029 || n == 0x202f || n == 0x205f || n == 0x3000
}

/// `s` without white space in front.
pub open spec fn trim_start(s: Seq<char>) -> Seq<char>
    decreases s.len(),
{
    if s.len() > 0 && is_white(s[0]) {
        trim_start(s.drop_first())
    } else {
        s
    }
}

/// `s` without white space behind.
pub open spec fn trim_end(s: Seq<char>) -> Seq<char>
    decreases s.len(),
{
    if s.len() > 0 && is_white(s.last()) {
        trim_end(s.drop_last())
    } else {
        s
    }
}

/// `s` without white space around it.
pub open spec fn trim(s: Seq<char>) -> Seq<char> {
    trim_end(trim_start(s))
}

/// The text without white space around it.
pub fn trimmed(s: &str) -> (out: String)
    ensures
        out@ == trim(s@),
{
    let chars = chars_of(s);
    let mut from: usize = 0;
    assert(chars@.subrange(0, chars@.len() as int) =~= chars@);
    while from < chars.len() && white(chars[from])
        invariant
            from <= chars@.len(),
            trim_start(chars@) == trim_start(chars@.subrange(from as int, chars@.len() as int)),
        decreases chars@.len() - from,
    {
        assert(chars@.subrange(from as int, chars@.len() as int).drop_first() =~= chars@.subrange(
            from + 1,
            chars@.len() as int,
        ));
        from = from + 1;
    }
    let ghost body = chars@.subrange(from as int, chars@.len() as int);
    assert(trim_start(chars@) == body);
    let mut to: usize = chars.len();
    while from < to && white(chars[to - 1])
        invariant
            from <= to <= chars@.len(),
            body == chars@.subrange(from as int, chars@.len() as int),
            trim_end(body) == trim_end(chars@.subrange(from as int, to as int)),
        decreases to - from,
    {
        assert(chars@.subrange(from as int, to as int).drop_last() =~= chars@.subrange(
            from as int,
            to - 1,
        ));
        to = to - 1;
    }
    text_of(&chars, from, to)
}

// ── Splitting ──────────────────────────────────────────────────────────────

/// The parts of `s` between the separators. There is always at least one.
pub open spec fn split(s: Seq<char>, sep: char) -> Seq<Seq<char>>
    decreases s.len(),
{
    if s.len() == 0 {
        seq![Seq::empty()]
    } else {
        let parts = split(s.drop_last(), sep);
        if s.last() == sep {
            parts.push(Seq::empty())
        } else {
            parts.drop_last().push(parts.last().push(s.last()))
        }
    }
}

/// The parts of `s` between the separators.
pub fn split_text(s: &str, sep: char) -> (out: Vec<String>)
    ensures
        texts(out@) == split(s@, sep),
{
    let chars = chars_of(s);
    let mut out: Vec<String> = Vec::new();
    let mut part = String::new();
    let mut i: usize = 0;
    assert(texts(out@).push(part@) =~= split(chars@.subrange(0, 0), sep));
    while i < chars.len()
        invariant
            i <= chars@.len(),
            texts(out@).push(part@) == split(chars@.subrange(0, i as int), sep),
        decreases chars@.len() - i,
    {
        let ghost before = texts(out@);
        let ghost next = chars@.subrange(0, i + 1);
        assert(next.drop_last() =~= chars@.subrange(0, i as int));
        assert(next.last() == chars@[i as int]);
        assert(before.push(part@).drop_last() =~= before);
        if chars[i] == sep {
            let ghost done = part@;
            out.push(part);
            assert(texts(out@) =~= before.push(done));
            part = String::new();
            assert(part@ =~= Seq::empty());
        } else {
            part.push(chars[i]);
        }
        i = i + 1;
    }
    let ghost before = texts(out@);
    let ghost done = part@;
    out.push(part);
    assert(texts(out@) =~= before.push(done));
    assert(chars@.subrange(0, i as int) =~= s@);
    out
}

/// Where `c` first stands in `s`, or the length of `s` where it does not.
pub open spec fn find(s: Seq<char>, c: char) -> nat
    decreases s.len(),
{
    if s.len() == 0 || s[0] == c {
        0
    } else {
        1 + find(s.drop_first(), c)
    }
}

/// What stands in front of the first `c`.
pub open spec fn before(s: Seq<char>, c: char) -> Seq<char> {
    s.subrange(0, find(s, c) as int)
}

/// What stands behind the first `c`; nothing where there is none.
pub open spec fn behind(s: Seq<char>, c: char) -> Seq<char> {
    if find(s, c) < s.len() {
        s.subrange((find(s, c) + 1) as int, s.len() as int)
    } else {
        Seq::empty()
    }
}

/// Splits `s` at the first `c`.
pub fn cut(s: &str, c: char) -> (out: (String, String))
    ensures
        out.0@ == before(s@, c),
        out.1@ == behind(s@, c),
{
    let chars = chars_of(s);
    let mut i: usize = 0;
    assert(chars@.subrange(0, chars@.len() as int) =~= chars@);
    while i < chars.len() && chars[i] != c
        invariant
            i <= chars@.len(),
            find(chars@, c) == i + find(chars@.subrange(i as int, chars@.len() as int), c),
        decreases chars@.len() - i,
    {
        assert(chars@.subrange(i as int, chars@.len() as int).drop_first() =~= chars@.subrange(
            i + 1,
            chars@.len() as int,
        ));
        i = i + 1;
    }
    let head = text_of(&chars, 0, i);
    let tail = if i < chars.len() {
        text_of(&chars, i + 1, chars.len())
    } else {
        String::new()
    };
    assert(i == chars@.len() ==> tail@ =~= Seq::empty());
    (head, tail)
}

// ── Bytes as text ──────────────────────────────────────────────────────────

/// Bytes read as UTF-8, with replacement characters for what is not.
pub uninterp spec fn utf8_lossy(bytes: Seq<u8>) -> Seq<char>;

/// `String::from_utf8_lossy`: a function of the bytes, and plain decoding
/// where they are valid UTF-8.
#[verifier::external_body]
pub(crate) fn from_utf8_lossy(bytes: &[u8]) -> (out: String)
    ensures
        out@ == utf8_lossy(bytes@),
        valid_utf8(bytes@) ==> out@ == decode_utf8(bytes@),
{
    String::from_utf8_lossy(bytes).into_owned()
}

/// `s` with blanks behind it, up to `width` characters.
pub open spec fn padded(s: Seq<char>, width: nat) -> Seq<char> {
    if s.len() < width {
        s + Seq::new((width - s.len()) as nat, |i: int| ' ')
    } else {
        s
    }
}

/// The text with blanks behind it, up to `width` characters.
pub fn pad(s: &str, width: usize) -> (out: String)
    ensures
        out@ == padded(s@, width as nat),
{
    let mut out = String::from_str(s);
    let mut n: usize = s.unicode_len();
    while n < width
        invariant
            s@.len() <= n,
            n <= width || n == s@.len(),
            out@ == s@ + Seq::new((n - s@.len()) as nat, |i: int| ' '),
        decreases width - n,
    {
        out.push(' ');
        n = n + 1;
        assert(out@ =~= s@ + Seq::new((n - s@.len()) as nat, |i: int| ' '));
    }
    assert(n == s@.len() ==> out@ =~= s@);
    out
}

// ── Numbers ────────────────────────────────────────────────────────────────

/// The value of a decimal digit.
pub open spec fn digit_value(c: char) -> Option<int> {
    if '0' <= c && c <= '9' {
        Some(c as int - '0' as int)
    } else {
        None
    }
}

/// The number that decimal digits make up; `None` where something else
/// stands among them.
pub open spec fn decimal_value(s: Seq<char>) -> Option<int>
    decreases s.len(),
{
    if s.len() == 0 {
        Some(0)
    } else {
        match (decimal_value(s.drop_last()), digit_value(s.last())) {
            (Some(n), Some(d)) => Some(10 * n + d),
            _ => None,
        }
    }
}

/// The port number in a text: decimal digits, a plus sign allowed in front.
pub open spec fn parse_port(s: Seq<char>) -> Option<u16> {
    let digits = if s.len() > 0 && s[0] == '+' {
        s.drop_first()
    } else {
        s
    };
    match decimal_value(digits) {
        Some(n) => if digits.len() > 0 && n <= u16::MAX {
            Some(n as u16)
        } else {
            None
        },
        None => None,
    }
}

/// Once digits make up more than a bound, more digits make up more.
proof fn decimal_value_grows(s: Seq<char>, n: int, bound: int)
    requires
        0 <= n <= s.len(),
        bound >= 0,
        match decimal_value(s.subrange(0, n)) {
            Some(v) => v > bound,
            None => true,
        },
    ensures
        match decimal_value(s) {
            Some(v) => v > bound,
            None => true,
        },
    decreases s.len() - n,
{
    if n == s.len() {
        assert(s.subrange(0, n) =~= s);
    } else {
        assert(s.subrange(0, n + 1).drop_last() =~= s.subrange(0, n));
        decimal_value_grows(s, n + 1, bound);
    }
}

/// The port number in a text.
pub fn port_of(s: &str) -> (out: Option<u16>)
    ensures
        out == parse_port(s@),
{
    let chars = chars_of(s);
    let from: usize = if chars.len() > 0 && chars[0] == '+' {
        1
    } else {
        0
    };
    let ghost digits = chars@.subrange(from as int, chars@.len() as int);
    assert(from == 1 ==> digits =~= s@.drop_first());
    assert(from == 0 ==> digits =~= s@);
    if from == chars.len() {
        return None;
    }
    let mut n: u32 = 0;
    let mut i: usize = from;
    assert(digits.subrange(0, 0) =~= Seq::empty());
    while i < chars.len()
        invariant
            from <= i <= chars@.len(),
            n <= u16::MAX,
            digits == chars@.subrange(from as int, chars@.len() as int),
            digits == if s@.len() > 0 && s@[0] == '+' {
                s@.drop_first()
            } else {
                s@
            },
            decimal_value(digits.subrange(0, i - from)) == Some(n as int),
        decreases chars@.len() - i,
    {
        let c = chars[i];
        proof {
            let next = digits.subrange(0, i + 1 - from);
            assert(next.drop_last() =~= digits.subrange(0, i - from));
            assert(next.last() == c);
        }
        if c < '0' || c > '9' {
            proof {
                decimal_value_grows(digits, i + 1 - from, u16::MAX as int);
            }
            return None;
        }
        n = 10 * n + (c as u32 - '0' as u32);
        if n > 65535 {
            proof {
                decimal_value_grows(digits, i + 1 - from, u16::MAX as int);
            }
            return None;
        }
        i = i + 1;
    }
    assert(digits.subrange(0, i - from) =~= digits);
    Some(n as u16)
}

// ── Laws ───────────────────────────────────────────────────────────────────

/// A number written in decimal reads back as the number, and has no zero in
/// front unless it is zero.
pub proof fn decimal_round_trip(n: nat)
    ensures
        decimal_value(decimal_text(n)) == Some(n as int),
        decimal_text(n).len() > 0,
        n > 0 ==> decimal_text(n)[0] != '0',
        forall|i: int| 0 <= i < decimal_text(n).len() ==> '0' <= #[trigger] decimal_text(n)[i]
            <= '9',
    decreases n,
{
    let s = decimal_text(n);
    if n < 10 {
        assert(s.drop_last() =~= Seq::empty());
        assert(decimal_value(s.drop_last()) == Some(0int));
    } else {
        decimal_round_trip(n / 10);
        assert(s.drop_last() =~= decimal_text(n / 10));
        assert(s[0] == decimal_text(n / 10)[0]);
    }
}

/// A port is read from its decimal digits, with a plus sign in front or
/// without.
pub proof fn ports_read_back(n: u16)
    ensures
        parse_port(decimal_text(n as nat)) == Some(n),
        parse_port(seq!['+'] + decimal_text(n as nat)) == Some(n),
        parse_port(Seq::empty()) is None,
        parse_port(seq!['+']) is None,
{
    let s = decimal_text(n as nat);
    decimal_round_trip(n as nat);
    assert(s[0] != '+');
    assert((seq!['+'] + s).drop_first() =~= s);
    assert(seq!['+'].drop_first() =~= Seq::<char>::empty());
}

/// Trimming cuts off white space on both sides and nothing else: what is
/// left neither starts nor ends with white space, and is all that lies
/// between.
pub proof fn trimming_cuts_white_space(s: Seq<char>)
    ensures
        trim(s).len() > 0 ==> !is_white(trim(s)[0]) && !is_white(trim(s).last()),
        exists|from: int, to: int|
            0 <= from <= to <= s.len() && trim(s) == #[trigger] s.subrange(from, to) && (forall|
                i: int,
            |
                0 <= i < s.len() && (i < from || to <= i) ==> is_white(#[trigger] s[i])),
{
    trim_start_cuts(s);
    let a = trim_start(s);
    let from = s.len() - a.len();
    trim_end_cuts(a);
    let to = from + trim_end(a).len();
    assert(trim(s) =~= s.subrange(from, to));
    assert forall|i: int| 0 <= i < s.len() && (i < from || to <= i) implies is_white(
        #[trigger] s[i],
    ) by {
        if to <= i {
            assert(a[i - from] == s[i]);
        }
    }
}

/// What is cut off in front is white space.
proof fn trim_start_cuts(s: Seq<char>)
    ensures
        trim_start(s).len() <= s.len(),
        trim_start(s) == s.subrange(s.len() - trim_start(s).len(), s.len() as int),
        forall|i: int|
            0 <= i < s.len() - trim_start(s).len() ==> is_white(#[trigger] s[i]),
        trim_start(s).len() > 0 ==> !is_white(trim_start(s)[0]),
    decreases s.len(),
{
    if s.len() > 0 && is_white(s[0]) {
        let rest = s.drop_first();
        trim_start_cuts(rest);
        assert(trim_start(s) =~= s.subrange(s.len() - trim_start(s).len(), s.len() as int));
        assert forall|i: int| 0 <= i < s.len() - trim_start(s).len() implies is_white(
            #[trigger] s[i],
        ) by {
            if i > 0 {
                assert(rest[i - 1] == s[i]);
            }
        }
    } else {
        assert(s =~= s.subrange(0, s.len() as int));
    }
}

/// What is cut off behind is white space.
proof fn trim_end_cuts(s: Seq<char>)
    ensures
        trim_end(s).len() <= s.len(),
        trim_end(s) == s.subrange(0, trim_end(s).len() as int),
        forall|i: int| trim_end(s).len() <= i < s.len() ==> is_white(#[trigger] s[i]),
        trim_end(s).len() > 0 ==> !is_white(trim_end(s).last()),
    decreases s.len(),
{
    if s.len() > 0 && is_white(s.last()) {
        let rest = s.drop_last();
        trim_end_cuts(rest);
        assert(trim_end(s) =~= s.subrange(0, trim_end(s).len() as int));
        assert forall|i: int| trim_end(s).len() <= i < s.len() implies is_white(
            #[trigger] s[i],
        ) by {
            if i < s.len() - 1 {
                assert(rest[i] == s[i]);
            }
        }
    } else {
        assert(s =~= s.subrange(0, s.len() as int));
    }
}

/// Parts put together with a separator between any two.
pub open spec fn put_together(parts: Seq<Seq<char>>, sep: char) -> Seq<char>
    decreases parts.len(),
{
    if parts.len() == 0 {
        Seq::empty()
    } else if parts.len() == 1 {
        parts[0]
    } else {
        put_together(parts.drop_last(), sep) + seq![sep] + parts.last()
    }
}

/// The parts of a text put together make up the text again, and none of them
/// holds the separator.
pub proof fn splitting_is_undone(s: Seq<char>, sep: char)
    ensures
        split(s, sep).len() > 0,
        put_together(split(s, sep), sep) == s,
        forall|i: int|
            0 <= i < split(s, sep).len() ==> !(#[trigger] split(s, sep)[i]).contains(sep),
    decreases s.len(),
{
    let parts = split(s, sep);
    if s.len() == 0 {
        assert(put_together(parts, sep) =~= s);
    } else {
        let init = s.drop_last();
        let before = split(init, sep);
        splitting_is_undone(init, sep);
        assert(s =~= init.push(s.last()));
        if s.last() == sep {
            assert(parts.drop_last() =~= before);
            assert(put_together(parts, sep) =~= s);
            assert forall|i: int| 0 <= i < parts.len() implies !(
            #[trigger] parts[i]).contains(sep) by {
                if i < before.len() {
                    assert(parts[i] == before[i]);
                }
            }
        } else {
            let last = before.last().push(s.last());
            assert(parts.drop_last() =~= before.drop_last());
            assert(parts.last() == last);
            if before.len() == 1 {
                assert(put_together(parts, sep) =~= s);
            } else {
                let head = put_together(before.drop_last(), sep) + seq![sep];
                assert(init == head + before.last());
                assert(head + last =~= (head + before.last()).push(s.last()));
                assert(put_together(parts, sep) =~= s);
            }
            assert forall|i: int| 0 <= i < parts.len() implies !(
            #[trigger] parts[i]).contains(sep) by {
                if i < before.len() - 1 {
                    assert(parts[i] == before[i]);
                } else {
                    assert(!before[before.len() - 1].contains(sep));
                    if last.contains(sep) {
                        let k = choose|k: int| 0 <= k < last.len() && last[k] == sep;
                        assert(before.last()[k] == sep);
                    }
                }
            }
        }
    }
}

/// A text is what stands in front of the first of a character, the
/// character, and what stands behind it; the character does not stand in
/// front of itself.
pub proof fn cutting_is_undone(s: Seq<char>, c: char)
    ensures
        !before(s, c).contains(c),
        s.contains(c) ==> before(s, c) + seq![c] + behind(s, c) == s,
        !s.contains(c) ==> before(s, c) == s && behind(s, c).len() == 0,
{
    let n = find(s, c) as int;
    find_is_first(s, c);
    assert forall|i: int| 0 <= i < n implies #[trigger] before(s, c)[i] != c by {
        assert(before(s, c)[i] == s[i]);
    }
    if s.contains(c) {
        assert(before(s, c) + seq![c] + behind(s, c) =~= s);
    } else {
        assert(before(s, c) =~= s);
    }
}

/// The place found is the first one, or behind the end.
pub proof fn find_is_first(s: Seq<char>, c: char)
    ensures
        find(s, c) <= s.len(),
        forall|i: int| 0 <= i < find(s, c) ==> #[trigger] s[i] != c,
        find(s, c) < s.len() ==> s[find(s, c) as int] == c,
        s.contains(c) <==> find(s, c) < s.len(),
    decreases s.len(),
{
    if s.len() > 0 && s[0] != c {
        let rest = s.drop_first();
        find_is_first(rest, c);
        assert forall|i: int| 0 <= i < find(s, c) implies #[trigger] s[i] != c by {
            if i > 0 {
                assert(rest[i - 1] == s[i]);
            }
        }
    }
    if s.contains(c) && find(s, c) == s.len() {
        let i = choose|i: int| 0 <= i < s.len() && s[i] == c;
        assert(s[i] != c);
    }
}

/// Padding keeps the text and fills it up with blanks to the width, and
/// leaves a text alone that is wider.
pub proof fn padding_fills_with_blanks(s: Seq<char>, width: nat)
    ensures
        s.is_prefix_of(padded(s, width)),
        padded(s, width).len() == if s.len() < width {
            width
        } else {
            s.len()
        },
        forall|i: int|
            s.len() <= i < padded(s, width).len() ==> #[trigger] padded(s, width)[i] == ' ',
{
    assert(s =~= padded(s, width).subrange(0, s.len() as int));
}

} // verus!
