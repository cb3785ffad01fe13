//! Fixed-width integers as byte sequences, and small helpers on bytes.
use vstd::prelude::*;

verus! {

/// `256` to the power `n`: how many values `n` bytes can hold.
pub open spec fn byte_range(n: nat) -> nat
    decreases n,
{
    if n == 0 {
        1
    } else {
        256 * byte_range((n - 1) as nat)
    }
}

/// The `n` low bytes of `x`, least significant first.
pub open spec fn le_bytes(x: nat, n: nat) -> Seq<u8>
    decreases n,
{
    if n == 0 {
        Seq::empty()
    } else {
        seq![(x % 256) as u8] + le_bytes(x / 256, (n - 1) as nat)
    }
}

/// The number that `s` holds, least significant byte first.
pub open spec fn le_value(s: Seq<u8>) -> nat
    decreases s.len(),
{
    if s.len() == 0 {
        0
    } else {
        s[0] as nat + 256 * le_value(s.drop_first())
    }
}

/// The `n` low bytes of `x`, most significant first.
pub open spec fn be_bytes(x: nat, n: nat) -> Seq<u8>
    decreases n,
{
    if n == 0 {
        Seq::empty()
    } else {
        be_bytes(x / 256, (n - 1) as nat).push((x % 256) as u8)
    }
}

/// The number that `s` holds, most significant byte first.
pub open spec fn be_value(s: Seq<u8>) -> nat
    decreases s.len(),
{
    if s.len() == 0 {
        0
    } else {
        256 * be_value(s.drop_last()) + s.last() as nat
    }
}

/// Writing a number that fits in `n` little-endian bytes and reading it
/// back gives the number.
pub proof fn le_round_trip(x: nat, n: nat)
    requires
        x < byte_range(n),
    ensures
        le_bytes(x, n).len() == n,
        le_value(le_bytes(x, n)) == x,
    decreases n,
{
    if n > 0 {
        le_round_trip(x / 256, (n - 1) as nat);
        assert(le_bytes(x, n).drop_first() =~= le_bytes(x / 256, (n - 1) as nat));
    }
}

/// Writing a number that fits in `n` big-endian bytes and reading it back
/// gives the number.
pub proof fn be_round_trip(x: nat, n: nat)
    requires
        x < byte_range(n),
    ensures
        be_bytes(x, n).len() == n,
        be_value(be_bytes(x, n)) == x,
    decreases n,
{
    if n > 0 {
        be_round_trip(x / 256, (n - 1) as nat);
        assert(be_bytes(x, n).drop_last() =~= be_bytes(x / 256, (n - 1) as nat));
    }
}

/// `le_bytes` has the length it was asked for, whatever the number.
pub proof fn le_bytes_len(x: nat, n: nat)
    ensures
        le_bytes(x, n).len() == n,
    decreases n,
{
    if n > 0 {
        le_bytes_len(x / 256, (n - 1) as nat);
    }
}

/// A little-endian number of `s.len()` bytes stays below `byte_range`.
pub proof fn le_value_bound(s: Seq<u8>)
    ensures
        le_value(s) < byte_range(s.len()),
    decreases s.len(),
{
    if s.len() > 0 {
        le_value_bound(s.drop_first());
    }
}

/// Reading `s` as a little-endian number and writing it back gives `s`.
pub proof fn le_value_round_trip(s: Seq<u8>)
    ensures
        le_bytes(le_value(s), s.len()) == s,
    decreases s.len(),
{
    if s.len() > 0 {
        le_value_round_trip(s.drop_first());
        assert(seq![s[0]] + s.drop_first() =~= s);
    }
}

/// Little-endian bytes start with the lowest byte, big-endian bytes end with
/// it, and the one order is the other reversed.
pub proof fn byte_orders_are_reversed(x: nat, n: nat)
    ensures
        le_bytes(x, n).len() == n,
        be_bytes(x, n) == le_bytes(x, n).reverse(),
        n > 0 ==> le_bytes(x, n)[0] == x % 256 && be_bytes(x, n).last() == x % 256,
    decreases n,
{
    if n > 0 {
        let rest = le_bytes(x / 256, (n - 1) as nat);
        byte_orders_are_reversed(x / 256, (n - 1) as nat);
        assert((seq![(x % 256) as u8] + rest).reverse() =~= rest.reverse().push((x % 256) as u8));
    } else {
        assert(be_bytes(x, n) =~= le_bytes(x, n).reverse());
    }
}

/// The values of the widths used on the wire.
pub proof fn byte_range_values()
    ensures
        byte_range(1) == 0x100,
        byte_range(2) == 0x1_0000,
        byte_range(4) == 0x1_0000_0000,
        byte_range(8) == 0x1_0000_0000_0000_0000,
{
    reveal_with_fuel(byte_range, 9);
}

/// Appends `bytes` to `out`.
pub fn append_bytes(out: &mut Vec<u8>, bytes: &[u8])
    ensures
        final(out)@ == old(out)@ + bytes@,
{
    let mut i: usize = 0;
    while i < bytes.len()
        invariant
            i <= bytes@.len(),
            out@ == old(out)@ + bytes@.subrange(0, i as int),
        decreases bytes@.len() - i,
    {
        out.push(bytes[i]);
        i = i + 1;
    }
    assert(bytes@.subrange(0, i as int) =~= bytes@);
}

/// A copy of `bytes`.
pub fn copy_bytes(bytes: &[u8]) -> (out: Vec<u8>)
    ensures
        out@ == bytes@,
{
    let mut out: Vec<u8> = Vec::new();
    append_bytes(&mut out, bytes);
    out
}

/// Whether two byte slices hold the same bytes.
pub fn same_bytes(a: &[u8], b: &[u8]) -> (r: bool)
    ensures
        r == (a@ == b@),
{
    if a.len() != b.len() {
        return false;
    }
    let mut i: usize = 0;
    while i < a.len()
        invariant
            i <= a@.len(),
            a@.len() == b@.len(),
            forall|j: int| 0 <= j < i ==> a@[j] == b@[j],
        decreases a@.len() - i,
    {
        if a[i] != b[i] {
            return false;
        }
        i = i + 1;
    }
    assert(a@ =~= b@);
    true
}

/// Whether two 32-byte identifiers are equal.
pub fn same_id(a: &[u8; 32], b: &[u8; 32]) -> (r: bool)
    ensures
        r == (a@ == b@),
        r == (*a == *b),
{
    let mut i: usize = 0;
    while i < 32
        invariant
            i <= 32,
            forall|j: int| 0 <= j < i ==> a@[j] == b@[j],
        decreases 32 - i,
    {
        if a[i] != b[i] {
            return false;
        }
        i = i + 1;
    }
    assert(a@ =~= b@);
    assert(*a =~= *b);
    true
}

/// Appends the eight bytes of `x`, most significant first.
pub fn append_be_u64(out: &mut Vec<u8>, x: u64)
    ensures
        final(out)@ == old(out)@ + be_bytes(x as nat, 8),
{
    let x1: u64 = x / 256;
    let x2: u64 = x1 / 256;
    let x3: u64 = x2 / 256;
    let x4: u64 = x3 / 256;
    let x5: u64 = x4 / 256;
    let x6: u64 = x5 / 256;
    let x7: u64 = x6 / 256;
    out.push(x7 as u8);
    out.push((x6 % 256) as u8);
    out.push((x5 % 256) as u8);
    out.push((x4 % 256) as u8);
    out.push((x3 % 256) as u8);
    out.push((x2 % 256) as u8);
    out.push((x1 % 256) as u8);
    out.push((x % 256) as u8);
    proof {
        assert(be_bytes(x7 as nat / 256, 0) == Seq::<u8>::empty());
        assert(be_bytes(x7 as nat, 1) == seq![x7 as u8]);
        assert(be_bytes(x6 as nat, 2).len() == 2);
        assert(be_bytes(x5 as nat, 3).len() == 3);
        assert(be_bytes(x4 as nat, 4).len() == 4);
        assert(be_bytes(x3 as nat, 5).len() == 5);
        assert(be_bytes(x2 as nat, 6).len() == 6);
        assert(be_bytes(x1 as nat, 7).len() == 7);
    }
}

/// Appends the four bytes of `x`, most significant first.
pub fn append_be_u32(out: &mut Vec<u8>, x: u32)
    ensures
        final(out)@ == old(out)@ + be_bytes(x as nat, 4),
{
    reveal_with_fuel(be_bytes, 5);
    out.push((x / 0x100_0000) as u8);
    out.push((x / 0x1_0000 % 256) as u8);
    out.push((x / 0x100 % 256) as u8);
    out.push((x % 256) as u8);
}

/// Appends the four bytes of `x`, least significant first.
pub fn append_le_u32(out: &mut Vec<u8>, x: u32)
    ensures
        final(out)@ == old(out)@ + le_bytes(x as nat, 4),
{
    reveal_with_fuel(le_bytes, 5);
    out.push((x % 256) as u8);
    out.push((x / 0x100 % 256) as u8);
    out.push((x / 0x1_0000 % 256) as u8);
    out.push((x / 0x100_0000) as u8);
}

/// The little-endian number in the first four bytes of `s`.
pub fn read_le_u32(s: &[u8]) -> (x: u32)
    requires
        4 <= s@.len(),
    ensures
        x == le_value(s@.subrange(0, 4)),
{
    let ghost w = s@.subrange(0, 4);
    proof {
        reveal_with_fuel(le_value, 5);
        assert(w.drop_first() =~= s@.subrange(1, 4));
        assert(w.drop_first().drop_first() =~= s@.subrange(2, 4));
        assert(w.drop_first().drop_first().drop_first() =~= s@.subrange(3, 4));
    }
    s[0] as u32 + s[1] as u32 * 0x100 + s[2] as u32 * 0x1_0000 + s[3] as u32 * 0x100_0000
}

} // verus!
