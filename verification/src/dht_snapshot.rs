//! The saved list of known peers.
//!
//! A snapshot only gives hints for the next start, so a missing or corrupt
//! one counts as empty and never stops the node.
use vstd::prelude::*;

use crate::bytes::{byte_range_values, copy_bytes, le_bytes, le_bytes_len, le_round_trip, le_value};
use crate::envelope::{counted, WireError};

verus! {

/// Seconds between two snapshots.
pub const SNAPSHOT_INTERVAL: u64 = 300;

/// A peer's address in its binary form.
#[allow(inconsistent_fields)]
#[derive(Clone, Copy, Debug)]
pub enum SnapshotAddr {
    V4 { ip: [u8; 4], port: u16 },
    V6 { ip: [u8; 16], port: u16 },
}

/// A saved peer record.
#[derive(Debug)]
pub struct SnapshotRecord {
    pub public_key: Vec<u8>,
    pub addr: SnapshotAddr,
    pub signature: Vec<u8>,
}

/// What an address holds, as mathematical values.
#[verifier::ext_equal]
pub struct AddrView {
    /// Whether the address has sixteen bytes instead of four.
    pub is_v6: bool,
    pub ip: Seq<u8>,
    pub port: u16,
}

/// What a saved record holds, as mathematical values.
#[verifier::ext_equal]
pub struct SavedView {
    pub public_key: Seq<u8>,
    pub addr: AddrView,
    pub signature: Seq<u8>,
}

impl View for SnapshotAddr {
    type V = AddrView;

    open spec fn view(&self) -> AddrView {
        match self {
            SnapshotAddr::V4 { ip, port } => AddrView { is_v6: false, ip: ip@, port: *port },
            SnapshotAddr::V6 { ip, port } => AddrView { is_v6: true, ip: ip@, port: *port },
        }
    }
}

impl View for SnapshotRecord {
    type V = SavedView;

    open spec fn view(&self) -> SavedView {
        SavedView {
            public_key: self.public_key@,
            addr: self.addr@,
            signature: self.signature@,
        }
    }
}

/// What the records of a list hold.
pub open spec fn saved(list: Seq<SnapshotRecord>) -> Seq<SavedView> {
    list.map_values(|r: SnapshotRecord| r@)
}

// ── Format ─────────────────────────────────────────────────────────────────

/// The bytes of an address: the family, the address, the port.
pub open spec fn addr_bytes(a: AddrView) -> Seq<u8> {
    le_bytes(
        if a.is_v6 {
            1
        } else {
            0
        },
        4,
    ) + a.ip + le_bytes(a.port as nat, 2)
}

/// The bytes of a record.
pub open spec fn saved_bytes(r: SavedView) -> Seq<u8> {
    counted(r.public_key) + addr_bytes(r.addr) + counted(r.signature)
}

/// The bytes of records in a row.
pub open spec fn row_bytes(list: Seq<SavedView>) -> Seq<u8>
    decreases list.len(),
{
    if list.len() == 0 {
        Seq::empty()
    } else {
        saved_bytes(list[0]) + row_bytes(list.drop_first())
    }
}

/// The bytes of a snapshot: the number of records, then the records.
pub open spec fn snapshot_bytes(list: Seq<SavedView>) -> Seq<u8> {
    le_bytes(list.len(), 8) + row_bytes(list)
}

/// Whether a record has the sizes that every `SnapshotRecord` has.
pub open spec fn saved_sized(r: SavedView) -> bool {
    &&& r.public_key.len() <= u64::MAX
    &&& r.signature.len() <= u64::MAX
    &&& r.addr.ip.len() == if r.addr.is_v6 {
        16nat
    } else {
        4nat
    }
}

/// Whether every record of a list, and the list, has such sizes.
pub open spec fn list_sized(list: Seq<SavedView>) -> bool {
    &&& list.len() <= u64::MAX
    &&& forall|i: int| 0 <= i < list.len() ==> saved_sized(#[trigger] list[i])
}

/// Whether `s` starts with the snapshot of `list`.
pub open spec fn holds_snapshot(s: Seq<u8>, list: Seq<SavedView>) -> bool {
    list_sized(list) && snapshot_bytes(list).is_prefix_of(s)
}

/// The records in the snapshot that `s` starts with, if it starts with one.
pub open spec fn parse_snapshot(s: Seq<u8>) -> Option<Seq<SavedView>> {
    if exists|list: Seq<SavedView>| holds_snapshot(s, list) {
        Some(choose|list: Seq<SavedView>| holds_snapshot(s, list))
    } else {
        None
    }
}

/// A counted byte string at the start of `s` is read off by its count.
proof fn counted_layout(s: Seq<u8>, x: Seq<u8>)
    requires
        x.len() <= u64::MAX,
        counted(x).is_prefix_of(s),
    ensures
        le_value(s.subrange(0, 8)) == x.len(),
        s.len() >= 8 + x.len(),
        s.subrange(8, (8 + x.len()) as int) == x,
{
    byte_range_values();
    le_round_trip(x.len(), 8);
    let c = counted(x);
    assert(c =~= s.subrange(0, c.len() as int));
    assert(forall|i: int| 0 <= i < c.len() ==> s[i] == c[i]);
    assert(s.subrange(0, 8) =~= le_bytes(x.len(), 8));
    assert(s.subrange(8, (8 + x.len()) as int) =~= x);
}

/// What follows a prefix starts with what follows it in a longer prefix.
proof fn prefix_rest(a: Seq<u8>, b: Seq<u8>, s: Seq<u8>)
    requires
        (a + b).is_prefix_of(s),
    ensures
        a.is_prefix_of(s),
        b.is_prefix_of(s.skip(a.len() as int)),
{
    let ab = a + b;
    assert(ab =~= s.subrange(0, ab.len() as int));
    assert(forall|i: int| 0 <= i < ab.len() ==> s[i] == ab[i]);
    assert(a =~= s.subrange(0, a.len() as int));
    assert(b =~= s.skip(a.len() as int).subrange(0, b.len() as int));
}

/// At most one record stands at the start of `s`.
proof fn record_is_unique(s: Seq<u8>, a: SavedView, b: SavedView)
    requires
        saved_sized(a),
        saved_sized(b),
        saved_bytes(a).is_prefix_of(s),
        saved_bytes(b).is_prefix_of(s),
    ensures
        a == b,
{
    record_parts(s, a);
    record_parts(s, b);
    let t = s.skip((8 + a.public_key.len()) as int);
    let u = t.skip(addr_bytes(a.addr).len() as int);
    addr_is_unique(t, a.addr, b.addr);
    assert(a.signature == b.signature);
    assert(a =~= b);
}

/// The parts of a record at the start of `s`.
proof fn record_parts(s: Seq<u8>, r: SavedView)
    requires
        saved_sized(r),
        saved_bytes(r).is_prefix_of(s),
    ensures
        ({
            let t = s.skip((8 + r.public_key.len()) as int);
            let u = t.skip(addr_bytes(r.addr).len() as int);
            &&& le_value(s.subrange(0, 8)) == r.public_key.len()
            &&& s.subrange(8, (8 + r.public_key.len()) as int) == r.public_key
            &&& addr_bytes(r.addr).is_prefix_of(t)
            &&& le_value(u.subrange(0, 8)) == r.signature.len()
            &&& u.subrange(8, (8 + r.signature.len()) as int) == r.signature
        }),
{
    let k = counted(r.public_key);
    let a = addr_bytes(r.addr);
    let g = counted(r.signature);
    le_bytes_len(r.public_key.len(), 8);
    assert(k + a + g =~= k + (a + g));
    prefix_rest(k, a + g, s);
    counted_layout(s, r.public_key);
    let t = s.skip(k.len() as int);
    prefix_rest(a, g, t);
    counted_layout(t.skip(a.len() as int), r.signature);
}

/// At most one address stands at the start of `t`.
proof fn addr_is_unique(t: Seq<u8>, a: AddrView, b: AddrView)
    requires
        a.ip.len() == if a.is_v6 {
            16nat
        } else {
            4nat
        },
        b.ip.len() == if b.is_v6 {
            16nat
        } else {
            4nat
        },
        addr_bytes(a).is_prefix_of(t),
        addr_bytes(b).is_prefix_of(t),
    ensures
        a == b,
{
    addr_parts(t, a);
    addr_parts(t, b);
    assert(a.is_v6 == b.is_v6);
    assert(a =~= b);
}

/// The parts of an address at the start of `t`.
proof fn addr_parts(t: Seq<u8>, a: AddrView)
    requires
        a.ip.len() == if a.is_v6 {
            16nat
        } else {
            4nat
        },
        addr_bytes(a).is_prefix_of(t),
    ensures
        le_value(t.subrange(0, 4)) == if a.is_v6 {
            1nat
        } else {
            0nat
        },
        t.subrange(4, (4 + a.ip.len()) as int) == a.ip,
        le_value(t.subrange((4 + a.ip.len()) as int, (6 + a.ip.len()) as int)) == a.port,
{
    let family: nat = if a.is_v6 {
        1
    } else {
        0
    };
    byte_range_values();
    le_round_trip(family, 4);
    le_round_trip(a.port as nat, 2);
    let e = addr_bytes(a);
    assert(e =~= t.subrange(0, e.len() as int));
    assert(forall|i: int| 0 <= i < e.len() ==> t[i] == e[i]);
    assert(t.subrange(0, 4) =~= le_bytes(family, 4));
    assert(t.subrange(4, (4 + a.ip.len()) as int) =~= a.ip);
    assert(t.subrange((4 + a.ip.len()) as int, (6 + a.ip.len()) as int) =~= le_bytes(
        a.port as nat,
        2,
    ));
}

/// At most one row of so many records stands at the start of `s`.
proof fn row_is_unique(s: Seq<u8>, a: Seq<SavedView>, b: Seq<SavedView>)
    requires
        a.len() == b.len(),
        forall|i: int| 0 <= i < a.len() ==> saved_sized(#[trigger] a[i]),
        forall|i: int| 0 <= i < b.len() ==> saved_sized(#[trigger] b[i]),
        row_bytes(a).is_prefix_of(s),
        row_bytes(b).is_prefix_of(s),
    ensures
        a == b,
    decreases a.len(),
{
    if a.len() == 0 {
        assert(a =~= b);
    } else {
        prefix_rest(saved_bytes(a[0]), row_bytes(a.drop_first()), s);
        prefix_rest(saved_bytes(b[0]), row_bytes(b.drop_first()), s);
        assert(saved_sized(a[0]) && saved_sized(b[0]));
        record_is_unique(s, a[0], b[0]);
        let x = a.drop_first();
        let y = b.drop_first();
        assert forall|i: int| 0 <= i < x.len() implies saved_sized(#[trigger] x[i]) by {
            assert(x[i] == a[i + 1]);
        }
        assert forall|i: int| 0 <= i < y.len() implies saved_sized(#[trigger] y[i]) by {
            assert(y[i] == b[i + 1]);
        }
        row_is_unique(s.skip(saved_bytes(a[0]).len() as int), x, y);
        assert(a =~= seq![a[0]] + x);
        assert(b =~= seq![b[0]] + y);
    }
}

/// At most one snapshot stands at the start of `s`.
proof fn snapshot_is_unique(s: Seq<u8>, a: Seq<SavedView>, b: Seq<SavedView>)
    requires
        holds_snapshot(s, a),
        holds_snapshot(s, b),
    ensures
        a == b,
{
    byte_range_values();
    le_round_trip(a.len(), 8);
    le_round_trip(b.len(), 8);
    prefix_rest(le_bytes(a.len(), 8), row_bytes(a), s);
    prefix_rest(le_bytes(b.len(), 8), row_bytes(b), s);
    assert(le_bytes(a.len(), 8) =~= s.subrange(0, 8));
    assert(le_bytes(b.len(), 8) =~= s.subrange(0, 8));
    row_is_unique(s.skip(8), a, b);
}

/// Loading a saved snapshot gives its records back, in order, whatever
/// bytes follow it.
pub proof fn snapshot_round_trip(list: Seq<SavedView>, rest: Seq<u8>)
    requires
        list_sized(list),
    ensures
        parse_snapshot(snapshot_bytes(list) + rest) == Some(list),
{
    let s = snapshot_bytes(list) + rest;
    assert(snapshot_bytes(list) =~= s.subrange(0, snapshot_bytes(list).len() as int));
    assert(holds_snapshot(s, list));
    let found = choose|l: Seq<SavedView>| holds_snapshot(s, l);
    snapshot_is_unique(s, found, list);
}

// ── Outside calls ──────────────────────────────────────────────────────────

/// A record as plain values: key, address of one of two families, signature.
pub type RawRecord = (Vec<u8>, Result<([u8; 4], u16), ([u8; 16], u16)>, Vec<u8>);

/// What a raw record holds.
pub open spec fn raw_view(r: RawRecord) -> SavedView {
    SavedView {
        public_key: r.0@,
        addr: match r.1 {
            Ok(a) => AddrView { is_v6: false, ip: a.0@, port: a.1 },
            Err(a) => AddrView { is_v6: true, ip: a.0@, port: a.1 },
        },
        signature: r.2@,
    }
}

/// What raw records hold.
pub open spec fn raw_views(list: Seq<RawRecord>) -> Seq<SavedView> {
    list.map_values(|r: RawRecord| raw_view(r))
}

/// `bincode::serialize` on raw records: a 64-bit count, then each record's
/// fields; a two-way choice as a 32-bit variant number, zero for the first.
/// Never fails.
#[verifier::external_body]
fn bincode_serialize_records(list: &Vec<RawRecord>) -> (out: Result<Vec<u8>, bincode::Error>)
    ensures
        out is Ok,
        out->Ok_0@ == snapshot_bytes(raw_views(list@)),
{
    bincode::serialize(list)
}

/// `bincode::deserialize` into raw records: it succeeds exactly on bytes
/// that start with encoded records, returns those, and ignores what
/// follows.
#[verifier::external_body]
fn bincode_deserialize_records(bytes: &[u8]) -> (out: Result<Vec<RawRecord>, bincode::Error>)
    ensures
        out matches Ok(list) ==> holds_snapshot(bytes@, raw_views(list@)),
        out is Err ==> forall|list: Seq<SavedView>| !holds_snapshot(bytes@, list),
{
    bincode::deserialize(bytes)
}

// ── Saving and loading ─────────────────────────────────────────────────────

/// The content of a snapshot of `records`.
pub fn save(records: &Vec<SnapshotRecord>) -> (out: Result<Vec<u8>, WireError>)
    ensures
        out matches Ok(b) && b@ == snapshot_bytes(saved(records@)),
{
    let mut raw: Vec<RawRecord> = Vec::new();
    let mut i: usize = 0;
    while i < records.len()
        invariant
            i <= records@.len(),
            raw_views(raw@) == saved(records@.subrange(0, i as int)),
        decreases records@.len() - i,
    {
        let ghost before = raw_views(raw@);
        let r = &records[i];
        let addr: Result<([u8; 4], u16), ([u8; 16], u16)> = match r.addr {
            SnapshotAddr::V4 { ip, port } => Ok((ip, port)),
            SnapshotAddr::V6 { ip, port } => Err((ip, port)),
        };
        let entry: RawRecord = (
            copy_bytes(r.public_key.as_slice()),
            addr,
            copy_bytes(r.signature.as_slice()),
        );
        assert(raw_view(entry) =~= r@);
        raw.push(entry);
        assert(raw_views(raw@) =~= before.push(r@));
        assert(saved(records@.subrange(0, i + 1)) =~= saved(records@.subrange(0, i as int)).push(
            r@,
        ));
        i = i + 1;
    }
    assert(records@.subrange(0, i as int) =~= records@);
    match bincode_serialize_records(&raw) {
        Ok(bytes) => Ok(bytes),
        Err(_) => Err(WireError::MalformedMessage),
    }
}

/// The records in a snapshot file's content. A file that is missing, could
/// not be read, or does not parse gives none.
pub fn load(content: Option<&[u8]>) -> (out: Vec<SnapshotRecord>)
    ensures
        saved(out@) == match content {
            None => Seq::empty(),
            Some(bytes) => match parse_snapshot(bytes@) {
                Some(list) => list,
                None => Seq::empty(),
            },
        },
{
    let mut out: Vec<SnapshotRecord> = Vec::new();
    assert(saved(out@) =~= Seq::empty());
    let bytes = match content {
        Some(bytes) => bytes,
        None => return out,
    };
    let mut raw = match bincode_deserialize_records(bytes) {
        Ok(raw) => raw,
        Err(_) => return out,
    };
    let ghost all = raw_views(raw@);
    proof {
        let found = choose|l: Seq<SavedView>| holds_snapshot(bytes@, l);
        snapshot_is_unique(bytes@, found, all);
        assert(saved(out@) + raw_views(raw@) =~= all);
    }
    while raw.len() > 0
        invariant
            saved(out@) + raw_views(raw@) == all,
        decreases raw@.len(),
    {
        let ghost before = saved(out@);
        let ghost todo = raw_views(raw@);
        let (public_key, addr, signature) = raw.remove(0);
        let addr = match addr {
            Ok((ip, port)) => SnapshotAddr::V4 { ip, port },
            Err((ip, port)) => SnapshotAddr::V6 { ip, port },
        };
        let record = SnapshotRecord { public_key, addr, signature };
        let ghost added = record@;
        assert(added =~= todo[0]);
        out.push(record);
        assert(saved(out@) =~= before.push(added));
        assert(raw_views(raw@) =~= todo.drop_first());
        assert(saved(out@) + raw_views(raw@) =~= before + todo);
    }
    assert(saved(out@) =~= all);
    out
}

} // verus!
