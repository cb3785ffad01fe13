//! Internet bootstrap through configured seed nodes.
//!
//! Seeds come from command-line arguments, files and environment variables.
//! Every seed is dialed once, in order; a seed that cannot be reached never
//! stops the others. With at least one seed reached, the node looks up its
//! own identifier to fill the routing table. Files are read and addresses
//! dialed elsewhere.
use vstd::prelude::*;
use vstd::string::*;
use vstd::utf8::{encode_utf8, encode_utf8_decode_utf8};

use crate::order::{filter_selects, is_selection, places};
use crate::peer::NodeAddr;
use crate::text::{same_text, split, split_text, texts, trim, trimmed};

verus! {

/// Seconds after which the dial of one seed is given up.
pub const SEED_DIAL_TIMEOUT: u64 = 8;

/// Environment variable with comma-separated seeds.
pub const SEEDS_ENV_VAR: &'static str = "PRIMUS_SEEDS";

/// Environment variable with the path of a seeds file.
pub const SEEDS_FILE_ENV_VAR: &'static str = "PRIMUS_SEEDS_FILE";

/// Where seeds come from.
#[derive(Debug)]
pub enum SeedSource {
    /// One address.
    Entry(String),
    /// The path of a file of addresses.
    File(String),
}

/// Where seeds come from, as mathematical values.
pub enum SourceView {
    Entry(Seq<char>),
    File(Seq<char>),
}

impl View for SeedSource {
    type V = SourceView;

    open spec fn view(&self) -> SourceView {
        match self {
            SeedSource::Entry(s) => SourceView::Entry(s@),
            SeedSource::File(s) => SourceView::File(s@),
        }
    }
}

/// What the sources of a list hold.
pub open spec fn sources(list: Seq<SeedSource>) -> Seq<SourceView> {
    list.map_values(|s: SeedSource| s@)
}

// ── Sources ────────────────────────────────────────────────────────────────

/// The sources named in command-line arguments: the value behind each
/// `--seed` and `--seeds-file`. One without a value names nothing.
pub open spec fn arg_sources(args: Seq<Seq<char>>) -> Seq<SourceView>
    decreases args.len(),
{
    if args.len() == 0 {
        Seq::empty()
    } else if args[0] == "--seed"@ {
        if args.len() > 1 {
            seq![SourceView::Entry(args[1])] + arg_sources(args.skip(2))
        } else {
            Seq::empty()
        }
    } else if args[0] == "--seeds-file"@ {
        if args.len() > 1 {
            seq![SourceView::File(args[1])] + arg_sources(args.skip(2))
        } else {
            Seq::empty()
        }
    } else {
        arg_sources(args.skip(1))
    }
}

/// Whether a comma-separated part names a seed.
pub open spec fn is_entry(part: Seq<char>) -> bool {
    part.len() > 0
}

/// Whether a line of a seeds file names a seed: it is neither empty nor a
/// comment.
pub open spec fn is_seed_line(line: Seq<char>) -> bool {
    line.len() > 0 && line[0] != '#'
}

/// Parts without white space around them.
pub open spec fn trimmed_parts(parts: Seq<Seq<char>>) -> Seq<Seq<char>> {
    parts.map_values(|p: Seq<char>| trim(p))
}

/// The seeds in a comma-separated list.
pub open spec fn list_entries(value: Seq<char>) -> Seq<Seq<char>> {
    trimmed_parts(split(value, ',')).filter(|p: Seq<char>| is_entry(p))
}

/// The seeds in a seeds file.
pub open spec fn file_entries(contents: Seq<char>) -> Seq<Seq<char>> {
    trimmed_parts(split(contents, '\n')).filter(|p: Seq<char>| is_seed_line(p))
}

/// Entries as sources.
pub open spec fn entry_sources(entries: Seq<Seq<char>>) -> Seq<SourceView> {
    entries.map_values(|e: Seq<char>| SourceView::Entry(e))
}

/// All sources, in order of precedence.
pub open spec fn all_sources(
    args: Seq<Seq<char>>,
    seeds_var: Option<Seq<char>>,
    file_var: Option<Seq<char>>,
) -> Seq<SourceView> {
    arg_sources(args) + (match seeds_var {
        Some(value) => entry_sources(list_entries(value)),
        None => Seq::empty(),
    }) + (match file_var {
        Some(path) => seq![SourceView::File(path)],
        None => Seq::empty(),
    })
}

/// The sources named in command-line arguments.
fn sources_from_args(args: &Vec<String>) -> (out: Vec<SeedSource>)
    ensures
        sources(out@) == arg_sources(texts(args@)),
{
    let mut out: Vec<SeedSource> = Vec::new();
    let ghost all = texts(args@);
    let mut i: usize = 0;
    assert(all.skip(0) =~= all);
    assert(sources(out@) + arg_sources(all.skip(0)) =~= arg_sources(all));
    while i < args.len()
        invariant
            i <= args@.len(),
            all == texts(args@),
            sources(out@) + arg_sources(all.skip(i as int)) == arg_sources(all),
        decreases args@.len() - i,
    {
        let ghost rest = all.skip(i as int);
        let ghost done = sources(out@);
        assert(rest[0] == args@[i as int]@);
        assert(rest.skip(1) =~= all.skip(i + 1));
        let is_seed = same_text(args[i].as_str(), "--seed");
        let is_file = same_text(args[i].as_str(), "--seeds-file");
        if is_seed || is_file {
            if args.len() - i < 2 {
                assert(sources(out@) =~= arg_sources(all));
                return out;
            }
            assert(rest[1] == args@[i + 1]@);
            assert(rest.skip(2) =~= all.skip(i + 2));
            let source = if is_seed {
                SeedSource::Entry(args[i + 1].clone())
            } else {
                SeedSource::File(args[i + 1].clone())
            };
            let ghost added = source@;
            out.push(source);
            assert(sources(out@) =~= done.push(added));
            assert(done + (seq![added] + arg_sources(rest.skip(2))) =~= sources(out@)
                + arg_sources(rest.skip(2)));
            i = i + 2;
        } else {
            i = i + 1;
        }
    }
    assert(sources(out@) =~= arg_sources(all));
    out
}

/// `filter` on one more element at the end.
proof fn filter_push(s: Seq<Seq<char>>, e: Seq<char>, p: spec_fn(Seq<char>) -> bool)
    ensures
        s.push(e).filter(p) == if p(e) {
            s.filter(p).push(e)
        } else {
            s.filter(p)
        },
{
    reveal(Seq::filter);
    assert(s.push(e).drop_last() =~= s);
}

/// The trimmed parts that name a seed. `comments` says whether a part that
/// starts with `#` does not.
fn kept_parts(parts: &Vec<String>, comments: bool) -> (out: Vec<String>)
    ensures
        texts(out@) == trimmed_parts(texts(parts@)).filter(
            if comments {
                |p: Seq<char>| is_seed_line(p)
            } else {
                |p: Seq<char>| is_entry(p)
            },
        ),
{
    let ghost keep = if comments {
        |p: Seq<char>| is_seed_line(p)
    } else {
        |p: Seq<char>| is_entry(p)
    };
    let ghost all = trimmed_parts(texts(parts@));
    let mut out: Vec<String> = Vec::new();
    let mut i: usize = 0;
    proof {
        reveal(Seq::filter);
        assert(all.subrange(0, 0).filter(keep) =~= Seq::empty());
        assert(texts(out@) =~= Seq::empty());
    }
    while i < parts.len()
        invariant
            i <= parts@.len(),
            all == trimmed_parts(texts(parts@)),
            keep == if comments {
                |p: Seq<char>| is_seed_line(p)
            } else {
                |p: Seq<char>| is_entry(p)
            },
            texts(out@) == all.subrange(0, i as int).filter(keep),
        decreases parts@.len() - i,
    {
        let part = trimmed(parts[i].as_str());
        proof {
            assert(part@ == all[i as int]);
            assert(all.subrange(0, i + 1) =~= all.subrange(0, i as int).push(part@));
            filter_push(all.subrange(0, i as int), part@, keep);
        }
        let n: usize = part.as_str().unicode_len();
        if n > 0 && !(comments && part.as_str().get_char(0) == '#') {
            let ghost kept = texts(out@);
            let ghost added = part@;
            out.push(part);
            assert(texts(out@) =~= kept.push(added));
        }
        i = i + 1;
    }
    assert(all.subrange(0, i as int) =~= all);
    out
}

/// The seeds in a comma-separated list. Empty parts name none.
pub fn seeds_in_list(value: &str) -> (out: Vec<String>)
    ensures
        texts(out@) == list_entries(value@),
{
    kept_parts(&split_text(value, ','), false)
}

/// The seeds in a seeds file, one per line. Empty lines and comments name
/// none.
pub fn seeds_in_file(contents: &str) -> (out: Vec<String>)
    ensures
        texts(out@) == file_entries(contents@),
{
    kept_parts(&split_text(contents, '\n'), true)
}

/// All sources of seeds: arguments, then the two environment variables.
pub fn seed_sources(args: &Vec<String>, seeds_var: Option<&str>, file_var: Option<&str>) -> (out:
    Vec<SeedSource>)
    ensures
        sources(out@) == all_sources(
            texts(args@),
            match seeds_var {
                Some(v) => Some(v@),
                None => None,
            },
            match file_var {
                Some(v) => Some(v@),
                None => None,
            },
        ),
{
    let mut out = sources_from_args(args);
    let ghost from_args = sources(out@);
    let ghost mut from_var = Seq::<SourceView>::empty();
    if let Some(value) = seeds_var {
        let mut entries = seeds_in_list(value);
        let ghost all = texts(entries@);
        proof {
            from_var = entry_sources(all);
        }
        assert(sources(out@) + entry_sources(all) =~= from_args + from_var);
        while entries.len() > 0
            invariant
                sources(out@) + entry_sources(texts(entries@)) == from_args + from_var,
            decreases entries@.len(),
        {
            let ghost before = sources(out@);
            let ghost todo = texts(entries@);
            let entry = entries.remove(0);
            let ghost added = SourceView::Entry(entry@);
            out.push(SeedSource::Entry(entry));
            assert(sources(out@) =~= before.push(added));
            assert(texts(entries@) =~= todo.drop_first());
            assert(sources(out@) + entry_sources(texts(entries@)) =~= before + entry_sources(todo));
        }
        assert(sources(out@) =~= from_args + from_var);
    }
    assert(sources(out@) =~= from_args + from_var);
    if let Some(path) = file_var {
        let ghost before = sources(out@);
        out.push(SeedSource::File(String::from_str(path)));
        assert(sources(out@) =~= before + seq![SourceView::File(path@)]);
    } else {
        assert(sources(out@) =~= from_args + from_var + Seq::<SourceView>::empty());
    }
    out
}

// ── Order ──────────────────────────────────────────────────────────────────

/// Whether `a` comes before `b` byte by byte.
pub open spec fn bytes_less(a: Seq<u8>, b: Seq<u8>) -> bool
    decreases a.len(),
{
    if b.len() == 0 {
        false
    } else if a.len() == 0 {
        true
    } else if a[0] != b[0] {
        a[0] < b[0]
    } else {
        bytes_less(a.drop_first(), b.drop_first())
    }
}

/// Whether text `a` comes before text `b`.
pub open spec fn text_less(a: Seq<char>, b: Seq<char>) -> bool {
    bytes_less(encode_utf8(a), encode_utf8(b))
}

/// Of two different byte strings one comes first.
proof fn bytes_less_total(a: Seq<u8>, b: Seq<u8>)
    ensures
        bytes_less(a, b) || bytes_less(b, a) || a == b,
    decreases a.len(),
{
    if a.len() > 0 && b.len() > 0 && a[0] == b[0] {
        bytes_less_total(a.drop_first(), b.drop_first());
        if a.drop_first() == b.drop_first() {
            assert(a =~= seq![a[0]] + a.drop_first());
            assert(b =~= seq![b[0]] + b.drop_first());
        }
    } else if a.len() == 0 && b.len() == 0 {
        assert(a =~= b);
    }
}

/// The order is transitive.
proof fn bytes_less_trans(a: Seq<u8>, b: Seq<u8>, c: Seq<u8>)
    requires
        bytes_less(a, b),
        bytes_less(b, c),
    ensures
        bytes_less(a, c),
    decreases a.len(),
{
    if a.len() > 0 && b.len() > 0 && c.len() > 0 && a[0] == b[0] && b[0] == c[0] {
        bytes_less_trans(a.drop_first(), b.drop_first(), c.drop_first());
    }
}

/// Nothing comes before itself.
proof fn bytes_less_irreflexive(a: Seq<u8>)
    ensures
        !bytes_less(a, a),
    decreases a.len(),
{
    if a.len() > 0 {
        bytes_less_irreflexive(a.drop_first());
    }
}

/// Whether `a` comes before `b`.
fn comes_before(a: &str, b: &str) -> (r: bool)
    ensures
        r == text_less(a@, b@),
{
    let x = a.as_bytes();
    let y = b.as_bytes();
    let mut i: usize = 0;
    assert(x@.skip(0) =~= x@);
    assert(y@.skip(0) =~= y@);
    while i < x.len() && i < y.len() && x[i] == y[i]
        invariant
            x@ == encode_utf8(a@),
            y@ == encode_utf8(b@),
            i <= x@.len(),
            i <= y@.len(),
            bytes_less(x@, y@) == bytes_less(x@.skip(i as int), y@.skip(i as int)),
        decreases x@.len() - i,
    {
        assert(x@.skip(i as int).drop_first() =~= x@.skip(i + 1));
        assert(y@.skip(i as int).drop_first() =~= y@.skip(i + 1));
        i = i + 1;
    }
    if i == y.len() {
        return false;
    }
    if i == x.len() {
        return true;
    }
    x[i] < y[i]
}

/// Whether each text comes before the next: sorted, and nothing twice.
pub open spec fn ascending(list: Seq<Seq<char>>) -> bool {
    forall|i: int, j: int|
        0 <= i < j < list.len() ==> text_less(#[trigger] list[i], #[trigger] list[j])
}

/// Puts `addr` where it belongs in `list`, unless it is there.
fn insert_ascending(list: &mut Vec<NodeAddr>, addr: NodeAddr)
    requires
        ascending(texts(old(list)@)),
    ensures
        ascending(texts(final(list)@)),
        forall|t: Seq<char>|
            texts(final(list)@).contains(t) <==> texts(old(list)@).contains(t) || t == addr@,
{
    let ghost before = texts(list@);
    let mut i: usize = 0;
    while i < list.len() && comes_before(list[i].as_str(), addr.as_str())
        invariant
            i <= list@.len(),
            before == texts(list@),
            forall|j: int| 0 <= j < i ==> text_less(#[trigger] before[j], addr@),
        decreases list@.len() - i,
    {
        assert(before[i as int] == list@[i as int]@);
        i = i + 1;
    }
    if i < list.len() {
        assert(before[i as int] == list@[i as int]@);
        if same_text(list[i].as_str(), addr.as_str()) {
            assert(before.contains(addr@));
            return;
        }
    }
    let ghost t = addr@;
    list.insert(i, addr);
    let ghost after = texts(list@);
    proof {
        assert(after =~= before.insert(i as int, t));
        if i < before.len() {
            encode_utf8_decode_utf8(before[i as int]);
            encode_utf8_decode_utf8(t);
            bytes_less_total(encode_utf8(before[i as int]), encode_utf8(t));
        }
        assert forall|j: int| i <= j < before.len() implies text_less(t, #[trigger] before[j]) by {
            if j > i {
                bytes_less_trans(
                    encode_utf8(t),
                    encode_utf8(before[i as int]),
                    encode_utf8(before[j]),
                );
            }
        }
        assert forall|j: int, k: int| 0 <= j < k < after.len() implies text_less(
            #[trigger] after[j],
            #[trigger] after[k],
        ) by {
            let oj = if j < i { j } else { j - 1 };
            let ok = if k < i { k } else { k - 1 };
            if j == i {
                assert(text_less(t, before[k - 1]));
            } else if k == i {
                assert(text_less(before[j], t));
            } else {
                assert(text_less(before[oj], before[ok]));
            }
        }
        assert forall|x: Seq<char>| after.contains(x) <==> before.contains(x) || x == t by {
            if before.contains(x) {
                let o = choose|o: int| 0 <= o < before.len() && before[o] == x;
                assert(after[if o < i { o } else { o + 1 }] == x);
            }
            if x == t {
                assert(after[i as int] == x);
            }
            if after.contains(x) {
                let o = choose|o: int| 0 <= o < after.len() && after[o] == x;
                if o < i {
                    assert(before[o] == x);
                } else if o > i {
                    assert(before[o - 1] == x);
                }
            }
        }
    }
}

/// Whether `list` holds the address texts that were resolved, and no other.
pub open spec fn holds_resolved(list: Seq<Seq<char>>, resolved: Seq<Option<String>>) -> bool {
    forall|t: Seq<char>| #[trigger]
        list.contains(t) <==> exists|i: int|
            0 <= i < resolved.len() && (#[trigger] resolved[i] matches Some(s) && s@ == t)
}

/// The seed list: the addresses that parsed, sorted by their text, each
/// once. What did not parse is passed over.
pub fn load_seeds(resolved: &Vec<Option<NodeAddr>>) -> (out: Vec<NodeAddr>)
    ensures
        ascending(texts(out@)),
        holds_resolved(texts(out@), resolved@),
{
    let mut out: Vec<NodeAddr> = Vec::new();
    let mut i: usize = 0;
    while i < resolved.len()
        invariant
            i <= resolved@.len(),
            ascending(texts(out@)),
            forall|t: Seq<char>| #[trigger]
                texts(out@).contains(t) <==> exists|j: int|
                    0 <= j < i && (#[trigger] resolved@[j] matches Some(s) && s@ == t),
        decreases resolved@.len() - i,
    {
        let ghost before = texts(out@);
        match &resolved[i] {
            Some(addr) => {
                insert_ascending(&mut out, addr.clone());
            },
            None => {},
        }
        proof {
            let after = texts(out@);
            assert forall|t: Seq<char>| #[trigger] after.contains(t) <==> exists|j: int|
                0 <= j < i + 1 && (#[trigger] resolved@[j] matches Some(s) && s@ == t) by {
                if after.contains(t) {
                    if before.contains(t) {
                        let j = choose|j: int|
                            0 <= j < i && (#[trigger] resolved@[j] matches Some(s) && s@ == t);
                        assert(resolved@[j] matches Some(s) && s@ == t);
                    } else {
                        assert(resolved@[i as int] matches Some(s) && s@ == t);
                    }
                }
                if exists|j: int|
                    0 <= j < i + 1 && (#[trigger] resolved@[j] matches Some(s) && s@ == t) {
                    let j = choose|j: int|
                        0 <= j < i + 1 && (#[trigger] resolved@[j] matches Some(s) && s@ == t);
                    if j < i {
                        assert(before.contains(t));
                    }
                }
            }
        }
        i = i + 1;
    }
    out
}

/// The list with each of `more` behind it that is not in it yet.
pub open spec fn merged(list: Seq<Seq<char>>, more: Seq<Seq<char>>) -> Seq<Seq<char>>
    decreases more.len(),
{
    if more.len() == 0 {
        list
    } else {
        let m = merged(list, more.drop_last());
        if m.contains(more.last()) {
            m
        } else {
            m.push(more.last())
        }
    }
}

/// Adds the addresses of the last session's peers to the seeds, behind the
/// configured ones and without doubles.
pub fn merge_seeds(seeds: &mut Vec<NodeAddr>, more: &Vec<NodeAddr>)
    ensures
        texts(final(seeds)@) == merged(texts(old(seeds)@), texts(more@)),
{
    let ghost all = texts(more@);
    let mut i: usize = 0;
    assert(all.subrange(0, 0) =~= Seq::empty());
    while i < more.len()
        invariant
            i <= more@.len(),
            all == texts(more@),
            texts(seeds@) == merged(texts(old(seeds)@), all.subrange(0, i as int)),
        decreases more@.len() - i,
    {
        proof {
            let next = all.subrange(0, i + 1);
            assert(next.drop_last() =~= all.subrange(0, i as int));
            assert(next.last() == more@[i as int]@);
        }
        if !contains_text(seeds, more[i].as_str()) {
            let ghost before = texts(seeds@);
            seeds.push(more[i].clone());
            assert(texts(seeds@) =~= before.push(more@[i as int]@));
        }
        i = i + 1;
    }
    assert(all.subrange(0, i as int) =~= all);
}

/// Whether `list` holds the text `t`.
fn contains_text(list: &Vec<String>, t: &str) -> (r: bool)
    ensures
        r == texts(list@).contains(t@),
{
    let mut i: usize = 0;
    while i < list.len()
        invariant
            i <= list@.len(),
            forall|j: int| 0 <= j < i ==> (#[trigger] list@[j])@ != t@,
        decreases list@.len() - i,
    {
        if same_text(list[i].as_str(), t) {
            assert(texts(list@)[i as int] == t@);
            return true;
        }
        i = i + 1;
    }
    assert forall|j: int| 0 <= j < list@.len() implies (#[trigger] texts(list@)[j]) != t@ by {
        assert(list@[j]@ != t@);
    }
    false
}

// ── Bootstrap ──────────────────────────────────────────────────────────────

/// What is to be done next in a bootstrap.
#[derive(Debug)]
pub enum BootstrapAction {
    /// Dial the seed.
    Dial(NodeAddr),
    /// Look up this node's own identifier.
    SelfLookup,
    /// Nothing: the bootstrap is over.
    Finished,
}

/// What is to be done next, as mathematical values.
pub enum BootstrapActionView {
    Dial(Seq<char>),
    SelfLookup,
    Finished,
}

impl View for BootstrapAction {
    type V = BootstrapActionView;

    open spec fn view(&self) -> BootstrapActionView {
        match self {
            BootstrapAction::Dial(a) => BootstrapActionView::Dial(a@),
            BootstrapAction::SelfLookup => BootstrapActionView::SelfLookup,
            BootstrapAction::Finished => BootstrapActionView::Finished,
        }
    }
}

/// The startup bootstrap.
pub struct Bootstrap {
    seeds: Vec<NodeAddr>,
    dialed: usize,
    connected: usize,
    looked_up: bool,
}

/// What a `Bootstrap` holds, as mathematical values.
#[verifier::ext_equal]
pub struct BootstrapView {
    pub seeds: Seq<Seq<char>>,
    /// How many seeds were dialed.
    pub dialed: nat,
    /// How many of them were reached.
    pub connected: nat,
    pub looked_up: bool,
}

impl View for Bootstrap {
    type V = BootstrapView;

    closed spec fn view(&self) -> BootstrapView {
        BootstrapView {
            seeds: texts(self.seeds@),
            dialed: self.dialed as nat,
            connected: self.connected as nat,
            looked_up: self.looked_up,
        }
    }
}

/// What is to be done next.
pub open spec fn bootstrap_action(b: BootstrapView) -> BootstrapActionView {
    if b.dialed < b.seeds.len() {
        BootstrapActionView::Dial(b.seeds[b.dialed as int])
    } else if b.connected > 0 && !b.looked_up {
        BootstrapActionView::SelfLookup
    } else {
        BootstrapActionView::Finished
    }
}

/// The bootstrap after the next seed was dialed.
pub open spec fn bootstrap_dialed(b: BootstrapView, reached: bool) -> BootstrapView {
    BootstrapView {
        dialed: b.dialed + 1,
        connected: if reached {
            b.connected + 1
        } else {
            b.connected
        },
        ..b
    }
}

/// Starts a bootstrap over `seeds`.
pub fn bootstrap(seeds: Vec<NodeAddr>) -> (out: Bootstrap)
    ensures
        out.wf(),
        out@ == (BootstrapView {
            seeds: texts(seeds@),
            dialed: 0,
            connected: 0,
            looked_up: false,
        }),
{
    Bootstrap { seeds, dialed: 0, connected: 0, looked_up: false }
}

impl Bootstrap {
    /// No more seeds were reached than dialed, and none was dialed twice.
    pub closed spec fn wf(self) -> bool {
        self.connected <= self.dialed <= self.seeds@.len()
    }

    /// What is to be done next.
    pub fn action(&self) -> (out: BootstrapAction)
        requires
            self.wf(),
        ensures
            out@ == bootstrap_action(self@),
    {
        if self.dialed < self.seeds.len() {
            BootstrapAction::Dial(self.seeds[self.dialed].clone())
        } else if self.connected > 0 && !self.looked_up {
            BootstrapAction::SelfLookup
        } else {
            BootstrapAction::Finished
        }
    }

    /// Takes note of how the dial went. A seed that was connected already
    /// counts as reached. Does nothing where no dial is due.
    pub fn on_dialed(&mut self, reached: bool)
        requires
            old(self).wf(),
        ensures
            final(self).wf(),
            final(self)@ == if bootstrap_action(old(self)@) is Dial {
                bootstrap_dialed(old(self)@, reached)
            } else {
                old(self)@
            },
    {
        if self.dialed < self.seeds.len() {
            self.dialed = self.dialed + 1;
            if reached {
                self.connected = self.connected + 1;
            }
        }
    }

    /// Takes note that the own identifier was looked up. Does nothing where
    /// no lookup is due.
    pub fn on_looked_up(&mut self)
        requires
            old(self).wf(),
        ensures
            final(self).wf(),
            final(self)@ == if bootstrap_action(old(self)@) is SelfLookup {
                (BootstrapView { looked_up: true, ..old(self)@ })
            } else {
                old(self)@
            },
    {
        if self.dialed == self.seeds.len() && self.connected > 0 {
            self.looked_up = true;
        }
    }

    /// How many seeds were reached.
    pub fn connected(&self) -> (out: usize)
        ensures
            out == self@.connected,
    {
        self.connected
    }
}

// ── Laws ───────────────────────────────────────────────────────────────────

/// How many of the dials reached their seed.
pub open spec fn reached_count(oks: Seq<bool>) -> nat
    decreases oks.len(),
{
    if oks.len() == 0 {
        0
    } else {
        reached_count(oks.drop_last()) + if oks.last() {
            1nat
        } else {
            0nat
        }
    }
}

/// A bootstrap after each of the dials in turn.
pub open spec fn after_dials(b: BootstrapView, oks: Seq<bool>) -> BootstrapView
    decreases oks.len(),
{
    if oks.len() == 0 {
        b
    } else {
        bootstrap_dialed(after_dials(b, oks.drop_last()), oks.last())
    }
}

/// Every seed is dialed once, in order, however the dials before it went;
/// after the last one the own identifier is looked up exactly where at
/// least one seed was reached.
pub proof fn every_seed_is_dialed(seeds: Seq<Seq<char>>, oks: Seq<bool>)
    requires
        oks.len() <= seeds.len(),
    ensures
        ({
            let b = after_dials(
                BootstrapView { seeds, dialed: 0, connected: 0, looked_up: false },
                oks,
            );
            &&& b.seeds == seeds
            &&& b.dialed == oks.len()
            &&& b.connected == reached_count(oks)
            &&& !b.looked_up
            &&& oks.len() < seeds.len() ==> bootstrap_action(b) == BootstrapActionView::Dial(
                seeds[oks.len() as int],
            )
            &&& oks.len() == seeds.len() ==> bootstrap_action(b) == if oks.contains(true) {
                BootstrapActionView::SelfLookup
            } else {
                BootstrapActionView::Finished
            }
        }),
    decreases oks.len(),
{
    reached_iff_any(oks);
    if oks.len() > 0 {
        every_seed_is_dialed(seeds, oks.drop_last());
    }
}

/// Some dial reached its seed exactly where the count is not zero.
proof fn reached_iff_any(oks: Seq<bool>)
    ensures
        reached_count(oks) > 0 <==> oks.contains(true),
    decreases oks.len(),
{
    if oks.len() > 0 {
        reached_iff_any(oks.drop_last());
        if oks.contains(true) && !oks.last() {
            let i = choose|i: int| 0 <= i < oks.len() && oks[i] == true;
            assert(oks.drop_last()[i]);
        }
        if oks.drop_last().contains(true) {
            let i = choose|i: int| 0 <= i < oks.len() - 1 && oks.drop_last()[i] == true;
            assert(oks[i]);
        }
        if oks.last() {
            assert(oks[oks.len() - 1]);
        }
    }
}

/// Merging keeps the list as it was and puts behind it exactly those of the
/// added addresses that it did not hold, each once, in the order in which
/// they first come.
pub proof fn merging_adds_what_is_missing(list: Seq<Seq<char>>, more: Seq<Seq<char>>)
    ensures
        list.is_prefix_of(merged(list, more)),
        forall|a: Seq<char>| #[trigger]
            merged(list, more).contains(a) <==> list.contains(a) || more.contains(a),
        forall|i: int, j: int|
            0 <= i < j < merged(list, more).len() && list.len() <= j ==> #[trigger] merged(
                list,
                more,
            )[i] != #[trigger] merged(list, more)[j],
        exists|at: Seq<int>| #[trigger]
            is_selection(merged(list, more).skip(list.len() as int), more, at) && forall|k: int|
                #![trigger more[k]]
                0 <= k < more.len() ==> (at.contains(k) <==> !list.contains(more[k]) && !more.take(
                    k,
                ).contains(more[k])),
    decreases more.len(),
{
    let m = merged(list, more);
    let n = list.len() as int;
    if more.len() == 0 {
        assert(list =~= m.subrange(0, n));
        assert(is_selection(m.skip(n), more, Seq::empty()));
        assert forall|a: Seq<char>| #[trigger] m.contains(a) <==> list.contains(a)
            || more.contains(a) by {
            assert(!more.contains(a));
        }
    } else {
        let init = more.drop_last();
        let last = more.last();
        let w = merged(list, init);
        merging_adds_what_is_missing(list, init);
        let at = choose|at: Seq<int>| #[trigger]
            is_selection(w.skip(n), init, at) && forall|k: int|
                #![trigger init[k]]
                0 <= k < init.len() ==> (at.contains(k) <==> !list.contains(init[k]) && !init.take(
                    k,
                ).contains(init[k]));
        let added = !w.contains(last);
        let end = more.len() - 1;
        let now = if added {
            at.push(end)
        } else {
            at
        };
        assert(m == if added {
            w.push(last)
        } else {
            w
        });
        assert(w.subrange(0, n) =~= list);
        assert(m.subrange(0, n) =~= list);
        assert(more.take(end) =~= init);
        assert forall|a: Seq<char>| #[trigger] m.contains(a) <==> list.contains(a)
            || more.contains(a) by {
            contains_at_end(init, last, a);
            assert(init.push(last) =~= more);
            if added {
                contains_at_end(w, last, a);
            }
        }
        assert(m.skip(n) =~= if added {
            w.skip(n).push(last)
        } else {
            w.skip(n)
        });
        assert(is_selection(m.skip(n), more, now)) by {
            assert forall|i: int| 0 <= i < now.len() implies 0 <= #[trigger] now[i] < more.len()
                && m.skip(n)[i] == more[now[i]] by {
                if i < at.len() {
                    assert(now[i] == at[i]);
                    assert(w.skip(n)[i] == init[at[i]]);
                }
            }
            assert forall|i: int, j: int| 0 <= i < j < now.len() implies #[trigger] now[i]
                < #[trigger] now[j] by {
                assert(now[i] == at[i]);
                if j < at.len() {
                    assert(now[j] == at[j]);
                }
            }
        }
        assert forall|k: int| #![trigger more[k]] 0 <= k < more.len() implies (now.contains(k)
            <==> !list.contains(more[k]) && !more.take(k).contains(more[k])) by {
            if k < end {
                assert(init[k] == more[k]);
                assert(init.take(k) =~= more.take(k));
                if added {
                    contains_place(at, end, k);
                }
            } else {
                assert(w.contains(last) <==> list.contains(last) || init.contains(last));
                if added {
                    assert(now[at.len() as int] == end);
                } else if now.contains(end) {
                    let i = choose|i: int| 0 <= i < at.len() && at[i] == end;
                    assert(at[i] < init.len());
                }
            }
        }
    }
}

/// One more element at the end.
proof fn contains_at_end(s: Seq<Seq<char>>, e: Seq<char>, a: Seq<char>)
    ensures
        s.push(e).contains(a) <==> s.contains(a) || a == e,
{
    if s.contains(a) {
        let i = choose|i: int| 0 <= i < s.len() && s[i] == a;
        assert(s.push(e)[i] == a);
    }
    if a == e {
        assert(s.push(e)[s.len() as int] == a);
    }
}

/// One more place at the end.
proof fn contains_place(at: Seq<int>, end: int, k: int)
    requires
        k != end,
    ensures
        at.push(end).contains(k) <==> at.contains(k),
{
    if at.contains(k) {
        let i = choose|i: int| 0 <= i < at.len() && at[i] == k;
        assert(at.push(end)[i] == k);
    }
}

/// The value behind `--seed` is a seed and that behind `--seeds-file` a
/// file, other arguments name nothing, and what comes first is used first.
pub proof fn arguments_name_sources(value: Seq<char>, other: Seq<char>, rest: Seq<Seq<char>>)
    requires
        other != "--seed"@,
        other != "--seeds-file"@,
    ensures
        arg_sources(seq!["--seed"@, value] + rest) == seq![SourceView::Entry(value)] + arg_sources(
            rest,
        ),
        arg_sources(seq!["--seeds-file"@, value] + rest) == seq![SourceView::File(value)]
            + arg_sources(rest),
        arg_sources(seq![other] + rest) == arg_sources(rest),
        arg_sources(Seq::empty()).len() == 0,
{
    reveal_strlit("--seed");
    reveal_strlit("--seeds-file");
    assert("--seed"@.len() != "--seeds-file"@.len());
    assert((seq!["--seed"@, value] + rest).skip(2) =~= rest);
    assert((seq!["--seeds-file"@, value] + rest).skip(2) =~= rest);
    assert((seq![other] + rest).skip(1) =~= rest);
}

/// The seeds of a list are its trimmed parts that are not empty, in order;
/// those of a file its trimmed lines that are neither empty nor comments.
pub proof fn entries_are_the_parts_that_name_seeds(value: Seq<char>)
    ensures
        exists|at: Seq<int>| #[trigger]
            is_selection(list_entries(value), trimmed_parts(split(value, ',')), at) && forall|
                k: int,
            |
                #![trigger split(value, ',')[k]]
                0 <= k < split(value, ',').len() ==> (at.contains(k) <==> trim(
                    split(value, ',')[k],
                ).len() > 0),
        exists|at: Seq<int>| #[trigger]
            is_selection(file_entries(value), trimmed_parts(split(value, '\n')), at) && forall|
                k: int,
            |
                #![trigger split(value, '\n')[k]]
                0 <= k < split(value, '\n').len() ==> (at.contains(k) <==> trim(
                    split(value, '\n')[k],
                ).len() > 0 && trim(split(value, '\n')[k])[0] != '#'),
{
    let parts = trimmed_parts(split(value, ','));
    let lines = trimmed_parts(split(value, '\n'));
    let p = |p: Seq<char>| is_entry(p);
    let q = |p: Seq<char>| is_seed_line(p);
    filter_selects(parts, p);
    filter_selects(lines, q);
    assert(is_selection(list_entries(value), parts, places(parts, p)));
    assert(is_selection(file_entries(value), lines, places(lines, q)));
    assert forall|k: int| #![trigger split(value, ',')[k]] 0 <= k < split(value, ',').len() implies (
    places(parts, p).contains(k) <==> trim(split(value, ',')[k]).len() > 0) by {
        assert(parts[k] == trim(split(value, ',')[k]));
    }
    assert forall|k: int| #![trigger split(value, '\n')[k]] 0 <= k < split(value, '\n').len() implies (
    places(lines, q).contains(k) <==> trim(split(value, '\n')[k]).len() > 0 && trim(
        split(value, '\n')[k],
    )[0] != '#') by {
        assert(lines[k] == trim(split(value, '\n')[k]));
    }
}

/// The sources come from the arguments, then from the list in the
/// environment, then from the file named there; what is not set adds
/// nothing.
pub proof fn sources_come_in_order(args: Seq<Seq<char>>, value: Seq<char>, path: Seq<char>)
    ensures
        all_sources(args, None, None) == arg_sources(args),
        all_sources(args, None, Some(path)) == arg_sources(args).push(SourceView::File(path)),
        all_sources(args, Some(value), Some(path)) == all_sources(args, Some(value), None).push(
            SourceView::File(path),
        ),
        all_sources(args, Some(value), None).len() == arg_sources(args).len() + list_entries(
            value,
        ).len(),
        arg_sources(args).is_prefix_of(all_sources(args, Some(value), None)),
        forall|i: int|
            0 <= i < list_entries(value).len() ==> all_sources(args, Some(value), None)[arg_sources(
                args,
            ).len() + i] == SourceView::Entry(#[trigger] list_entries(value)[i]),
{
    let a = arg_sources(args);
    let both = all_sources(args, Some(value), None);
    assert(all_sources(args, None, None) =~= a);
    assert(all_sources(args, None, Some(path)) =~= a.push(SourceView::File(path)));
    assert(all_sources(args, Some(value), Some(path)) =~= both.push(SourceView::File(path)));
    assert(a =~= both.subrange(0, a.len() as int));
}

/// Byte strings are ordered by the first place at which they differ, and
/// one comes before whatever it starts.
pub proof fn order_is_by_the_first_difference(a: Seq<u8>, b: Seq<u8>, n: int)
    requires
        0 <= n <= a.len(),
        n < b.len(),
        a.subrange(0, n) == b.subrange(0, n),
        n < a.len() ==> a[n] != b[n],
    ensures
        bytes_less(a, b) <==> n == a.len() || a[n] < b[n],
        bytes_less(b, a) <==> n < a.len() && b[n] < a[n],
    decreases n,
{
    if n > 0 {
        assert forall|i: int| 0 <= i < n implies a[i] == b[i] by {
            assert(a.subrange(0, n)[i] == a[i]);
            assert(b.subrange(0, n)[i] == b[i]);
        }
        let x = a.drop_first();
        let y = b.drop_first();
        assert(x.subrange(0, n - 1) =~= y.subrange(0, n - 1));
        assert(n < a.len() ==> x[n - 1] == a[n] && y[n - 1] == b[n]);
        assert(y[n - 1] == b[n]);
        order_is_by_the_first_difference(x, y, n - 1);
    }
}

/// Whether an address parsed, and has the text `t`.
pub open spec fn resolves_to(addr: Option<String>, t: Seq<char>) -> bool {
    addr matches Some(s) && s@ == t
}

/// The seed list has every address that parsed and no other, in order of
/// their text, none of them twice.
pub proof fn seeds_are_the_addresses_that_parsed(
    list: Seq<Seq<char>>,
    resolved: Seq<Option<String>>,
    t: Seq<char>,
)
    requires
        ascending(list),
        holds_resolved(list, resolved),
    ensures
        list.contains(t) <==> exists|j: int|
            0 <= j < resolved.len() && #[trigger] resolves_to(resolved[j], t),
        forall|j: int, k: int|
            0 <= j < k < list.len() ==> bytes_less(
                encode_utf8(#[trigger] list[j]),
                encode_utf8(#[trigger] list[k]),
            ) && list[j] != list[k],
{
    if list.contains(t) {
        let j = choose|j: int|
            0 <= j < resolved.len() && (#[trigger] resolved[j] matches Some(s) && s@ == t);
        assert(resolves_to(resolved[j], t));
    }
    if exists|j: int| 0 <= j < resolved.len() && #[trigger] resolves_to(resolved[j], t) {
        let j = choose|j: int| 0 <= j < resolved.len() && #[trigger] resolves_to(resolved[j], t);
        assert(resolved[j] matches Some(s) && s@ == t);
    }
    assert forall|j: int, k: int| 0 <= j < k < list.len() implies bytes_less(
        encode_utf8(#[trigger] list[j]),
        encode_utf8(#[trigger] list[k]),
    ) && list[j] != list[k] by {
        assert(text_less(list[j], list[k]));
        bytes_less_irreflexive(encode_utf8(list[k]));
    }
}

/// The own identifier is looked up once: after that the bootstrap is over.
pub proof fn the_lookup_comes_last(b: BootstrapView)
    requires
        b.dialed >= b.seeds.len(),
    ensures
        bootstrap_action(b) is SelfLookup <==> b.connected > 0 && !b.looked_up,
        bootstrap_action(b) is Finished <==> b.connected == 0 || b.looked_up,
{
}

/// Two seed lists that hold the same addresses are equal: neither the order
/// nor the number of times in which an address was named matters.
pub proof fn seed_order_does_not_matter(a: Seq<Seq<char>>, b: Seq<Seq<char>>)
    requires
        ascending(a),
        ascending(b),
        forall|t: Seq<char>| a.contains(t) <==> b.contains(t),
    ensures
        a == b,
    decreases a.len(),
{
    if a.len() == 0 {
        if b.len() > 0 {
            assert(b.contains(b[0]));
        }
        assert(a =~= b);
    } else {
        assert(a.contains(a.last()));
        assert(b.contains(a.last()));
        assert(b.contains(b.last()));
        assert(a.contains(b.last()));
        let i = choose|i: int| 0 <= i < b.len() && b[i] == a.last();
        let j = choose|j: int| 0 <= j < a.len() && a[j] == b.last();
        if i != b.len() - 1 {
            assert(text_less(b[i], b[b.len() - 1]));
            if j != a.len() - 1 {
                assert(text_less(a[j], a[a.len() - 1]));
                bytes_less_trans(
                    encode_utf8(a.last()),
                    encode_utf8(b.last()),
                    encode_utf8(a.last()),
                );
            }
            bytes_less_irreflexive(encode_utf8(a.last()));
        }
        assert(a.last() == b.last());
        let x = a.drop_last();
        let y = b.drop_last();
        assert forall|t: Seq<char>| x.contains(t) <==> y.contains(t) by {
            bytes_less_irreflexive(encode_utf8(a.last()));
            if x.contains(t) {
                let k = choose|k: int| 0 <= k < x.len() && x[k] == t;
                assert(a[k] == t);
                assert(text_less(a[k], a[a.len() - 1]));
                assert(b.contains(t));
                let m = choose|m: int| 0 <= m < b.len() && b[m] == t;
                assert(y[m] == t);
            }
            if y.contains(t) {
                let k = choose|k: int| 0 <= k < y.len() && y[k] == t;
                assert(b[k] == t);
                assert(text_less(b[k], b[b.len() - 1]));
                assert(a.contains(t));
                let m = choose|m: int| 0 <= m < a.len() && a[m] == t;
                assert(x[m] == t);
            }
        }
        assert(ascending(x)) by {
            assert forall|p: int, q: int| 0 <= p < q < x.len() implies text_less(
                #[trigger] x[p],
                #[trigger] x[q],
            ) by {
                assert(text_less(a[p], a[q]));
            }
        }
        assert(ascending(y)) by {
            assert forall|p: int, q: int| 0 <= p < q < y.len() implies text_less(
                #[trigger] y[p],
                #[trigger] y[q],
            ) by {
                assert(text_less(b[p], b[q]));
            }
        }
        seed_order_does_not_matter(x, y);
        assert(a =~= x.push(a.last()));
        assert(b =~= y.push(b.last()));
    }
}

} // verus!
