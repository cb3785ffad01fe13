//! The table of open peer sessions.
use dashmap::DashMap;
use vstd::prelude::*;

use crate::peer::NodeAddr;

verus! {

/// dashmap's concurrent map.
#[verifier::external_type_specification]
#[verifier::external_body]
#[verifier::reject_recursive_types(K)]
#[verifier::reject_recursive_types(V)]
#[verifier::reject_recursive_types(S)]
pub struct ExDashMap<K, V, S>(dashmap::DashMap<K, V, S>);

/// What a session table's map holds, by address text.
pub uninterp spec fn dash_entries(map: DashMap<String, u64>) -> Map<Seq<char>, u64>;

/// `DashMap::new`: an empty map.
#[verifier::external_body]
fn dash_new() -> (out: DashMap<String, u64>)
    ensures
        dash_entries(out).dom() == Set::<Seq<char>>::empty(),
{
    DashMap::new()
}

/// `DashMap::insert`: sets the value for a key, replacing any it had.
#[verifier::external_body]
fn dash_insert(map: &mut DashMap<String, u64>, key: String, value: u64)
    ensures
        dash_entries(*final(map)) == dash_entries(*old(map)).insert(key@, value),
{
    map.insert(key, value);
}

/// `DashMap::remove`: takes the entry for a key out, if there is one.
#[verifier::external_body]
fn dash_remove(map: &mut DashMap<String, u64>, key: &String)
    ensures
        dash_entries(*final(map)) == dash_entries(*old(map)).remove(key@),
{
    map.remove(key);
}

/// `DashMap::get`: the value for a key.
#[verifier::external_body]
fn dash_get(map: &DashMap<String, u64>, key: &String) -> (out: Option<u64>)
    ensures
        out is Some <==> dash_entries(*map).dom().contains(key@),
        out is Some ==> out->0 == dash_entries(*map)[key@],
{
    map.get(key).map(|entry| *entry.value())
}

/// `DashMap::iter`: every entry once, in no particular order.
#[verifier::external_body]
fn dash_iter(map: &DashMap<String, u64>) -> (out: Vec<(String, u64)>)
    ensures
        lists(out@, dash_entries(*map)),
{
    map.iter().map(|entry| (entry.key().clone(), *entry.value())).collect()
}

/// Whether `list` holds every entry of `entries` exactly once.
pub open spec fn lists(list: Seq<(String, u64)>, entries: Map<Seq<char>, u64>) -> bool {
    &&& forall|i: int|
        0 <= i < list.len() ==> entries.dom().contains((#[trigger] list[i]).0@)
            && entries[list[i].0@] == list[i].1
    &&& forall|a: Seq<char>| #[trigger]
        entries.dom().contains(a) ==> exists|i: int|
            0 <= i < list.len() && (#[trigger] list[i]).0@ == a
    &&& forall|i: int, j: int|
        0 <= i < j < list.len() ==> (#[trigger] list[i]).0@ != (#[trigger] list[j]).0@
}

/// Open sessions by remote address. A session is named by a handle that
/// whoever holds the connections assigns.
pub struct SessionTable {
    map: DashMap<String, u64>,
}

impl View for SessionTable {
    type V = Map<Seq<char>, u64>;

    closed spec fn view(&self) -> Map<Seq<char>, u64> {
        dash_entries(self.map)
    }
}

impl SessionTable {
    /// A table without sessions.
    pub fn new() -> (out: Self)
        ensures
            out@ == Map::<Seq<char>, u64>::empty(),
    {
        let map = dash_new();
        assert(dash_entries(map) =~= Map::<Seq<char>, u64>::empty());
        SessionTable { map }
    }

    /// Registers the session for `addr`, in place of any it had.
    pub fn insert(&mut self, addr: NodeAddr, handle: u64)
        ensures
            final(self)@ == old(self)@.insert(addr@, handle),
    {
        dash_insert(&mut self.map, addr, handle);
    }

    /// Forgets the session for `addr`.
    pub fn remove(&mut self, addr: &NodeAddr)
        ensures
            final(self)@ == old(self)@.remove(addr@),
    {
        dash_remove(&mut self.map, addr);
    }

    /// The session for `addr`.
    pub fn get(&self, addr: &NodeAddr) -> (out: Option<u64>)
        ensures
            match out {
                Some(h) => self@.dom().contains(addr@) && self@[addr@] == h,
                None => !self@.dom().contains(addr@),
            },
    {
        dash_get(&self.map, addr)
    }

    /// All sessions, each once, in no particular order.
    pub fn all(&self) -> (out: Vec<(NodeAddr, u64)>)
        ensures
            lists(out@, self@),
    {
        dash_iter(&self.map)
    }

    /// All sessions but the one for `from`, each once, in no particular
    /// order.
    pub fn all_but(&self, from: &NodeAddr) -> (out: Vec<(NodeAddr, u64)>)
        ensures
            lists(out@, self@.remove(from@)),
    {
        let mut all = dash_iter(&self.map);
        let mut i: usize = 0;
        while i < all.len()
            invariant
                i <= all@.len(),
                lists(all@, self@),
                forall|j: int| 0 <= j < i ==> (#[trigger] all@[j]).0@ != from@,
            decreases all@.len() - i,
        {
            if all[i].0 == *from {
                let ghost before = all@;
                all.remove(i);
                proof {
                    let rest = self@.remove(from@);
                    assert forall|j: int| 0 <= j < all@.len() implies rest.dom().contains(
                        (#[trigger] all@[j]).0@,
                    ) && rest[all@[j].0@] == all@[j].1 by {
                        let o = if j < i { j } else { j + 1 };
                        assert(all@[j] == before[o]);
                        assert(before[i as int].0@ == from@);
                        assert(before[o].0@ != from@);
                    }
                    assert forall|a: Seq<char>| #[trigger] rest.dom().contains(a) implies exists|
                        j: int,
                    | 0 <= j < all@.len() && (#[trigger] all@[j]).0@ == a by {
                        assert(self@.dom().contains(a));
                        let o = choose|o: int| 0 <= o < before.len() && (#[trigger] before[o]).0@ == a;
                        let j = if o < i { o } else { o - 1 };
                        assert(all@[j] == before[o]);
                    }
                    assert forall|j: int, k: int| 0 <= j < k < all@.len() implies (
                    #[trigger] all@[j]).0@ != (#[trigger] all@[k]).0@ by {
                        let oj = if j < i { j } else { j + 1 };
                        let ok = if k < i { k } else { k + 1 };
                        assert(all@[j] == before[oj]);
                        assert(all@[k] == before[ok]);
                    }
                }
                return all;
            }
            i = i + 1;
        }
        proof {
            let rest = self@.remove(from@);
            assert forall|j: int| 0 <= j < all@.len() implies rest.dom().contains(
                (#[trigger] all@[j]).0@,
            ) && rest[all@[j].0@] == all@[j].1 by {}
            assert forall|a: Seq<char>| #[trigger] rest.dom().contains(a) implies exists|j: int|
                0 <= j < all@.len() && (#[trigger] all@[j]).0@ == a by {
                assert(self@.dom().contains(a));
            }
        }
        all
    }
}

} // verus!
