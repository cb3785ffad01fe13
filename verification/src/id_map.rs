//! A map keyed by 32-byte identifiers.
use vstd::prelude::*;

use crate::bytes::same_id;

verus! {

/// A map from 32-byte identifiers to values. No identifier occurs twice.
pub struct IdMap<V> {
    keys: Vec<[u8; 32]>,
    values: Vec<V>,
}

impl<V: View> View for IdMap<V> {
    type V = Map<Seq<u8>, V::V>;

    closed spec fn view(&self) -> Map<Seq<u8>, V::V> {
        Map::new(
            |k: Seq<u8>| exists|i: int| self.holds(i, k),
            |k: Seq<u8>| self.values@[choose|i: int| self.holds(i, k)]@,
        )
    }
}

impl<V: View> IdMap<V> {
    /// Entry `i` is the one for key `k`.
    spec fn holds(self, i: int, k: Seq<u8>) -> bool {
        0 <= i < self.keys@.len() && self.keys@[i]@ == k
    }

    /// Keys and values pair up, and no key occurs twice.
    pub closed spec fn wf(self) -> bool {
        &&& self.keys@.len() == self.values@.len()
        &&& forall|i: int, j: int|
            0 <= i < self.keys@.len() && 0 <= j < self.keys@.len() && i != j ==> (
            #[trigger] self.keys@[i])@ != (#[trigger] self.keys@[j])@
    }

    proof fn entry(self, i: int)
        requires
            self.wf(),
            0 <= i < self.keys@.len(),
        ensures
            self@.dom().contains(self.keys@[i]@),
            self@[self.keys@[i]@] == self.values@[i]@,
    {
        let k = self.keys@[i]@;
        assert(self.holds(i, k));
        let j = choose|j: int| self.holds(j, k);
        assert(self.keys@[i]@ == self.keys@[j]@);
    }

    /// The keys are finitely many, as many as there are entries.
    proof fn size(self)
        requires
            self.wf(),
        ensures
            self@.dom().finite(),
            self@.dom().len() == self.keys@.len(),
    {
        let ks = self.keys@.map_values(|k: [u8; 32]| k@);
        assert(ks.no_duplicates());
        ks.unique_seq_to_set();
        assert(self@.dom() =~= ks.to_set()) by {
            assert forall|k: Seq<u8>| ks.to_set().contains(k) implies self@.dom().contains(k) by {
                let i = choose|i: int| 0 <= i < ks.len() && ks[i] == k;
                self.entry(i);
            }
            assert forall|k: Seq<u8>| self@.dom().contains(k) implies ks.to_set().contains(k) by {
                let i = choose|i: int| self.holds(i, k);
                assert(ks[i] == k);
            }
        }
    }

    /// The keys are finitely many.
    pub proof fn dom_is_finite(self)
        requires
            self.wf(),
        ensures
            self@.dom().finite(),
    {
        self.size();
    }

    /// The empty map.
    pub fn new() -> (out: Self)
        ensures
            out.wf(),
            out@ == Map::<Seq<u8>, V::V>::empty(),
    {
        let out = IdMap { keys: Vec::new(), values: Vec::new() };
        assert(out@ =~= Map::<Seq<u8>, V::V>::empty());
        out
    }

    /// Number of entries.
    pub fn len(&self) -> (n: usize)
        requires
            self.wf(),
        ensures
            n == self@.dom().len(),
            self@.dom().finite(),
    {
        proof {
            self.size();
        }
        self.keys.len()
    }

    /// The position of `key`'s entry.
    fn find(&self, key: &[u8; 32]) -> (at: Option<usize>)
        requires
            self.wf(),
        ensures
            match at {
                Some(i) => i < self.keys@.len() && self.keys@[i as int]@ == key@
                    && self@.dom().contains(key@) && self@[key@] == self.values@[i as int]@,
                None => !self@.dom().contains(key@),
            },
    {
        let mut i: usize = 0;
        while i < self.keys.len()
            invariant
                self.wf(),
                i <= self.keys@.len(),
                forall|j: int| 0 <= j < i ==> (#[trigger] self.keys@[j])@ != key@,
            decreases self.keys@.len() - i,
        {
            if same_id(&self.keys[i], key) {
                proof {
                    self.entry(i as int);
                }
                return Some(i);
            }
            i = i + 1;
        }
        None
    }

    /// Whether there is an entry for `key`.
    pub fn contains_key(&self, key: &[u8; 32]) -> (r: bool)
        requires
            self.wf(),
        ensures
            r == self@.dom().contains(key@),
    {
        self.find(key).is_some()
    }

    /// The value for `key`.
    pub fn get(&self, key: &[u8; 32]) -> (out: Option<&V>)
        requires
            self.wf(),
        ensures
            match out {
                Some(v) => self@.dom().contains(key@) && self@[key@] == v@,
                None => !self@.dom().contains(key@),
            },
    {
        match self.find(key) {
            Some(i) => Some(&self.values[i]),
            None => None,
        }
    }

    /// Takes the entry for `key` out.
    pub fn remove(&mut self, key: &[u8; 32]) -> (out: Option<V>)
        requires
            old(self).wf(),
        ensures
            final(self).wf(),
            final(self)@ == old(self)@.remove(key@),
            match out {
                Some(v) => old(self)@.dom().contains(key@) && old(self)@[key@] == v@,
                None => !old(self)@.dom().contains(key@),
            },
    {
        match self.find(key) {
            Some(i) => {
                let ghost before = *self;
                self.keys.swap_remove(i);
                let v = self.values.swap_remove(i);
                proof {
                    let n = before.keys@.len() as int;
                    let last = n - 1;
                    assert forall|k: Seq<u8>| #[trigger] self@.dom().contains(k) implies before@.remove(
                        key@,
                    ).dom().contains(k) && self@[k] == before@[k] by {
                        let j = choose|j: int| self.holds(j, k);
                        let o = if j == i { last } else { j };
                        assert(self.keys@[j] == before.keys@[o]);
                        assert(self.values@[j] == before.values@[o]);
                        before.entry(o);
                        self.entry(j);
                        assert(before.keys@[i as int]@ != before.keys@[o]@);
                    }
                    assert forall|k: Seq<u8>| #[trigger] before@.remove(key@).dom().contains(k) implies
                        self@.dom().contains(k) by {
                        let o = choose|o: int| before.holds(o, k);
                        assert(o != i);
                        let j = if o == last { i as int } else { o };
                        assert(self.keys@[j] == before.keys@[o]);
                        self.entry(j);
                    }
                    assert(self@ =~= before@.remove(key@));
                }
                Some(v)
            },
            None => {
                assert(self@ =~= old(self)@.remove(key@));
                None
            },
        }
    }

    /// Sets the value for `key`.
    pub fn insert(&mut self, key: [u8; 32], value: V)
        requires
            old(self).wf(),
        ensures
            final(self).wf(),
            final(self)@ == old(self)@.insert(key@, value@),
    {
        self.remove(&key);
        let ghost before = *self;
        self.keys.push(key);
        self.values.push(value);
        proof {
            let n = before.keys@.len() as int;
            assert forall|j: int| 0 <= j < n implies (#[trigger] before.keys@[j])@ != key@ by {
                before.entry(j);
            }
            assert(self.wf()) by {
                assert forall|i: int, j: int|
                    0 <= i < self.keys@.len() && 0 <= j < self.keys@.len() && i != j implies (
                #[trigger] self.keys@[i])@ != (#[trigger] self.keys@[j])@ by {
                    if i < n {
                        assert(before.keys@[i]@ != key@);
                    }
                    if j < n {
                        assert(before.keys@[j]@ != key@);
                    }
                }
            }
            assert forall|k: Seq<u8>| #[trigger] self@.dom().contains(k) implies before@.insert(
                key@,
                value@,
            ).dom().contains(k) && self@[k] == before@.insert(key@, value@)[k] by {
                let j = choose|j: int| self.holds(j, k);
                self.entry(j);
                if j < n {
                    assert(before.keys@[j] == self.keys@[j]);
                    before.entry(j);
                }
            }
            assert forall|k: Seq<u8>| #[trigger] before@.insert(key@, value@).dom().contains(k) implies
                self@.dom().contains(k) by {
                if k == key@ {
                    self.entry(n);
                } else {
                    let o = choose|o: int| before.holds(o, k);
                    assert(before.keys@[o] == self.keys@[o]);
                    self.entry(o);
                }
            }
            assert(self@ =~= before@.insert(key@, value@));
            assert(self@ =~= old(self)@.insert(key@, value@));
        }
    }

    /// All keys, each once.
    pub fn keys(&self) -> (out: Vec<[u8; 32]>)
        requires
            self.wf(),
        ensures
            out@.len() == self@.dom().len(),
            self@.dom().finite(),
            forall|i: int| 0 <= i < out@.len() ==> self@.dom().contains((#[trigger] out@[i])@),
            forall|k: Seq<u8>| #[trigger]
                self@.dom().contains(k) ==> exists|i: int|
                    0 <= i < out@.len() && (#[trigger] out@[i])@ == k,
            forall|i: int, j: int|
                0 <= i < j < out@.len() ==> (#[trigger] out@[i])@ != (#[trigger] out@[j])@,
    {
        let mut out: Vec<[u8; 32]> = Vec::new();
        let mut i: usize = 0;
        while i < self.keys.len()
            invariant
                self.wf(),
                i <= self.keys@.len(),
                out@ == self.keys@.subrange(0, i as int),
            decreases self.keys@.len() - i,
        {
            out.push(self.keys[i]);
            i = i + 1;
        }
        proof {
            self.size();
            assert(out@ =~= self.keys@);
            assert forall|i: int| 0 <= i < out@.len() implies self@.dom().contains(
                (#[trigger] out@[i])@,
            ) by {
                self.entry(i);
            }
            assert forall|k: Seq<u8>| #[trigger] self@.dom().contains(k) implies exists|i: int|
                0 <= i < out@.len() && (#[trigger] out@[i])@ == k by {
                let i = choose|i: int| self.holds(i, k);
                assert(out@[i]@ == k);
            }
        }
        out
    }
}

} // verus!
