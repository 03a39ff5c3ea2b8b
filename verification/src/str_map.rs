//! A map keyed by text, kept as a list of entries in insertion order, no key twice.

use vstd::prelude::*;

verus! {

/// A map from `String` keys to values. Entries keep the order in which their keys were
/// first inserted; no key occurs twice.
#[derive(Debug)]
pub struct StrMap<V> {
    entries: Vec<(String, V)>,
}

impl<V> View for StrMap<V> {
    type V = Map<Seq<char>, V>;

    /// Each key maps to the value of its entry.
    closed spec fn view(&self) -> Map<Seq<char>, V> {
        Map::new(
            |k: Seq<char>| self.key_seq().contains(k),
            |k: Seq<char>| self.value_seq()[self.key_seq().index_of(k)],
        )
    }
}

/// The key of an entry, as text.
pub open spec fn entry_key<V>(e: (String, V)) -> Seq<char> {
    e.0@
}

impl<V> StrMap<V> {
    /// The keys in the order the entries are kept.
    pub closed spec fn key_seq(&self) -> Seq<Seq<char>> {
        self.entries@.map_values(|e: (String, V)| entry_key(e))
    }

    /// The values in the same order as `key_seq`.
    pub closed spec fn value_seq(&self) -> Seq<V> {
        self.entries@.map_values(|e: (String, V)| e.1)
    }

    #[verifier::type_invariant]
    closed spec fn keys_distinct(&self) -> bool {
        self.key_seq().no_duplicates()
    }

    /// The keys and values line up, no key twice, and the map is what they list.
    proof fn lemma_layout(&self)
        requires
            self.key_seq().no_duplicates(),
        ensures
            self.key_seq().len() == self.value_seq().len(),
            self.key_seq().no_duplicates(),
            self@.dom() == self.key_seq().to_set(),
            self@.dom().finite(),
            self@.len() == self.key_seq().len(),
            forall|i: int|
                0 <= i < self.key_seq().len() ==> #[trigger] self@[self.key_seq()[i]]
                    == self.value_seq()[i],
    {
        let ks = self.key_seq();
        assert(self@.dom() =~= ks.to_set());
        ks.unique_seq_to_set();
        assert forall|i: int| 0 <= i < ks.len() implies #[trigger] self@[ks[i]]
            == self.value_seq()[i] by {
            let j = ks.index_of(ks[i]);
            assert(ks.contains(ks[i]));
            assert(j == i);
        }
    }

    /// An empty map.
    pub fn new() -> (m: Self)
        ensures
            m@ == Map::<Seq<char>, V>::empty(),
    {
        let m = StrMap { entries: Vec::new() };
        assert(m@ =~= Map::<Seq<char>, V>::empty());
        m
    }

    /// The number of entries.
    pub fn len(&self) -> (n: usize)
        ensures
            n == self@.len(),
            n == self.key_seq().len(),
            self@.dom().finite(),
            self.key_seq().no_duplicates(),
            self.key_seq().to_set() == self@.dom(),
    {
        proof {
            use_type_invariant(self);
            self.lemma_layout();
        }
        self.entries.len()
    }

    /// The key of the entry at position `i` in key order.
    pub fn key_at(&self, i: usize) -> (k: &String)
        requires
            i < self.key_seq().len(),
        ensures
            k@ == self.key_seq()[i as int],
            self@.dom().contains(k@),
    {
        proof {
            use_type_invariant(self);
            self.lemma_layout();
            assert(self.key_seq()[i as int] == self.entries@[i as int].0@);
            assert(self.key_seq().contains(self.key_seq()[i as int]));
        }
        &self.entries[i].0
    }

    /// The value of the entry at position `i` in key order.
    pub fn value_at(&self, i: usize) -> (v: &V)
        requires
            i < self.key_seq().len(),
        ensures
            *v == self.value_seq()[i as int],
            *v == self@[self.key_seq()[i as int]],
    {
        proof {
            use_type_invariant(self);
            self.lemma_layout();
        }
        &self.entries[i].1
    }

    /// The position of `k` among the entries, if it is a key.
    fn find(&self, k: &String) -> (pos: Option<usize>)
        ensures
            match pos {
                Some(i) => i < self.entries@.len() && self.entries@[i as int].0@ == k@,
                None => !self@.dom().contains(k@),
            },
    {
        let mut i: usize = 0;
        while i < self.entries.len()
            invariant
                i <= self.entries@.len(),
                forall|j: int| 0 <= j < i ==> self.entries@[j].0@ != k@,
            decreases self.entries@.len() - i,
        {
            if self.entries[i].0 == *k {
                return Some(i);
            }
            i = i + 1;
        }
        proof {
            if self@.dom().contains(k@) {
                let j = self.key_seq().index_of(k@);
                assert(self.key_seq()[j] == self.entries@[j].0@);
            }
        }
        None
    }

    /// Whether `k` is a key.
    pub fn contains_key(&self, k: &String) -> (b: bool)
        ensures
            b == self@.dom().contains(k@),
    {
        proof {
            use_type_invariant(self);
            self.lemma_layout();
        }
        match self.find(k) {
            Some(i) => {
                proof {
                    assert(self.key_seq()[i as int] == k@);
                }
                true
            },
            None => false,
        }
    }

    /// The value under `k`, if it is a key.
    pub fn get(&self, k: &String) -> (r: Option<&V>)
        ensures
            match r {
                Some(v) => self@.dom().contains(k@) && *v == self@[k@],
                None => !self@.dom().contains(k@),
            },
    {
        proof {
            use_type_invariant(self);
            self.lemma_layout();
        }
        match self.find(k) {
            Some(i) => {
                proof {
                    assert(self.key_seq()[i as int] == k@);
                }
                Some(&self.entries[i].1)
            },
            None => None,
        }
    }

    /// Puts `v` under `k`, in place of any value there. A new key goes last in key order.
    pub fn insert(&mut self, k: String, v: V)
        ensures
            final(self)@ == old(self)@.insert(k@, v),
            old(self)@.dom().contains(k@) ==> final(self).key_seq() == old(self).key_seq(),
            !old(self)@.dom().contains(k@) ==> final(self).key_seq() == old(self).key_seq().push(
                k@,
            ),
    {
        proof {
            use_type_invariant(&*self);
            self.lemma_layout();
        }
        let pos = self.find(&k);
        let mut entries = Vec::new();
        std::mem::swap(&mut entries, &mut self.entries);
        let ghost before = entries@;
        match pos {
            Some(i) => {
                entries.set(i, (k, v));
            },
            None => {
                entries.push((k, v));
            },
        }
        let ghost ks = entries@.map_values(|e: (String, V)| entry_key(e));
        let ghost old_ks = before.map_values(|e: (String, V)| entry_key(e));
        proof {
            match pos {
                Some(i) => {
                    assert(ks =~= old_ks);
                },
                None => {
                    assert(ks =~= old_ks.push(k@));
                    assert(!old_ks.contains(k@));
                },
            }
        }
        self.entries = entries;
        proof {
            use_type_invariant(&*self);
            self.lemma_layout();
            assert(self.key_seq() == ks);
            assert forall|key: Seq<char>| #[trigger] self@.dom().contains(key) == old(self)@.insert(
                k@,
                v,
            ).dom().contains(key) by {
                if self@.dom().contains(key) {
                    assert(ks.contains(key));
                    let j = ks.index_of(key);
                    if key != k@ {
                        assert(old_ks[j] == key);
                        assert(old_ks.contains(key));
                    }
                }
                if old(self)@.dom().contains(key) {
                    assert(old_ks.contains(key));
                    let j = old_ks.index_of(key);
                    assert(ks[j] == key || key == k@);
                    if key != k@ {
                        assert(ks.contains(key));
                    }
                }
                if key == k@ {
                    match pos {
                        Some(i) => { assert(ks[i as int] == key); },
                        None => { assert(ks[ks.len() - 1] == key); },
                    }
                    assert(ks.contains(key));
                }
            }
            assert forall|key: Seq<char>| #[trigger] self@.dom().contains(key) implies self@[key]
                == old(self)@.insert(k@, v)[key] by {
                assert(ks.contains(key));
                let j = ks.index_of(key);
                assert(ks[j] == key);
                assert(self@[ks[j]] == self.value_seq()[j]);
                if key == k@ {
                    match pos {
                        Some(i) => {
                            assert(ks[i as int] == key);
                            assert(j == i);
                        },
                        None => {
                            assert(ks[ks.len() - 1] == key);
                            assert(j == ks.len() - 1);
                        },
                    }
                } else {
                    assert(j < old_ks.len());
                    assert(old_ks[j] == key);
                    assert(old(self).key_seq()[j] == key);
                    assert(old(self)@[old(self).key_seq()[j]] == old(self).value_seq()[j]);
                }
            }
            assert(self@ =~= old(self)@.insert(k@, v));
        }
    }


    /// Puts `v` under `k` when `k` is not a key yet; otherwise leaves the map as it is.
    pub fn insert_if_absent(&mut self, k: String, v: V)
        ensures
            old(self)@.dom().contains(k@) ==> final(self)@ == old(self)@,
            !old(self)@.dom().contains(k@) ==> final(self)@ == old(self)@.insert(k@, v),
            final(self)@.dom().contains(k@),
    {
        if !self.contains_key(&k) {
            self.insert(k, v);
        }
    }

    /// Replaces the value under the key `k` by what `f` makes of it; the order of the keys
    /// stays as it was.
    pub fn modify<F: FnOnce(V) -> V>(&mut self, k: &String, f: F)
        requires
            old(self)@.dom().contains(k@),
            f.requires((old(self)@[k@],)),
        ensures
            f.ensures((old(self)@[k@],), final(self)@[k@]),
            final(self)@ == old(self)@.insert(k@, final(self)@[k@]),
            final(self).key_seq() == old(self).key_seq(),
    {
        proof {
            use_type_invariant(&*self);
            self.lemma_layout();
        }
        let pos = self.find(k);
        let i: usize = match pos {
            Some(i) => i,
            None => {
                assert(false);
                0
            },
        };
        proof {
            assert(self.key_seq()[i as int] == k@);
            assert(self@[k@] == self.value_seq()[i as int]);
        }
        let mut entries = Vec::new();
        std::mem::swap(&mut entries, &mut self.entries);
        let ghost before = entries@;
        let (key, value) = entries.remove(i);
        let updated = f(value);
        entries.insert(i, (key, updated));
        let ghost ks = entries@.map_values(|e: (String, V)| entry_key(e));
        let ghost vs = entries@.map_values(|e: (String, V)| e.1);
        let ghost old_ks = before.map_values(|e: (String, V)| entry_key(e));
        let ghost old_vs = before.map_values(|e: (String, V)| e.1);
        proof {
            assert(entries@ =~= before.update(i as int, (key, updated)));
            assert(ks =~= old_ks);
            assert(vs =~= old_vs.update(i as int, updated));
        }
        self.entries = entries;
        proof {
            use_type_invariant(&*self);
            self.lemma_layout();
            assert(self.key_seq() == ks);
            assert(self@[k@] == updated);
            assert forall|key: Seq<char>| #[trigger] self@.dom().contains(key) == old(self)@.dom().contains(key)
                by {
                assert(self.key_seq().to_set().contains(key) == old(self).key_seq().to_set().contains(key));
            }
            assert forall|key: Seq<char>| #[trigger] self@.dom().contains(key) && key != k@ implies self@[key]
                == old(self)@[key] by {
                assert(ks.contains(key));
                let j = ks.index_of(key);
                assert(ks[j] == key);
                assert(j != i);
                assert(self@[ks[j]] == self.value_seq()[j]);
                assert(old(self)@[old(self).key_seq()[j]] == old(self).value_seq()[j]);
            }
            assert(self@ =~= old(self)@.insert(k@, self@[k@]));
        }
    }

    /// Keeps the entries whose values `keep` accepts and drops the others.
    pub fn retain<F: Fn(&V) -> bool>(&mut self, keep: F)
        requires
            forall|v: &V| #[trigger] keep.requires((v,)),
        ensures
            forall|key: Seq<char>| #[trigger] final(self)@.dom().contains(key) ==> {
                &&& old(self)@.dom().contains(key)
                &&& final(self)@[key] == old(self)@[key]
                &&& keep.ensures((&old(self)@[key],), true)
            },
            forall|key: Seq<char>|
                #[trigger] old(self)@.dom().contains(key) && !final(self)@.dom().contains(key)
                    ==> keep.ensures((&old(self)@[key],), false),
    {
        proof {
            use_type_invariant(&*self);
            self.lemma_layout();
        }
        let mut entries = Vec::new();
        std::mem::swap(&mut entries, &mut self.entries);
        let ghost before = entries@;
        let ghost old_ks = before.map_values(|e: (String, V)| entry_key(e));
        let mut kept: Vec<(String, V)> = Vec::new();
        let ghost mut kept_from: Seq<int> = Seq::empty();
        // Walk the entries from the back, so that each removal is at the end.
        let mut rest = entries;
        while rest.len() > 0
            invariant
                rest@ == before.take(rest@.len() as int),
                rest@.len() <= before.len(),
                kept_from.len() == kept@.len(),
                forall|a: int| 0 <= a < kept_from.len() ==> rest@.len() <= #[trigger] kept_from[a] < before.len(),
                forall|a: int, b: int| 0 <= a < b < kept_from.len() ==> kept_from[a] > kept_from[b],
                forall|a: int| 0 <= a < kept_from.len() ==> #[trigger] kept@[a] == before[kept_from[a]],
                forall|a: int| 0 <= a < kept_from.len() ==> keep.ensures((&before[#[trigger] kept_from[a]].1,), true),
                forall|j: int| rest@.len() <= j < before.len() && !kept_from.contains(j)
                    ==> keep.ensures((&#[trigger] before[j].1,), false),
                forall|v: &V| #[trigger] keep.requires((v,)),
            decreases rest@.len(),
        {
            let e = rest.pop().unwrap();
            let ghost j = rest@.len() as int;
            proof {
                assert(before.take(j + 1)[j] == before[j]);
                assert(rest@ =~= before.take(j));
            }
            let ghost old_kept_from = kept_from;
            if keep(&e.1) {
                kept.push(e);
                proof {
                    kept_from = kept_from.push(j);
                    assert forall|j2: int| rest@.len() <= j2 < before.len() && !kept_from.contains(j2)
                        implies keep.ensures((&#[trigger] before[j2].1,), false) by {
                        if j2 != j {
                            if old_kept_from.contains(j2) {
                                let a = old_kept_from.index_of(j2);
                                assert(kept_from[a] == j2);
                            }
                        } else {
                            assert(kept_from[kept_from.len() - 1] == j);
                        }
                    }
                }
            } else {
                proof {
                    assert(e == before[j]);
                }
            }
        }
        // `kept` is in reverse order; turn it around.
        let mut result: Vec<(String, V)> = Vec::new();
        let ghost mut result_from: Seq<int> = Seq::empty();
        while kept.len() > 0
            invariant
                kept@.len() <= kept_from.len(),
                result_from.len() == result@.len(),
                result_from.len() + kept@.len() == kept_from.len(),
                forall|a: int| 0 <= a < result_from.len() ==> #[trigger] result_from[a] == kept_from[kept_from.len() - 1 - a],
                forall|a: int| 0 <= a < kept@.len() ==> #[trigger] kept@[a] == before[kept_from[a]],
                forall|a: int| 0 <= a < result@.len() ==> #[trigger] result@[a] == before[result_from[a]],
            decreases kept@.len(),
        {
            let e = kept.pop().unwrap();
            result.push(e);
            proof {
                result_from = result_from.push(kept_from[kept@.len() as int]);
            }
        }
        let ghost ks = result@.map_values(|e: (String, V)| entry_key(e));
        proof {
            assert forall|a: int, b: int| 0 <= a < b < result_from.len() implies result_from[a] < result_from[b] by {
                assert(result_from[a] == kept_from[kept_from.len() - 1 - a]);
                assert(result_from[b] == kept_from[kept_from.len() - 1 - b]);
            }
            assert forall|a: int, b: int| 0 <= a < ks.len() && 0 <= b < ks.len() && a != b implies ks[a] != ks[b] by {
                assert(ks[a] == old_ks[result_from[a]]);
                assert(ks[b] == old_ks[result_from[b]]);
                if a < b {
                    assert(result_from[a] < result_from[b]);
                } else {
                    assert(result_from[b] < result_from[a]);
                }
            }
        }
        self.entries = result;
        proof {
            use_type_invariant(&*self);
            self.lemma_layout();
            assert(self.key_seq() == ks);
            assert forall|key: Seq<char>| #[trigger] self@.dom().contains(key) implies {
                &&& old(self)@.dom().contains(key)
                &&& self@[key] == old(self)@[key]
                &&& keep.ensures((&old(self)@[key],), true)
            } by {
                assert(ks.contains(key));
                let a = ks.index_of(key);
                assert(ks[a] == key);
                let j = result_from[a];
                assert(result_from[a] == kept_from[kept_from.len() - 1 - a]);
                assert(0 <= j < before.len());
                assert(old_ks[j] == key);
                assert(old(self).key_seq()[j] == key);
                assert(old(self)@[old(self).key_seq()[j]] == old(self).value_seq()[j]);
                assert(self@[ks[a]] == self.value_seq()[a]);
                assert(old_ks.contains(key));
            }
            assert forall|key: Seq<char>|
                #[trigger] old(self)@.dom().contains(key) && !self@.dom().contains(key)
                implies keep.ensures((&old(self)@[key],), false) by {
                assert(old_ks.contains(key));
                let j = old_ks.index_of(key);
                assert(old(self).key_seq()[j] == key);
                assert(old(self)@[old(self).key_seq()[j]] == old(self).value_seq()[j]);
                if kept_from.contains(j) {
                    let a = kept_from.index_of(j);
                    let r = kept_from.len() - 1 - a;
                    assert(result_from[r] == kept_from[kept_from.len() - 1 - r]);
                    assert(result_from[r] == j);
                    assert(ks[r] == key);
                    assert(ks.contains(key));
                }
            }
        }
    }

    /// The keys, as new strings, in key order.
    pub fn keys(&self) -> (ks: Vec<String>)
        ensures
            ks@.map_values(|s: String| s@) == self.key_seq(),
            self.key_seq().no_duplicates(),
            self.key_seq().to_set() == self@.dom(),
    {
        proof {
            use_type_invariant(self);
            self.lemma_layout();
        }
        let mut ks: Vec<String> = Vec::new();
        let mut i: usize = 0;
        while i < self.entries.len()
            invariant
                i <= self.entries@.len(),
                ks@.len() == i,
                forall|j: int| 0 <= j < i ==> #[trigger] ks@[j]@ == self.entries@[j].0@,
            decreases self.entries@.len() - i,
        {
            ks.push(self.entries[i].0.clone());
            i = i + 1;
        }
        assert(ks@.map_values(|s: String| s@) =~= self.key_seq());
        ks
    }
}

} // verus!
