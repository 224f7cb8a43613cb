//! A map from text keys to values, kept as a list of entries with distinct keys.

use crate::text::{str_eq, texts};
use vstd::prelude::*;

verus! {

/// The keys of a list of entries, in order.
pub open spec fn keys_of<V>(entries: Seq<(String, V)>) -> Seq<Seq<char>> {
    Seq::new(entries.len(), |i: int| entries[i].0@)
}

/// Map from text keys to values. No key occurs twice.
#[derive(Debug)]
pub struct StrMap<V> {
    entries: Vec<(String, V)>,
}

impl<V> View for StrMap<V> {
    type V = Map<Seq<char>, V>;

    closed spec fn view(&self) -> Map<Seq<char>, V> {
        Map::new(
            |k: Seq<char>| keys_of(self.entries@).contains(k),
            |k: Seq<char>| self.entries@[keys_of(self.entries@).index_of(k)].1,
        )
    }
}

impl<V> StrMap<V> {
    /// No key occurs twice among the entries.
    #[verifier::type_invariant]
    spec fn wf(self) -> bool {
        keys_of(self.entries@).no_duplicates()
    }

    /// The keys in the order in which the entries are held.
    pub closed spec fn key_order(self) -> Seq<Seq<char>> {
        keys_of(self.entries@)
    }

    proof fn lemma_key_order(self)
        requires
            self.wf(),
        ensures
            self.key_order().no_duplicates(),
            self.key_order().to_set() == self@.dom(),
            self@.dom().finite(),
            self@.dom().len() == self.key_order().len(),
    {
        let keys = self.key_order();
        assert(keys.to_set() =~= self@.dom());
        vstd::seq_lib::seq_to_set_is_finite(keys);
        keys.unique_seq_to_set();
    }

    proof fn lemma_entry(self, i: int)
        requires
            self.wf(),
            0 <= i < self.entries@.len(),
        ensures
            self@.contains_key(self.entries@[i].0@),
            self@[self.entries@[i].0@] == self.entries@[i].1,
    {
        let keys = keys_of(self.entries@);
        let k = self.entries@[i].0@;
        assert(keys[i] == k);
        let j = keys.index_of(k);
        assert(0 <= j < keys.len() && keys[j] == k);
        assert(i == j);
    }

    /// An empty map.
    pub fn new() -> (m: Self)
        ensures
            m@ == Map::<Seq<char>, V>::empty(),
    {
        let m = StrMap { entries: Vec::new() };
        assert(m@ =~= Map::<Seq<char>, V>::empty());
        m
    }

    fn position(&self, key: &str) -> (r: Option<usize>)
        ensures
            match r {
                Some(i) => i < self.entries@.len() && self.entries@[i as int].0@ == key@,
                None => !keys_of(self.entries@).contains(key@),
            },
    {
        let mut i: usize = 0;
        while i < self.entries.len()
            invariant
                i <= self.entries@.len(),
                forall|j: int| 0 <= j < i ==> self.entries@[j].0@ != key@,
            decreases self.entries@.len() - i,
        {
            if str_eq(self.entries[i].0.as_str(), key) {
                return Some(i);
            }
            i += 1;
        }
        assert forall|j: int| 0 <= j < keys_of(self.entries@).len() implies keys_of(
            self.entries@,
        )[j] != key@ by {
            assert(keys_of(self.entries@)[j] == self.entries@[j].0@);
        }
        None
    }

    /// Number of entries. The keys in `key_order` are exactly the keys of the
    /// map, each once.
    pub fn len(&self) -> (n: usize)
        ensures
            self@.dom().finite(),
            n == self@.dom().len(),
            n == self.key_order().len(),
            self.key_order().no_duplicates(),
            self.key_order().to_set() == self@.dom(),
    {
        proof {
            use_type_invariant(self);
            self.lemma_key_order();
        }
        self.entries.len()
    }

    /// Whether the map holds no entry.
    pub fn is_empty(&self) -> (r: bool)
        ensures
            r == (self@ == Map::<Seq<char>, V>::empty()),
    {
        let r = self.entries.len() == 0;
        proof {
            if r {
                assert(self@ =~= Map::<Seq<char>, V>::empty());
            } else {
                use_type_invariant(self);
                self.lemma_entry(0);
            }
        }
        r
    }

    /// Whether `key` has an entry.
    pub fn contains_key(&self, key: &str) -> (r: bool)
        ensures
            r == self@.contains_key(key@),
    {
        match self.position(key) {
            Some(i) => {
                proof {
                    use_type_invariant(self);
                    self.lemma_entry(i as int);
                }
                true
            },
            None => false,
        }
    }

    /// The value held for `key`, if any.
    pub fn get(&self, key: &str) -> (r: Option<&V>)
        ensures
            match r {
                Some(v) => self@.contains_key(key@) && *v == self@[key@],
                None => !self@.contains_key(key@),
            },
    {
        match self.position(key) {
            Some(i) => {
                proof {
                    use_type_invariant(self);
                    self.lemma_entry(i as int);
                }
                Some(&self.entries[i].1)
            },
            None => None,
        }
    }

    /// Sets the value for `key` and hands back the value that it replaces,
    /// if it replaces one. A key that was present keeps its place in
    /// `key_order`; a new key comes last.
    pub fn insert(&mut self, key: &str, value: V) -> (earlier: Option<V>)
        ensures
            final(self)@ == old(self)@.insert(key@, value),
            earlier == if old(self)@.contains_key(key@) {
                Some(old(self)@[key@])
            } else {
                None::<V>
            },
            final(self).key_order() == if old(self)@.contains_key(key@) {
                old(self).key_order()
            } else {
                old(self).key_order().push(key@)
            },
    {
        proof {
            use_type_invariant(&*self);
        }
        let ghost before = *self;
        let ghost keys0 = keys_of(before.entries@);
        let found = self.position(key);
        let mut entries: Vec<(String, V)> = Vec::new();
        core::mem::swap(&mut self.entries, &mut entries);
        let owned = key.to_owned();
        let mut earlier: Option<V> = None;
        proof {
            match found {
                Some(i) => {
                    before.lemma_entry(i as int);
                },
                None => {
                    assert(!before@.contains_key(key@));
                },
            }
        }
        match found {
            Some(i) => {
                entries.push((owned, value));
                let replaced = entries.swap_remove(i);
                earlier = Some(replaced.1);
                proof {
                    assert(entries@ =~= before.entries@.update(i as int, (owned, value)));
                    let keys1 = keys_of(entries@);
                    assert(keys1 =~= keys0) by {
                        assert forall|j: int| 0 <= j < keys0.len() implies keys1[j] == keys0[j] by {
                            if j == i as int {
                            } else {
                                assert(entries@[j] == before.entries@[j]);
                            }
                        }
                    }
                }
            },
            None => {
                entries.push((owned, value));
                proof {
                    let keys1 = keys_of(entries@);
                    assert(keys1 =~= keys0.push(key@));
                    assert(keys1.no_duplicates());
                }
            },
        }
        self.entries = entries;
        proof {
            let keys1 = keys_of(self.entries@);
            match found {
                Some(i) => {
                    assert(keys0[i as int] == key@);
                    assert(keys0.index_of(key@) == i as int);
                    assert(self@ =~= before@.insert(key@, value)) by {
                        assert forall|k: Seq<char>| self@.contains_key(k) implies #[trigger] self@[k]
                            == before@.insert(key@, value)[k] by {
                            let j = keys0.index_of(k);
                            if k != key@ {
                                assert(j != i as int);
                                assert(self.entries@[j] == before.entries@[j]);
                            }
                        }
                    }
                },
                None => {
                    assert(self@ =~= before@.insert(key@, value)) by {
                        assert forall|k: Seq<char>| self@.contains_key(k) <==> before@.insert(
                            key@,
                            value,
                        ).contains_key(k) by {
                            if keys1.contains(k) {
                                let j = choose|j: int| 0 <= j < keys1.len() && keys1[j] == k;
                                if j < keys0.len() {
                                    assert(keys0[j] == k);
                                }
                            }
                            if keys0.contains(k) {
                                let j = choose|j: int| 0 <= j < keys0.len() && keys0[j] == k;
                                assert(keys1[j] == k);
                            }
                            if k == key@ {
                                assert(keys1[keys0.len() as int] == k);
                            }
                        }
                        assert forall|k: Seq<char>| self@.contains_key(k) implies #[trigger] self@[k]
                            == before@.insert(key@, value)[k] by {
                            let j1 = keys1.index_of(k);
                            if k == key@ {
                                assert(keys1[keys0.len() as int] == k);
                                assert(j1 == keys0.len());
                            } else {
                                assert(j1 < keys0.len());
                                assert(keys0[j1] == k);
                                let j0 = keys0.index_of(k);
                                assert(j0 == j1);
                            }
                        }
                    }
                },
            }
        }
        earlier
    }

    /// Takes the entry for `key` out of the map.
    pub fn remove(&mut self, key: &str) -> (r: Option<V>)
        ensures
            final(self)@ == old(self)@.remove(key@),
            match r {
                Some(v) => old(self)@.contains_key(key@) && v == old(self)@[key@],
                None => !old(self)@.contains_key(key@),
            },
    {
        proof {
            use_type_invariant(&*self);
        }
        let ghost before = *self;
        let ghost keys0 = keys_of(before.entries@);
        match self.position(key) {
            Some(i) => {
                proof {
                    before.lemma_entry(i as int);
                }
                let mut entries: Vec<(String, V)> = Vec::new();
                core::mem::swap(&mut self.entries, &mut entries);
                let entry = entries.remove(i);
                proof {
                    let keys1 = keys_of(entries@);
                    assert(keys1 =~= keys0.remove(i as int));
                    assert(keys1.no_duplicates()) by {
                        assert forall|a: int, b: int|
                            0 <= a < keys1.len() && 0 <= b < keys1.len() && a != b implies keys1[a]
                            != keys1[b] by {
                            let a0 = if a < i { a } else { a + 1 };
                            let b0 = if b < i { b } else { b + 1 };
                            assert(keys1[a] == keys0[a0]);
                            assert(keys1[b] == keys0[b0]);
                        }
                    }
                }
                self.entries = entries;
                proof {
                    let keys1 = keys_of(self.entries@);
                    assert(self@ =~= before@.remove(key@)) by {
                        assert forall|k: Seq<char>| self@.contains_key(k) <==> before@.remove(
                            key@,
                        ).contains_key(k) by {
                            if keys1.contains(k) {
                                let j = choose|j: int| 0 <= j < keys1.len() && keys1[j] == k;
                                let j0 = if j < i { j } else { j + 1 };
                                assert(keys0[j0] == k);
                                assert(keys0[i as int] == key@);
                            }
                            if keys0.contains(k) && k != key@ {
                                let j = choose|j: int| 0 <= j < keys0.len() && keys0[j] == k;
                                assert(keys0[i as int] == key@);
                                let j1 = if j < i { j } else { j - 1 };
                                assert(keys1[j1] == k);
                            }
                        }
                        assert forall|k: Seq<char>| self@.contains_key(k) implies #[trigger] self@[k]
                            == before@.remove(key@)[k] by {
                            let j1 = keys1.index_of(k);
                            let j0 = if j1 < i { j1 } else { j1 + 1 };
                            assert(keys0[j0] == k);
                            assert(keys0.index_of(k) == j0);
                        }
                    }
                }
                Some(entry.1)
            },
            None => {
                assert(self@ =~= before@.remove(key@));
                None
            },
        }
    }

    /// Removes every entry.
    pub fn clear(&mut self)
        ensures
            final(self)@ == Map::<Seq<char>, V>::empty(),
    {
        self.entries = Vec::new();
        assert(self@ =~= Map::<Seq<char>, V>::empty());
    }

    /// A copy of every key, each once, in `key_order`.
    pub fn keys(&self) -> (r: Vec<String>)
        ensures
            texts(r@) == self.key_order(),
            texts(r@).no_duplicates(),
            texts(r@).to_set() == self@.dom(),
    {
        proof {
            use_type_invariant(self);
            self.lemma_key_order();
        }
        let mut r: Vec<String> = Vec::new();
        let mut i: usize = 0;
        while i < self.entries.len()
            invariant
                i <= self.entries@.len(),
                r@.len() == i,
                forall|j: int| 0 <= j < i ==> r@[j]@ == self.entries@[j].0@,
            decreases self.entries@.len() - i,
        {
            r.push(self.entries[i].0.clone());
            i += 1;
        }
        proof {
            assert(texts(r@) =~= self.key_order());
        }
        r
    }

    /// The key at position `i` of `key_order` and its value.
    pub fn entry_at(&self, i: usize) -> (r: (&String, &V))
        requires
            i < self.key_order().len(),
        ensures
            r.0@ == self.key_order()[i as int],
            self@.contains_key(r.0@),
            *r.1 == self@[r.0@],
    {
        proof {
            use_type_invariant(self);
            self.lemma_entry(i as int);
        }
        (&self.entries[i].0, &self.entries[i].1)
    }
}

impl<V: Clone> Clone for StrMap<V> {
    /// A copy with the same keys in the same order, each with a clone of
    /// its value.
    fn clone(&self) -> (copy: Self)
        ensures
            copy.key_order() == self.key_order(),
            copy@.dom() == self@.dom(),
            forall|k: Seq<char>| #[trigger] copy@.contains_key(k) ==> cloned(self@[k], copy@[k]),
    {
        proof {
            use_type_invariant(self);
        }
        let mut entries: Vec<(String, V)> = Vec::new();
        let mut i: usize = 0;
        while i < self.entries.len()
            invariant
                i <= self.entries@.len(),
                entries@.len() == i,
                forall|j: int| 0 <= j < i ==> (#[trigger] entries@[j]).0@ == self.entries@[j].0@,
                forall|j: int|
                    0 <= j < i ==> cloned(self.entries@[j].1, (#[trigger] entries@[j]).1),
            decreases self.entries@.len() - i,
        {
            let key = self.entries[i].0.clone();
            let value = self.entries[i].1.clone();
            entries.push((key, value));
            i += 1;
        }
        proof {
            assert(keys_of(entries@) =~= keys_of(self.entries@));
        }
        let copy = StrMap { entries };
        proof {
            assert(copy@.dom() =~= self@.dom());
            assert forall|k: Seq<char>| #[trigger] copy@.contains_key(k) implies cloned(
                self@[k],
                copy@[k],
            ) by {
                let j = keys_of(self.entries@).index_of(k);
                assert(keys_of(copy.entries@).index_of(k) == j);
                assert(keys_of(self.entries@)[j] == k);
            }
        }
        copy
    }
}

impl<V> Default for StrMap<V> {
    fn default() -> (m: Self)
        ensures
            m@ == Map::<Seq<char>, V>::empty(),
    {
        Self::new()
    }
}

} // verus!
