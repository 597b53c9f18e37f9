use vstd::prelude::*;
use crate::key::AccountKey;

verus! {

/// A key that can be compared at run time exactly as in specifications.
pub trait DictKey: Copy + Sized {
    fn same_key(&self, other: &Self) -> (r: bool)
        ensures
            r == (*self == *other);
}

impl DictKey for u32 {
    fn same_key(&self, other: &u32) -> (r: bool) {
        *self == *other
    }
}

impl DictKey for AccountKey {
    fn same_key(&self, other: &AccountKey) -> (r: bool) {
        *self == *other
    }
}

/// A finite map from keys to values, kept as a list of entries with distinct keys.
#[verifier::reject_recursive_types(K)]
pub struct Dictionary<K: DictKey, V: Copy> {
    entries: Vec<(K, V)>,
    contents: Ghost<Map<K, V>>,
}

impl<K: DictKey, V: Copy> View for Dictionary<K, V> {
    type V = Map<K, V>;

    closed spec fn view(&self) -> Map<K, V> {
        self.contents@
    }
}

impl<K: DictKey, V: Copy> Dictionary<K, V> {
    /// The entries are pairwise distinct in their keys and list exactly the map.
    pub closed spec fn wf(&self) -> bool {
        &&& forall|i: int, j: int|
            0 <= i < j < self.entries@.len() ==> self.entries@[i].0 != self.entries@[j].0
        &&& forall|i: int|
            0 <= i < self.entries@.len() ==> #[trigger] self.contents@.contains_key(self.entries@[i].0)
                && self.contents@[self.entries@[i].0] == self.entries@[i].1
        &&& forall|k: K|
            #[trigger] self.contents@.contains_key(k) ==> exists|i: int|
                0 <= i < self.entries@.len() && self.entries@[i].0 == k
    }

    fn find(&self, key: &K) -> (r: Option<usize>)
        requires
            self.wf(),
        ensures
            match r {
                Some(i) => i < self.entries@.len() && self.entries@[i as int].0 == *key,
                None => !self@.contains_key(*key),
            },
    {
        let mut i: usize = 0;
        while i < self.entries.len()
            invariant
                self.wf(),
                i <= self.entries@.len(),
                forall|j: int| 0 <= j < i ==> self.entries@[j].0 != *key,
            decreases self.entries@.len() - i,
        {
            if self.entries[i].0.same_key(key) {
                return Some(i);
            }
            i = i + 1;
        }
        None
    }

    /// An empty dictionary.
    pub fn new() -> (r: Self)
        ensures
            r.wf(),
            r@ == Map::<K, V>::empty(),
    {
        Dictionary { entries: Vec::new(), contents: Ghost(Map::empty()) }
    }

    /// The number of entries.
    pub fn len(&self) -> (r: usize)
        requires
            self.wf(),
        ensures
            r == self@.len(),
    {
        proof {
            self.lemma_len();
        }
        self.entries.len()
    }

    proof fn lemma_len(&self)
        requires
            self.wf(),
        ensures
            self@.dom().finite(),
            self@.len() == self.entries@.len(),
        decreases self.entries@.len(),
    {
        let keys = self.entries@.map_values(|e: (K, V)| e.0);
        assert(keys.no_duplicates());
        assert(self@.dom() =~= keys.to_set()) by {
            assert forall|k: K| self@.dom().contains(k) implies keys.to_set().contains(k) by {
                let i = choose|i: int| 0 <= i < self.entries@.len() && self.entries@[i].0 == k;
                assert(keys[i] == k);
            }
            assert forall|k: K| keys.to_set().contains(k) implies self@.dom().contains(k) by {
                let i = choose|i: int| 0 <= i < keys.len() && keys[i] == k;
                assert(self@.contains_key(self.entries@[i].0));
            }
        }
        keys.unique_seq_to_set();
    }

    /// Whether `key` has an entry.
    pub fn contains_key(&self, key: &K) -> (r: bool)
        requires
            self.wf(),
        ensures
            r == self@.contains_key(*key),
    {
        self.find(key).is_some()
    }

    /// The value stored under `key`, if any.
    pub fn get(&self, key: &K) -> (r: Option<V>)
        requires
            self.wf(),
        ensures
            r == (if self@.contains_key(*key) { Some(self@[*key]) } else { None::<V> }),
    {
        match self.find(key) {
            Some(i) => Some(self.entries[i].1),
            None => None,
        }
    }

    /// Stores `value` under `key`, and returns what was stored there before.
    pub fn insert(&mut self, key: K, value: V) -> (r: Option<V>)
        requires
            old(self).wf(),
        ensures
            final(self).wf(),
            final(self)@ == old(self)@.insert(key, value),
            r == (if old(self)@.contains_key(key) { Some(old(self)@[key]) } else { None::<V> }),
    {
        match self.find(&key) {
            Some(i) => {
                let previous = self.entries[i].1;
                self.entries.set(i, (key, value));
                self.contents = Ghost(self.contents@.insert(key, value));
                proof {
                    self.lemma_wf_after_update(*old(self), i as int, key, value);
                }
                Some(previous)
            },
            None => {
                self.entries.push((key, value));
                self.contents = Ghost(self.contents@.insert(key, value));
                proof {
                    assert forall|k: K| #[trigger] self.contents@.contains_key(k) implies exists|i: int|
                        0 <= i < self.entries@.len() && self.entries@[i].0 == k by {
                        if k == key {
                            assert(self.entries@[self.entries@.len() - 1].0 == k);
                        } else {
                            assert(old(self).contents@.contains_key(k));
                            let i = choose|i: int| 0 <= i < old(self).entries@.len() && old(self).entries@[i].0 == k;
                            assert(self.entries@[i].0 == k);
                        }
                    }
                }
                None
            },
        }
    }

    proof fn lemma_wf_after_update(&self, before: Self, i: int, key: K, value: V)
        requires
            before.wf(),
            0 <= i < before.entries@.len(),
            before.entries@[i].0 == key,
            self.entries@ == before.entries@.update(i, (key, value)),
            self.contents@ == before.contents@.insert(key, value),
        ensures
            self.wf(),
    {
        assert forall|k: K| #[trigger] self.contents@.contains_key(k) implies exists|j: int|
            0 <= j < self.entries@.len() && self.entries@[j].0 == k by {
            if k == key {
                assert(self.entries@[i].0 == k);
            } else {
                let j = choose|j: int| 0 <= j < before.entries@.len() && before.entries@[j].0 == k;
                assert(self.entries@[j].0 == k);
            }
        }
    }

    /// Removes the entry of `key`, and returns its value.
    pub fn remove(&mut self, key: &K) -> (r: Option<V>)
        requires
            old(self).wf(),
        ensures
            final(self).wf(),
            final(self)@ == old(self)@.remove(*key),
            r == (if old(self)@.contains_key(*key) { Some(old(self)@[*key]) } else { None::<V> }),
    {
        match self.find(key) {
            Some(i) => {
                let removed = self.entries.remove(i);
                self.contents = Ghost(self.contents@.remove(*key));
                proof {
                    let e = old(self).entries@;
                    assert(self.entries@ =~= e.subrange(0, i as int) + e.subrange(i + 1, e.len() as int));
                    assert forall|a: int, b: int| 0 <= a < b < self.entries@.len() implies
                        self.entries@[a].0 != self.entries@[b].0 by {
                        let a2 = if a < i { a } else { a + 1 };
                        let b2 = if b < i { b } else { b + 1 };
                        assert(self.entries@[a] == e[a2]);
                        assert(self.entries@[b] == e[b2]);
                    }
                    assert forall|j: int| 0 <= j < self.entries@.len() implies
                        #[trigger] self.contents@.contains_key(self.entries@[j].0)
                            && self.contents@[self.entries@[j].0] == self.entries@[j].1 by {
                        let j2 = if j < i { j } else { j + 1 };
                        assert(self.entries@[j] == e[j2]);
                        if j2 < i {
                            assert(e[j2].0 != e[i as int].0);
                        } else {
                            assert(e[i as int].0 != e[j2].0);
                        }
                        assert(old(self).contents@.contains_key(e[j2].0));
                    }
                    assert forall|k: K| #[trigger] self.contents@.contains_key(k) implies exists|j: int|
                        0 <= j < self.entries@.len() && self.entries@[j].0 == k by {
                        let j = choose|j: int| 0 <= j < e.len() && e[j].0 == k;
                        assert(j != i);
                        let j2 = if j < i { j } else { j - 1 };
                        assert(self.entries@[j2] == e[j]);
                    }
                }
                Some(removed.1)
            },
            None => {
                proof {
                    assert(self.contents@.remove(*key) =~= self.contents@);
                }
                None
            },
        }
    }

    /// Removes every entry.
    pub fn clear(&mut self)
        requires
            old(self).wf(),
        ensures
            final(self).wf(),
            final(self)@ == Map::<K, V>::empty(),
    {
        self.entries.clear();
        self.contents = Ghost(Map::empty());
    }

    /// The keys, each once, in storage order.
    pub fn keys(&self) -> (r: Vec<K>)
        requires
            self.wf(),
        ensures
            r@.len() == self@.len(),
            r@.no_duplicates(),
            forall|k: K| #[trigger] r@.contains(k) <==> self@.contains_key(k),
    {
        proof {
            self.lemma_len();
        }
        let mut out: Vec<K> = Vec::new();
        let mut i: usize = 0;
        while i < self.entries.len()
            invariant
                self.wf(),
                i <= self.entries@.len(),
                out@ == self.entries@.subrange(0, i as int).map_values(|e: (K, V)| e.0),
            decreases self.entries@.len() - i,
        {
            out.push(self.entries[i].0);
            i = i + 1;
            proof {
                assert(out@ =~= self.entries@.subrange(0, i as int).map_values(|e: (K, V)| e.0));
            }
        }
        proof {
            assert(self.entries@.subrange(0, self.entries@.len() as int) =~= self.entries@);
            let keys = self.entries@.map_values(|e: (K, V)| e.0);
            assert(out@ == keys);
            assert forall|a: int, b: int| 0 <= a < out@.len() && 0 <= b < out@.len() && a != b implies out@[a]
                != out@[b] by {
                if a < b {
                    assert(self.entries@[a].0 != self.entries@[b].0);
                } else {
                    assert(self.entries@[b].0 != self.entries@[a].0);
                }
            }
            assert forall|k: K| #[trigger] out@.contains(k) <==> self@.contains_key(k) by {
                if out@.contains(k) {
                    let i = choose|i: int| 0 <= i < out@.len() && out@[i] == k;
                    assert(self@.contains_key(self.entries@[i].0));
                }
                if self@.contains_key(k) {
                    let i = choose|i: int| 0 <= i < self.entries@.len() && self.entries@[i].0 == k;
                    assert(out@[i] == k);
                }
            }
        }
        out
    }

    /// The values, one per key, in storage order: the `i`-th value is stored under the
    /// `i`-th of a list of the keys, each key once.
    pub fn values(&self) -> (r: Vec<V>)
        requires
            self.wf(),
        ensures
            r@.len() == self@.len(),
            exists|ks: Seq<K>|
                #![trigger ks.len()]
                ks.len() == r@.len() && ks.no_duplicates() && (forall|k: K| #[trigger] ks.contains(k) <==> self@.contains_key(k))
                    && (forall|i: int| 0 <= i < ks.len() ==> self@[#[trigger] ks[i]] == r@[i]),
    {
        proof {
            self.lemma_len();
        }
        let mut out: Vec<V> = Vec::new();
        let mut i: usize = 0;
        while i < self.entries.len()
            invariant
                self.wf(),
                i <= self.entries@.len(),
                out@ == self.entries@.subrange(0, i as int).map_values(|e: (K, V)| e.1),
            decreases self.entries@.len() - i,
        {
            out.push(self.entries[i].1);
            i = i + 1;
            proof {
                assert(out@ =~= self.entries@.subrange(0, i as int).map_values(|e: (K, V)| e.1));
            }
        }
        proof {
            assert(self.entries@.subrange(0, self.entries@.len() as int) =~= self.entries@);
            assert(out@ == self.entries@.map_values(|e: (K, V)| e.1));
            let ks = self.entries@.map_values(|e: (K, V)| e.0);
            assert forall|a: int, b: int| 0 <= a < ks.len() && 0 <= b < ks.len() && a != b implies ks[a] != ks[b] by {
                if a < b {
                    assert(self.entries@[a].0 != self.entries@[b].0);
                } else {
                    assert(self.entries@[b].0 != self.entries@[a].0);
                }
            }
            assert forall|k: K| #[trigger] ks.contains(k) <==> self@.contains_key(k) by {
                if ks.contains(k) {
                    let i = choose|i: int| 0 <= i < ks.len() && ks[i] == k;
                    assert(self.contents@.contains_key(self.entries@[i].0));
                }
                if self@.contains_key(k) {
                    let i = choose|i: int| 0 <= i < self.entries@.len() && self.entries@[i].0 == k;
                    assert(ks[i] == k);
                }
            }
            assert forall|i: int| 0 <= i < ks.len() implies self@[#[trigger] ks[i]] == out@[i] by {
                assert(self.contents@.contains_key(self.entries@[i].0));
            }
        }
        out
    }

    /// The entries, each key once, in storage order.
    pub fn as_vec(&self) -> (r: Vec<(K, V)>)
        requires
            self.wf(),
        ensures
            forall|i: int| 0 <= i < r@.len() ==> #[trigger] self@.contains_key(r@[i].0)
                && self@[r@[i].0] == r@[i].1,
            forall|k: K| #[trigger] self@.contains_key(k) ==> exists|i: int|
                0 <= i < r@.len() && r@[i].0 == k,
            forall|i: int, j: int| 0 <= i < j < r@.len() ==> r@[i].0 != r@[j].0,
            r@.len() == self@.len(),
    {
        proof {
            self.lemma_len();
        }
        let mut out: Vec<(K, V)> = Vec::new();
        let mut i: usize = 0;
        while i < self.entries.len()
            invariant
                self.wf(),
                i <= self.entries@.len(),
                out@ == self.entries@.subrange(0, i as int),
            decreases self.entries@.len() - i,
        {
            out.push(self.entries[i]);
            i = i + 1;
            proof {
                assert(out@ =~= self.entries@.subrange(0, i as int));
            }
        }
        proof {
            assert(out@ =~= self.entries@);
        }
        out
    }
}

} // verus!
