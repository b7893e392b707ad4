//! A small map from string keys to values, kept as a list of entries whose
//! keys are pairwise different. Its abstract value is a `Map` from the
//! keys' character sequences.
use vstd::prelude::*;

verus! {

#[derive(Debug)]
pub struct StrMap<V> {
    entries: Vec<(String, V)>,
}

impl<V> StrMap<V> {
    /// The keys, in entry order.
    pub closed spec fn keys(self) -> Seq<Seq<char>> {
        Seq::new(self.entries@.len(), |i: int| self.entries@[i].0@)
    }

    /// The values, in entry order.
    pub closed spec fn values(self) -> Seq<V> {
        Seq::new(self.entries@.len(), |i: int| self.entries@[i].1)
    }

    #[verifier::type_invariant]
    closed spec fn keys_distinct(self) -> bool {
        self.keys().no_duplicates()
    }

    closed spec fn position(self, k: Seq<char>) -> int {
        choose|i: int| 0 <= i < self.keys().len() && self.keys()[i] == k
    }

    /// The abstract map.
    pub closed spec fn as_map(self) -> Map<Seq<char>, V> {
        Map::new(|k: Seq<char>| self.keys().contains(k), |k: Seq<char>| self.values()[self.position(k)])
    }

    /// The entry list and the abstract map agree: keys are distinct, the
    /// map's keys are the listed ones, and each listed key maps to the value
    /// listed beside it.
    pub open spec fn well_indexed(self) -> bool {
        &&& self.keys().len() == self.values().len()
        &&& self.keys().no_duplicates()
        &&& forall|k: Seq<char>| #[trigger] self.as_map().contains_key(k) <==> self.keys().contains(k)
        &&& forall|i: int|
            0 <= i < self.keys().len() ==> #[trigger] self.as_map()[self.keys()[i]] == self.values()[i]
        &&& self.as_map().dom().finite()
        &&& self.as_map().dom().len() == self.keys().len()
    }

    proof fn lemma_position(self, i: int)
        requires
            self.keys().no_duplicates(),
            0 <= i < self.keys().len(),
        ensures
            self.position(self.keys()[i]) == i,
    {
        let k = self.keys()[i];
        assert(self.keys().contains(k));
        let j = self.position(k);
        assert(0 <= j < self.keys().len() && self.keys()[j] == k);
    }

    proof fn lemma_well_indexed(self)
        requires
            self.keys().no_duplicates(),
        ensures
            self.well_indexed(),
    {
        assert forall|i: int| 0 <= i < self.keys().len() implies #[trigger] self.as_map()[self.keys()[i]]
            == self.values()[i] by {
            self.lemma_position(i);
            assert(self.keys().contains(self.keys()[i]));
        }
        assert(self.as_map().dom() =~= self.keys().to_set());
        self.keys().unique_seq_to_set();
    }

    /// The keys of the map are exactly the listed ones.
    pub proof fn lemma_keys_listed(self)
        ensures
            forall|k: Seq<char>| #[trigger] self@.contains_key(k) <==> self.keys().contains(k),
            forall|i: int| 0 <= i < self.keys().len() ==> self@.contains_key(#[trigger] self.keys()[i]),
    {
        assert forall|i: int| 0 <= i < self.keys().len() implies self@.contains_key(#[trigger] self.keys()[i]) by {
            assert(self.keys().contains(self.keys()[i]));
        }
    }

    pub fn new() -> (r: Self)
        ensures
            r.as_map() == Map::<Seq<char>, V>::empty(),
            r.keys() == Seq::<Seq<char>>::empty(),
            r.well_indexed(),
    {
        let r = StrMap { entries: Vec::new() };
        proof {
            assert(r.keys() =~= Seq::<Seq<char>>::empty());
            assert(r.as_map() =~= Map::<Seq<char>, V>::empty());
            r.lemma_well_indexed();
        }
        r
    }

    /// Number of entries.
    pub fn len(&self) -> (r: usize)
        ensures
            r == self.keys().len(),
            r == self.as_map().dom().len(),
            self.well_indexed(),
    {
        proof {
            use_type_invariant(self);
            self.lemma_well_indexed();
        }
        self.entries.len()
    }

    /// True when the map holds no entry.
    pub fn is_empty(&self) -> (r: bool)
        ensures
            r == (self.as_map().dom() =~= Set::<Seq<char>>::empty()),
            self.well_indexed(),
    {
        proof {
            use_type_invariant(self);
            self.lemma_well_indexed();
            if self.keys().len() > 0 {
                assert(self.keys().contains(self.keys()[0]));
                assert(self.as_map().dom().contains(self.keys()[0]));
            }
        }
        self.entries.len() == 0
    }

    /// The key of entry `i`.
    pub fn key_at(&self, i: usize) -> (r: &String)
        requires
            i < self.keys().len(),
        ensures
            r@ == self.keys()[i as int],
            self.well_indexed(),
    {
        proof {
            use_type_invariant(self);
            self.lemma_well_indexed();
        }
        &self.entries[i].0
    }

    /// The value of entry `i`.
    pub fn value_at(&self, i: usize) -> (r: &V)
        requires
            i < self.keys().len(),
        ensures
            *r == self.values()[i as int],
            self.well_indexed(),
    {
        proof {
            use_type_invariant(self);
            self.lemma_well_indexed();
        }
        &self.entries[i].1
    }

    /// The index of the entry with key `key`, if any.
    fn find(&self, key: &String) -> (r: Option<usize>)
        ensures
            self.well_indexed(),
            match r {
                Some(i) => i < self.keys().len() && self.keys()[i as int] == key@,
                None => !self.keys().contains(key@),
            },
    {
        proof {
            use_type_invariant(self);
            self.lemma_well_indexed();
        }
        let n = self.entries.len();
        let mut i: usize = 0;
        while i < n
            invariant
                n == self.keys().len(),
                self.well_indexed(),
                i <= n,
                forall|j: int| 0 <= j < i ==> self.keys()[j] != key@,
            decreases n - i,
        {
            if self.entries[i].0 == *key {
                return Some(i);
            }
            i = i + 1;
        }
        None
    }

    /// The value stored under `key`.
    pub fn get(&self, key: &String) -> (r: Option<&V>)
        ensures
            self.well_indexed(),
            match r {
                Some(v) => self.as_map().contains_key(key@) && *v == self.as_map()[key@],
                None => !self.as_map().contains_key(key@),
            },
    {
        match self.find(key) {
            Some(i) => Some(&self.entries[i].1),
            None => None,
        }
    }

    /// True when `key` has an entry.
    pub fn contains_key(&self, key: &String) -> (r: bool)
        ensures
            self.well_indexed(),
            r == self.as_map().contains_key(key@),
    {
        self.find(key).is_some()
    }

    /// Stores `value` under `key`, replacing the entry that held the key.
    pub fn insert(&mut self, key: String, value: V)
        ensures
            final(self).as_map() == old(self).as_map().insert(key@, value),
            final(self).well_indexed(),
    {
        proof {
            use_type_invariant(&*self);
            self.lemma_well_indexed();
        }
        let ghost old_keys = self.keys();
        let ghost k = key@;
        match self.find(&key) {
            Some(i) => {
                let mut entries: Vec<(String, V)> = Vec::new();
                std::mem::swap(&mut entries, &mut self.entries);
                entries.set(i, (key, value));
                proof {
                    let t = StrMap { entries };
                    assert(t.keys() =~= old_keys);
                }
                self.entries = entries;
                proof {
                    assert(self.keys() =~= old_keys);
                    self.lemma_well_indexed();
                    assert(self.values() =~= old(self).values().update(i as int, value));
                    assert forall|q: Seq<char>| #[trigger] self.as_map().contains_key(q) implies
                        self.as_map()[q] == old(self).as_map().insert(k, value)[q] by {
                        let j = old_keys.index_of(q);
                        assert(old_keys.contains(q));
                        old(self).lemma_position(self.position(q));
                        self.lemma_position(self.position(q));
                    }
                    assert(self.as_map() =~= old(self).as_map().insert(k, value));
                }
            },
            None => {
                let mut entries: Vec<(String, V)> = Vec::new();
                std::mem::swap(&mut entries, &mut self.entries);
                entries.push((key, value));
                proof {
                    let t = StrMap { entries };
                    assert(t.keys() =~= old_keys.push(k));
                    assert(t.keys().no_duplicates()) by {
                        assert forall|a: int, b: int|
                            0 <= a < t.keys().len() && 0 <= b < t.keys().len() && a != b implies
                            t.keys()[a] != t.keys()[b] by {
                            if a == old_keys.len() {
                                assert(old_keys.contains(t.keys()[b]) || b == a);
                            } else if b == old_keys.len() {
                                assert(old_keys.contains(t.keys()[a]));
                            }
                        }
                    }
                }
                self.entries = entries;
                proof {
                    assert(self.keys() =~= old_keys.push(k));
                    assert(self.keys().no_duplicates()) by {
                        assert forall|a: int, b: int|
                            0 <= a < self.keys().len() && 0 <= b < self.keys().len() && a != b implies
                            self.keys()[a] != self.keys()[b] by {
                            if a == old_keys.len() {
                                assert(old_keys.contains(self.keys()[b]) || b == a);
                            } else if b == old_keys.len() {
                                assert(old_keys.contains(self.keys()[a]));
                            }
                        }
                    }
                    self.lemma_well_indexed();
                    assert(self.values() =~= old(self).values().push(value));
                    assert forall|q: Seq<char>| #[trigger] self.as_map().contains_key(q) implies
                        self.as_map()[q] == old(self).as_map().insert(k, value)[q] by {
                        let p = self.position(q);
                        self.lemma_position(p);
                        if p < old_keys.len() {
                            old(self).lemma_position(p);
                        }
                    }
                    assert forall|q: Seq<char>|
                        #[trigger] old(self).as_map().insert(k, value).contains_key(q) implies
                        self.as_map().contains_key(q) by {
                        if q != k {
                            let j = choose|j: int| 0 <= j < old_keys.len() && old_keys[j] == q;
                            assert(self.keys()[j] == q);
                        } else {
                            assert(self.keys()[old_keys.len() as int] == k);
                        }
                    }
                    assert(self.as_map() =~= old(self).as_map().insert(k, value));
                }
            },
        }
    }

    /// Removes the entry of `key`, if any.
    pub fn remove(&mut self, key: &String)
        ensures
            final(self).as_map() == old(self).as_map().remove(key@),
            final(self).well_indexed(),
    {
        proof {
            use_type_invariant(&*self);
            self.lemma_well_indexed();
        }
        let ghost old_keys = self.keys();
        let ghost k = key@;
        match self.find(key) {
            Some(i) => {
                let mut entries: Vec<(String, V)> = Vec::new();
                std::mem::swap(&mut entries, &mut self.entries);
                entries.remove(i);
                proof {
                    let t = StrMap { entries };
                    assert(t.keys() =~= old_keys.remove(i as int));
                    assert(t.keys().no_duplicates()) by {
                        assert forall|a: int, b: int|
                            0 <= a < t.keys().len() && 0 <= b < t.keys().len() && a != b implies
                            t.keys()[a] != t.keys()[b] by {
                            let oa = if a < i { a } else { a + 1 };
                            let ob = if b < i { b } else { b + 1 };
                            assert(t.keys()[a] == old_keys[oa]);
                            assert(t.keys()[b] == old_keys[ob]);
                        }
                    }
                }
                self.entries = entries;
                proof {
                    assert(self.keys() =~= old_keys.remove(i as int));
                    assert(self.values() =~= old(self).values().remove(i as int));
                    assert(self.keys().no_duplicates()) by {
                        assert forall|a: int, b: int|
                            0 <= a < self.keys().len() && 0 <= b < self.keys().len() && a != b implies
                            self.keys()[a] != self.keys()[b] by {
                            let oa = if a < i { a } else { a + 1 };
                            let ob = if b < i { b } else { b + 1 };
                            assert(self.keys()[a] == old_keys[oa]);
                            assert(self.keys()[b] == old_keys[ob]);
                        }
                    }
                    self.lemma_well_indexed();
                    assert forall|q: Seq<char>| #[trigger] self.as_map().contains_key(q) implies
                        self.as_map()[q] == old(self).as_map()[q] && q != k by {
                        let p = self.position(q);
                        self.lemma_position(p);
                        let op = if p < i { p } else { p + 1 };
                        assert(old_keys[op] == q);
                        old(self).lemma_position(op);
                    }
                    assert forall|q: Seq<char>|
                        #[trigger] old(self).as_map().remove(k).contains_key(q) implies
                        self.as_map().contains_key(q) by {
                        let j = choose|j: int| 0 <= j < old_keys.len() && old_keys[j] == q;
                        assert(j != i);
                        let nj = if j < i { j } else { j - 1 };
                        assert(self.keys()[nj] == q);
                    }
                    assert(self.as_map() =~= old(self).as_map().remove(k));
                }
            },
            None => {
                proof {
                    assert(old(self).as_map().remove(k) =~= old(self).as_map());
                }
            },
        }
    }
}

impl<V> StrMap<V> {
    /// Keeps exactly the entries `i` with `keep[i]`; `keep` follows the
    /// entry order of `keys()`.
    pub fn retain_mask(&mut self, keep: &Vec<bool>)
        requires
            keep@.len() == old(self).keys().len(),
        ensures
            final(self).well_indexed(),
            forall|i: int|
                0 <= i < keep@.len() ==> final(self).as_map().contains_key(old(self).keys()[i])
                    == keep@[i],
            forall|k: Seq<char>| #[trigger]
                final(self).as_map().contains_key(k) ==> old(self).as_map().contains_key(k)
                    && final(self).as_map()[k] == old(self).as_map()[k],
    {
        proof {
            use_type_invariant(&*self);
            self.lemma_well_indexed();
        }
        let ghost old_map = StrMap { entries: self.entries };
        let ghost okeys = self.keys();
        let mut rest: Vec<(String, V)> = Vec::new();
        std::mem::swap(&mut rest, &mut self.entries);
        let n = rest.len();
        let mut kept: Vec<(String, V)> = Vec::new();
        let ghost mut src: Seq<int> = Seq::empty();
        let mut i: usize = 0;
        while i < n
            invariant
                n == okeys.len(),
                keep@.len() == n,
                okeys == old_map.keys(),
                okeys.no_duplicates(),
                old_map.well_indexed(),
                i <= n,
                rest@ == old_map.entries@.subrange(i as int, n as int),
                kept@.len() == src.len(),
                forall|j: int| 0 <= j < src.len() ==> 0 <= #[trigger] src[j] < i,
                forall|j: int| 0 <= j < src.len() ==> keep@[#[trigger] src[j]],
                forall|j: int| 0 <= j < src.len() ==> kept@[j] == old_map.entries@[#[trigger] src[j]],
                forall|a: int, b: int| 0 <= a < b < src.len() ==> src[a] < src[b],
                forall|t: int| 0 <= t < i && keep@[t] ==> exists|j: int| 0 <= j < src.len() && src[j] == t,
            decreases n - i,
        {
            let entry = rest.remove(0);
            let ghost old_src = src;
            if keep[i] {
                kept.push(entry);
                proof {
                    src = src.push(i as int);
                }
            }
            proof {
                assert forall|t: int| 0 <= t < i + 1 && keep@[t] implies exists|j: int|
                    0 <= j < src.len() && src[j] == t by {
                    if t == i {
                        assert(src[src.len() - 1] == t);
                    } else {
                        let j = choose|j: int| 0 <= j < old_src.len() && old_src[j] == t;
                        assert(src[j] == t);
                    }
                }
            }
            i = i + 1;
        }
        proof {
            let t = StrMap { entries: kept };
            assert forall|a: int, b: int| 0 <= a < t.keys().len() && 0 <= b < t.keys().len() && a != b implies
                t.keys()[a] != t.keys()[b] by {
                assert(t.keys()[a] == okeys[src[a]]);
                assert(t.keys()[b] == okeys[src[b]]);
                if a < b {
                    assert(src[a] < src[b]);
                } else {
                    assert(src[b] < src[a]);
                }
            }
        }
        self.entries = kept;
        proof {
            self.lemma_well_indexed();
            assert forall|j: int| 0 <= j < src.len() implies self.keys()[j] == okeys[src[j]]
                && self.values()[j] == old_map.values()[src[j]] by {
            }
            assert forall|i: int| 0 <= i < keep@.len() implies self.as_map().contains_key(okeys[i])
                == keep@[i] by {
                if keep@[i] {
                    let j = choose|j: int| 0 <= j < src.len() && src[j] == i;
                    assert(self.keys()[j] == okeys[i]);
                } else if self.keys().contains(okeys[i]) {
                    let j = choose|j: int| 0 <= j < self.keys().len() && self.keys()[j] == okeys[i];
                    assert(okeys[src[j]] == okeys[i]);
                    assert(src[j] == i);
                }
            }
            assert forall|k: Seq<char>| #[trigger] self.as_map().contains_key(k) implies
                old_map.as_map().contains_key(k) && self.as_map()[k] == old_map.as_map()[k] by {
                let j = choose|j: int| 0 <= j < self.keys().len() && self.keys()[j] == k;
                assert(okeys[src[j]] == k);
                assert(okeys.contains(k));
                assert(self.as_map()[self.keys()[j]] == self.values()[j]);
                assert(old_map.as_map()[okeys[src[j]]] == old_map.values()[src[j]]);
            }
            assert(old_map.as_map() == old(self).as_map());
        }
    }
}

impl<V: Clone> Clone for StrMap<V> {
    /// A copy whose keys are the same and whose values are clones.
    fn clone(&self) -> (r: Self)
        ensures
            r.well_indexed(),
            r.keys() == self.keys(),
            r.as_map().dom() == self.as_map().dom(),
            forall|i: int| 0 <= i < self.keys().len() ==> cloned::<V>(self.values()[i], #[trigger] r.values()[i]),
            forall|k: Seq<char>| #[trigger] r.as_map().contains_key(k) ==> cloned::<V>(self.as_map()[k], r.as_map()[k]),
    {
        proof {
            use_type_invariant(self);
            self.lemma_well_indexed();
        }
        let n = self.entries.len();
        let mut out: Vec<(String, V)> = Vec::new();
        let mut i: usize = 0;
        while i < n
            invariant
                n == self.keys().len(),
                self.well_indexed(),
                i <= n,
                out@.len() == i,
                forall|j: int| 0 <= j < i ==> (#[trigger] out@[j]).0@ == self.keys()[j],
                forall|j: int| 0 <= j < i ==> cloned::<V>(self.values()[j], (#[trigger] out@[j]).1),
            decreases n - i,
        {
            let k = self.entries[i].0.clone();
            let v = self.entries[i].1.clone();
            out.push((k, v));
            i = i + 1;
        }
        let r = StrMap { entries: out };
        proof {
            assert(r.keys() =~= self.keys());
        }
        proof {
            r.lemma_well_indexed();
            assert(r.as_map().dom() =~= self.as_map().dom());
            assert forall|k: Seq<char>| #[trigger] r.as_map().contains_key(k) implies cloned::<V>(
                self.as_map()[k], r.as_map()[k]) by {
                let j = choose|j: int| 0 <= j < r.keys().len() && r.keys()[j] == k;
                assert(r.as_map()[r.keys()[j]] == r.values()[j]);
                assert(self.as_map()[self.keys()[j]] == self.values()[j]);
            }
        }
        r
    }
}

impl<V> View for StrMap<V> {
    type V = Map<Seq<char>, V>;

    open spec fn view(&self) -> Map<Seq<char>, V> {
        self.as_map()
    }
}

} // verus!
