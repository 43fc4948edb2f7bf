//! A map from strings to values that remembers the order in which keys were
//! first inserted.
use vstd::prelude::*;

use crate::text::str_eq;

verus! {

/// A map from strings to values. Each key occurs once; keys are kept in the
/// order in which they were first inserted.
#[derive(Debug)]
pub struct StringMap<V> {
    entries: Vec<(String, V)>,
}

impl<V> StringMap<V> {
    #[verifier::type_invariant]
    spec fn keys_distinct(self) -> bool {
        forall|i: int, j: int|
            0 <= i < j < self.entries@.len() ==> #[trigger] self.entries@[i].0@ != #[trigger] self.entries@[j].0@
    }

    /// The keys, in the order in which they were first inserted.
    pub closed spec fn keys(&self) -> Seq<Seq<char>> {
        self.entries@.map_values(|e: (String, V)| e.0@)
    }

    /// The values, in the order of their keys.
    pub closed spec fn values(&self) -> Seq<V> {
        self.entries@.map_values(|e: (String, V)| e.1)
    }

    spec fn index_of(&self, k: Seq<char>) -> int {
        choose|i: int| 0 <= i < self.entries@.len() && self.entries@[i].0@ == k
    }

    pub closed spec fn view(&self) -> Map<Seq<char>, V> {
        Map::new(
            |k: Seq<char>| exists|i: int| 0 <= i < self.entries@.len() && self.entries@[i].0@ == k,
            |k: Seq<char>| self.entries@[self.index_of(k)].1,
        )
    }

    proof fn lemma_index(&self, i: int)
        requires
            self.keys_distinct(),
            0 <= i < self.entries@.len(),
        ensures
            self.index_of(self.entries@[i].0@) == i,
            self.view().contains_key(self.entries@[i].0@),
            self.view()[self.entries@[i].0@] == self.entries@[i].1,
    {
        let k = self.entries@[i].0@;
        assert(exists|j: int| 0 <= j < self.entries@.len() && self.entries@[j].0@ == k);
        let j = self.index_of(k);
        if j != i {
            if j < i {
                assert(self.entries@[j].0@ != self.entries@[i].0@);
            } else {
                assert(self.entries@[i].0@ != self.entries@[j].0@);
            }
        }
    }

    proof fn lemma_keys_describe_domain(&self)
        requires
            self.keys_distinct(),
        ensures
            self.keys().no_duplicates(),
            self.keys().len() == self.values().len(),
            forall|k: Seq<char>| #[trigger] self@.contains_key(k) <==> self.keys().contains(k),
            forall|i: int| 0 <= i < self.keys().len() ==> self@[#[trigger] self.keys()[i]] == self.values()[i],
    {
        assert forall|a: int, b: int| 0 <= a < b < self.keys().len() implies self.keys()[a] != self.keys()[b] by {
        }
        assert forall|k: Seq<char>| #[trigger] self@.contains_key(k) <==> self.keys().contains(k) by {
            if self@.contains_key(k) {
                let i = choose|i: int| 0 <= i < self.entries@.len() && self.entries@[i].0@ == k;
                assert(self.keys()[i] == k);
            }
            if self.keys().contains(k) {
                let i = choose|i: int| 0 <= i < self.keys().len() && self.keys()[i] == k;
                assert(self.entries@[i].0@ == k);
            }
        }
        assert forall|i: int| 0 <= i < self.keys().len() implies self@[#[trigger] self.keys()[i]] == self.values()[i] by {
            self.lemma_index(i);
        }
    }

    /// An empty map.
    pub fn new() -> (m: Self)
        ensures
            m@ == Map::<Seq<char>, V>::empty(),
            m.keys() == Seq::<Seq<char>>::empty(),
    {
        let m = StringMap { entries: Vec::new() };
        assert(m@ =~= Map::<Seq<char>, V>::empty());
        assert(m.keys() =~= Seq::<Seq<char>>::empty());
        m
    }

    /// The number of keys. Each key occurs once in the key order, and the key
    /// order lists exactly the map's domain.
    pub fn len(&self) -> (n: usize)
        ensures
            n == self.keys().len(),
            self.keys().no_duplicates(),
            self.keys().len() == self.values().len(),
            forall|k: Seq<char>| #[trigger] self@.contains_key(k) <==> self.keys().contains(k),
            forall|i: int| 0 <= i < self.keys().len() ==> self@[#[trigger] self.keys()[i]] == self.values()[i],
            n == self@.dom().len(),
    {
        proof {
            use_type_invariant(self);
            self.lemma_keys_describe_domain();
            assert(self@.dom() =~= self.keys().to_set());
            self.keys().unique_seq_to_set();
        }
        self.entries.len()
    }

    /// Whether the map has no keys.
    pub fn is_empty(&self) -> (b: bool)
        ensures
            b == (self.keys().len() == 0),
    {
        self.entries.len() == 0
    }

    fn position(&self, key: &str) -> (r: Option<usize>)
        ensures
            match r {
                Some(i) => i < self.entries@.len() && self.entries@[i as int].0@ == key@,
                None => !self@.contains_key(key@),
            },
    {
        let mut i: usize = 0;
        while i < self.entries.len()
            invariant
                i <= self.entries@.len(),
                forall|j: int| 0 <= j < i ==> self.entries@[j].0@ != key@,
            decreases self.entries@.len() - i,
        {
            if str_eq(self.entries[i].0.as_str(), key) {
                return Some(i);
            }
            i = i + 1;
        }
        None
    }

    /// Whether `key` is in the map.
    pub fn contains_key(&self, key: &str) -> (b: bool)
        ensures
            b == self@.contains_key(key@),
    {
        proof {
            use_type_invariant(self);
        }
        match self.position(key) {
            Some(i) => {
                proof {
                    self.lemma_index(i as int);
                }
                true
            },
            None => false,
        }
    }

    /// The value stored under `key`, if any.
    pub fn get(&self, key: &str) -> (r: Option<&V>)
        ensures
            match r {
                Some(v) => self@.contains_key(key@) && *v == self@[key@],
                None => !self@.contains_key(key@),
            },
    {
        proof {
            use_type_invariant(self);
        }
        match self.position(key) {
            Some(i) => {
                proof {
                    self.lemma_index(i as int);
                }
                Some(&self.entries[i].1)
            },
            None => None,
        }
    }

    /// The key and value at position `i` of the insertion order.
    pub fn entry_at(&self, i: usize) -> (r: (&String, &V))
        requires
            i < self.keys().len(),
        ensures
            r.0@ == self.keys()[i as int],
            *r.1 == self.values()[i as int],
            self@[r.0@] == *r.1,
    {
        proof {
            use_type_invariant(self);
            self.lemma_index(i as int);
        }
        let e = &self.entries[i];
        (&e.0, &e.1)
    }

    /// Stores `value` under `key` and returns the value it replaces, if any. A
    /// new key goes to the end of the key order; a known key keeps its place.
    pub fn insert(&mut self, key: String, value: V) -> (r: Option<V>)
        ensures
            final(self)@ == old(self)@.insert(key@, value),
            match r {
                Some(v) => old(self)@.contains_key(key@) && v == old(self)@[key@]
                    && final(self).keys() == old(self).keys(),
                None => !old(self)@.contains_key(key@)
                    && final(self).keys() == old(self).keys().push(key@),
            },
    {
        proof {
            use_type_invariant(&*self);
        }
        let ghost old_entries = self.entries@;
        match self.position(key.as_str()) {
            Some(i) => {
                proof {
                    self.lemma_index(i as int);
                }
                let mut entries: Vec<(String, V)> = Vec::new();
                std::mem::swap(&mut entries, &mut self.entries);
                let (_k, old_v) = entries.remove(i);
                entries.insert(i, (key, value));
                assert(entries@ =~= old_entries.update(i as int, entries@[i as int]));
                proof {
                    assert forall|a: int, b: int| 0 <= a < b < entries@.len() implies
                        #[trigger] entries@[a].0@ != #[trigger] entries@[b].0@ by {
                        assert(old_entries[a].0@ != old_entries[b].0@);
                    }
                }
                self.entries = entries;
                assert(self.view() =~= old(self)@.insert(key@, value)) by {
                    assert forall|k: Seq<char>| #[trigger] self.view().contains_key(k) implies
                        old(self)@.insert(key@, value).contains_key(k) by {
                        let j = choose|j: int| 0 <= j < self.entries@.len() && self.entries@[j].0@ == k;
                        if j != i {
                            assert(old_entries[j].0@ == k);
                        }
                    }
                    assert forall|k: Seq<char>| #[trigger] old(self)@.insert(key@, value).contains_key(k) implies
                        self.view().contains_key(k) by {
                        if k != key@ {
                            let j = choose|j: int| 0 <= j < old_entries.len() && old_entries[j].0@ == k;
                            assert(self.entries@[j].0@ == k);
                        } else {
                            assert(self.entries@[i as int].0@ == k);
                        }
                    }
                    assert forall|k: Seq<char>| #[trigger] self.view().contains_key(k) implies
                        self.view()[k] == old(self)@.insert(key@, value)[k] by {
                        let j = choose|j: int| 0 <= j < self.entries@.len() && self.entries@[j].0@ == k;
                        self.lemma_index(j);
                        if j != i {
                            old(self).lemma_index(j);
                        }
                    }
                }
                assert(self.keys() =~= old(self).keys());
                Some(old_v)
            },
            None => {
                let mut entries: Vec<(String, V)> = Vec::new();
                std::mem::swap(&mut entries, &mut self.entries);
                entries.push((key, value));
                proof {
                    assert forall|a: int, b: int| 0 <= a < b < entries@.len() implies
                        #[trigger] entries@[a].0@ != #[trigger] entries@[b].0@ by {
                        if b == old_entries.len() {
                            assert(old_entries[a].0@ != key@) by {
                                if old_entries[a].0@ == key@ {
                                    assert(old(self)@.contains_key(key@));
                                }
                            }
                        } else {
                            assert(old_entries[a].0@ != old_entries[b].0@);
                        }
                    }
                }
                self.entries = entries;
                assert(self.view() =~= old(self)@.insert(key@, value)) by {
                    assert forall|k: Seq<char>| #[trigger] self.view().contains_key(k) implies
                        old(self)@.insert(key@, value).contains_key(k) by {
                        let j = choose|j: int| 0 <= j < self.entries@.len() && self.entries@[j].0@ == k;
                        if j < old_entries.len() {
                            assert(old_entries[j].0@ == k);
                        }
                    }
                    assert forall|k: Seq<char>| #[trigger] old(self)@.insert(key@, value).contains_key(k) implies
                        self.view().contains_key(k) by {
                        if k != key@ {
                            let j = choose|j: int| 0 <= j < old_entries.len() && old_entries[j].0@ == k;
                            assert(self.entries@[j].0@ == k);
                        } else {
                            assert(self.entries@[old_entries.len() as int].0@ == k);
                        }
                    }
                    assert forall|k: Seq<char>| #[trigger] self.view().contains_key(k) implies
                        self.view()[k] == old(self)@.insert(key@, value)[k] by {
                        let j = choose|j: int| 0 <= j < self.entries@.len() && self.entries@[j].0@ == k;
                        self.lemma_index(j);
                        if j < old_entries.len() {
                            old(self).lemma_index(j);
                        }
                    }
                }
                assert(self.keys() =~= old(self).keys().push(key@));
                None
            },
        }
    }

    /// Removes `key` and returns its value, if it was there; the other keys
    /// keep their order.
    pub fn remove(&mut self, key: &str) -> (r: Option<V>)
        ensures
            final(self)@ == old(self)@.remove(key@),
            match r {
                Some(v) => old(self)@.contains_key(key@) && v == old(self)@[key@]
                    && final(self).keys().len() + 1 == old(self).keys().len(),
                None => !old(self)@.contains_key(key@) && final(self).keys() == old(self).keys(),
            },
    {
        proof {
            use_type_invariant(&*self);
        }
        let ghost old_entries = self.entries@;
        match self.position(key) {
            Some(i) => {
                proof {
                    self.lemma_index(i as int);
                }
                let mut entries: Vec<(String, V)> = Vec::new();
                std::mem::swap(&mut entries, &mut self.entries);
                let (_k, v) = entries.remove(i);
                proof {
                    assert forall|a: int, b: int| 0 <= a < b < entries@.len() implies
                        #[trigger] entries@[a].0@ != #[trigger] entries@[b].0@ by {
                        let oa = if a < i { a } else { a + 1 };
                        let ob = if b < i { b } else { b + 1 };
                        assert(old_entries[oa].0@ != old_entries[ob].0@);
                    }
                }
                self.entries = entries;
                assert(self.view() =~= old(self)@.remove(key@)) by {
                    assert forall|k: Seq<char>| #[trigger] self.view().contains_key(k) implies
                        old(self)@.remove(key@).contains_key(k) by {
                        let j = choose|j: int| 0 <= j < self.entries@.len() && self.entries@[j].0@ == k;
                        let oj = if j < i { j } else { j + 1 };
                        assert(old_entries[oj].0@ == k);
                        assert(old_entries[i as int].0@ != old_entries[oj].0@);
                    }
                    assert forall|k: Seq<char>| #[trigger] old(self)@.remove(key@).contains_key(k) implies
                        self.view().contains_key(k) by {
                        let j = choose|j: int| 0 <= j < old_entries.len() && old_entries[j].0@ == k;
                        if j < i {
                            assert(self.entries@[j].0@ == k);
                        } else {
                            assert(j != i);
                            assert(self.entries@[j - 1].0@ == k);
                        }
                    }
                    assert forall|k: Seq<char>| #[trigger] self.view().contains_key(k) implies
                        self.view()[k] == old(self)@.remove(key@)[k] by {
                        let j = choose|j: int| 0 <= j < self.entries@.len() && self.entries@[j].0@ == k;
                        self.lemma_index(j);
                        let oj = if j < i { j } else { j + 1 };
                        old(self).lemma_index(oj);
                    }
                }
                Some(v)
            },
            None => {
                assert(old(self)@.remove(key@) =~= old(self)@);
                None
            },
        }
    }
}


impl Clone for StringMap<String> {
    fn clone(&self) -> (r: Self)
        ensures
            r@ == self@,
            r.keys() == self.keys(),
            r.values() == self.values(),
    {
        proof {
            use_type_invariant(self);
        }
        let mut entries: Vec<(String, String)> = Vec::new();
        let mut i: usize = 0;
        while i < self.entries.len()
            invariant
                i <= self.entries@.len(),
                entries@ == self.entries@.take(i as int),
            decreases self.entries@.len() - i,
        {
            let e = (self.entries[i].0.clone(), self.entries[i].1.clone());
            entries.push(e);
            assert(entries@ =~= self.entries@.take(i + 1));
            i = i + 1;
        }
        assert(entries@ =~= self.entries@);
        proof {
            use_type_invariant(self);
        }
        let r = StringMap { entries };
        assert(r.keys() =~= self.keys());
        assert(r.values() =~= self.values());
        r
    }
}

} // verus!
