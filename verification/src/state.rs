//! The state layer: a key-value store whose root hash covers every entry in
//! key order, with the history of root hashes it has had.
use vstd::prelude::*;

use crate::bytes::{bytes_less, compare_bytes, le_bytes, lemma_bytes_less_irreflexive,
    lemma_bytes_less_total, lemma_bytes_less_transitive, push_le_bytes};
use crate::clock::now_secs;
use crate::execution::{changes_view, StateChange, StateChangeView};
use crate::hashing::{is_digest_text, push_str_bytes, sha256_hex, sha256_hex_text};
use crate::text::{push_str, str_eq};
use vstd::utf8::encode_utf8;

verus! {

broadcast use vstd::utf8::encode_utf8_decode_utf8;

/// A stored value with its version (0 for the first write, one more for each
/// later write of the key) and the time of its last write.
#[derive(Debug)]
pub struct StateValue {
    pub value: String,
    pub version: u64,
    pub timestamp: u64,
}

pub struct StateValueView {
    pub value: Seq<char>,
    pub version: u64,
    pub timestamp: u64,
}

impl View for StateValue {
    type V = StateValueView;

    open spec fn view(&self) -> StateValueView {
        StateValueView { value: self.value@, version: self.version, timestamp: self.timestamp }
    }
}

impl Clone for StateValue {
    fn clone(&self) -> (r: Self)
        ensures
            r == *self,
    {
        StateValue { value: self.value.clone(), version: self.version, timestamp: self.timestamp }
    }
}

/// A node of a Merkle tree.
#[derive(Debug)]
pub struct MerkleNode {
    pub hash: String,
    pub left: Option<Box<MerkleNode>>,
    pub right: Option<Box<MerkleNode>>,
    pub data: Option<String>,
}

// ---------------------------------------------------------------------------
// Sequences of (key, value) pairs read as maps.
// ---------------------------------------------------------------------------

/// No key occurs twice.
pub open spec fn distinct_keys<V>(s: Seq<(Seq<char>, V)>) -> bool {
    forall|i: int, j: int| 0 <= i < j < s.len() ==> #[trigger] s[i].0 != #[trigger] s[j].0
}

/// The position of key `k` (meaningful when it occurs).
pub open spec fn key_index<V>(s: Seq<(Seq<char>, V)>, k: Seq<char>) -> int {
    choose|i: int| 0 <= i < s.len() && s[i].0 == k
}

/// The map a sequence of (key, value) pairs describes.
pub open spec fn map_of<V>(s: Seq<(Seq<char>, V)>) -> Map<Seq<char>, V> {
    Map::new(
        |k: Seq<char>| exists|i: int| 0 <= i < s.len() && s[i].0 == k,
        |k: Seq<char>| s[key_index(s, k)].1,
    )
}

pub proof fn lemma_map_of_at<V>(s: Seq<(Seq<char>, V)>, i: int)
    requires
        distinct_keys(s),
        0 <= i < s.len(),
    ensures
        key_index(s, s[i].0) == i,
        map_of(s).contains_key(s[i].0),
        map_of(s)[s[i].0] == s[i].1,
{
    let k = s[i].0;
    assert(exists|j: int| 0 <= j < s.len() && s[j].0 == k);
    let j = key_index(s, k);
    if j != i {
        if j < i {
            assert(s[j].0 != s[i].0);
        } else {
            assert(s[i].0 != s[j].0);
        }
    }
}

pub proof fn lemma_map_of_update<V>(s: Seq<(Seq<char>, V)>, i: int, v: V)
    requires
        distinct_keys(s),
        0 <= i < s.len(),
    ensures
        distinct_keys(s.update(i, (s[i].0, v))),
        map_of(s.update(i, (s[i].0, v))) == map_of(s).insert(s[i].0, v),
{
    let t = s.update(i, (s[i].0, v));
    assert forall|a: int, b: int| 0 <= a < b < t.len() implies #[trigger] t[a].0 != #[trigger] t[b].0 by {
        assert(s[a].0 != s[b].0);
    }
    assert forall|k: Seq<char>| #[trigger] map_of(t).contains_key(k) == map_of(s).insert(s[i].0, v).contains_key(k) by {
        if map_of(t).contains_key(k) {
            let j = choose|j: int| 0 <= j < t.len() && t[j].0 == k;
            assert(s[j].0 == k);
        }
        if map_of(s).contains_key(k) {
            let j = choose|j: int| 0 <= j < s.len() && s[j].0 == k;
            assert(t[j].0 == k);
        }
        if k == s[i].0 {
            assert(t[i].0 == k);
        }
    }
    assert forall|k: Seq<char>| #[trigger] map_of(t).contains_key(k) implies map_of(t)[k] == map_of(s).insert(s[i].0, v)[k] by {
        let j = choose|j: int| 0 <= j < t.len() && t[j].0 == k;
        lemma_map_of_at(t, j);
        if j != i {
            lemma_map_of_at(s, j);
        }
    }
    assert(map_of(t) =~= map_of(s).insert(s[i].0, v));
}

pub proof fn lemma_map_of_insert<V>(s: Seq<(Seq<char>, V)>, i: int, k: Seq<char>, v: V)
    requires
        distinct_keys(s),
        0 <= i <= s.len(),
        !map_of(s).contains_key(k),
    ensures
        distinct_keys(s.insert(i, (k, v))),
        map_of(s.insert(i, (k, v))) == map_of(s).insert(k, v),
{
    let t = s.insert(i, (k, v));
    assert forall|j: int| 0 <= j < s.len() implies s[j].0 != k by {
        if s[j].0 == k {
            assert(map_of(s).contains_key(k));
        }
    }
    assert forall|a: int, b: int| 0 <= a < b < t.len() implies #[trigger] t[a].0 != #[trigger] t[b].0 by {
        if a == i {
            assert(t[b].0 == s[b - 1].0);
        } else if b == i {
            assert(t[a].0 == s[a].0);
        } else {
            let oa = if a < i { a } else { a - 1 };
            let ob = if b < i { b } else { b - 1 };
            assert(s[oa].0 != s[ob].0);
        }
    }
    assert forall|q: Seq<char>| #[trigger] map_of(t).contains_key(q) == map_of(s).insert(k, v).contains_key(q) by {
        if map_of(t).contains_key(q) {
            let j = choose|j: int| 0 <= j < t.len() && t[j].0 == q;
            if j < i {
                assert(s[j].0 == q);
            } else if j > i {
                assert(s[j - 1].0 == q);
            }
        }
        if map_of(s).contains_key(q) {
            let j = choose|j: int| 0 <= j < s.len() && s[j].0 == q;
            if j < i {
                assert(t[j].0 == q);
            } else {
                assert(t[j + 1].0 == q);
            }
        }
        if q == k {
            assert(t[i].0 == q);
        }
    }
    assert forall|q: Seq<char>| #[trigger] map_of(t).contains_key(q) implies map_of(t)[q] == map_of(s).insert(k, v)[q] by {
        let j = choose|j: int| 0 <= j < t.len() && t[j].0 == q;
        lemma_map_of_at(t, j);
        if j < i {
            lemma_map_of_at(s, j);
        } else if j > i {
            lemma_map_of_at(s, j - 1);
        }
    }
    assert(map_of(t) =~= map_of(s).insert(k, v));
}

pub proof fn lemma_map_of_remove<V>(s: Seq<(Seq<char>, V)>, i: int)
    requires
        distinct_keys(s),
        0 <= i < s.len(),
    ensures
        distinct_keys(s.remove(i)),
        map_of(s.remove(i)) == map_of(s).remove(s[i].0),
{
    let t = s.remove(i);
    let k = s[i].0;
    assert forall|a: int, b: int| 0 <= a < b < t.len() implies #[trigger] t[a].0 != #[trigger] t[b].0 by {
        let oa = if a < i { a } else { a + 1 };
        let ob = if b < i { b } else { b + 1 };
        assert(s[oa].0 != s[ob].0);
    }
    assert forall|q: Seq<char>| #[trigger] map_of(t).contains_key(q) == map_of(s).remove(k).contains_key(q) by {
        if map_of(t).contains_key(q) {
            let j = choose|j: int| 0 <= j < t.len() && t[j].0 == q;
            let oj = if j < i { j } else { j + 1 };
            assert(s[oj].0 == q);
            assert(s[i].0 != s[oj].0);
        }
        if map_of(s).remove(k).contains_key(q) {
            let j = choose|j: int| 0 <= j < s.len() && s[j].0 == q;
            if j < i {
                assert(t[j].0 == q);
            } else {
                assert(j != i);
                assert(t[j - 1].0 == q);
            }
        }
    }
    assert forall|q: Seq<char>| #[trigger] map_of(t).contains_key(q) implies map_of(t)[q] == map_of(s).remove(k)[q] by {
        let j = choose|j: int| 0 <= j < t.len() && t[j].0 == q;
        lemma_map_of_at(t, j);
        let oj = if j < i { j } else { j + 1 };
        lemma_map_of_at(s, oj);
    }
    assert(map_of(t) =~= map_of(s).remove(k));
}

// ---------------------------------------------------------------------------
// Entries kept in key order.
// ---------------------------------------------------------------------------

/// Entries are in strictly increasing order of their keys' UTF-8 bytes (the
/// order in which `String`s compare).
pub open spec fn sorted_by_key<V>(s: Seq<(Seq<char>, V)>) -> bool {
    forall|i: int, j: int| 0 <= i < j < s.len() ==> bytes_less(encode_utf8(#[trigger] s[i].0), encode_utf8(#[trigger] s[j].0))
}

pub proof fn lemma_sorted_distinct<V>(s: Seq<(Seq<char>, V)>)
    requires
        sorted_by_key(s),
    ensures
        distinct_keys(s),
{
    assert forall|i: int, j: int| 0 <= i < j < s.len() implies #[trigger] s[i].0 != #[trigger] s[j].0 by {
        if s[i].0 == s[j].0 {
            lemma_bytes_less_irreflexive(encode_utf8(s[i].0));
        }
    }
}

/// Different characters have different UTF-8 encodings.
pub proof fn lemma_encode_injective(a: Seq<char>, b: Seq<char>)
    requires
        encode_utf8(a) == encode_utf8(b),
    ensures
        a == b,
{
    vstd::utf8::encode_utf8_decode_utf8(a);
    vstd::utf8::encode_utf8_decode_utf8(b);
}

/// The number of entries whose keys come before `k`: where `k` belongs.
pub open spec fn insert_position<V>(s: Seq<(Seq<char>, V)>, k: Seq<char>) -> int
    decreases s.len(),
{
    if s.len() > 0 && bytes_less(encode_utf8(s[0].0), encode_utf8(k)) {
        1 + insert_position(s.drop_first(), k)
    } else {
        0
    }
}

proof fn lemma_insert_position<V>(s: Seq<(Seq<char>, V)>, k: Seq<char>, i: int)
    requires
        0 <= i <= s.len(),
        forall|j: int| 0 <= j < i ==> bytes_less(encode_utf8(#[trigger] s[j].0), encode_utf8(k)),
        i == s.len() || !bytes_less(encode_utf8(s[i].0), encode_utf8(k)),
    ensures
        insert_position(s, k) == i,
    decreases i,
{
    if i > 0 {
        let t = s.drop_first();
        assert forall|j: int| 0 <= j < i - 1 implies bytes_less(encode_utf8(#[trigger] t[j].0), encode_utf8(k)) by {
            assert(t[j] == s[j + 1]);
        }
        lemma_insert_position(t, k, i - 1);
    }
}

/// The entries after storing `v` under `k`: an existing entry for `k` is
/// replaced in place; otherwise a new entry goes where the order puts it.
pub open spec fn sorted_put<V>(s: Seq<(Seq<char>, V)>, k: Seq<char>, v: V) -> Seq<(Seq<char>, V)> {
    let i = insert_position(s, k);
    if i < s.len() && s[i].0 == k {
        s.update(i, (k, v))
    } else {
        s.insert(i, (k, v))
    }
}

/// The entries without the one for `k`, if there is one.
pub open spec fn without_key<V>(s: Seq<(Seq<char>, V)>, k: Seq<char>) -> Seq<(Seq<char>, V)> {
    if map_of(s).contains_key(k) {
        s.remove(key_index(s, k))
    } else {
        s
    }
}

/// Entries in key order, each key once.
#[derive(Debug)]
pub struct OrderedStore {
    entries: Vec<(String, StateValue)>,
}

pub open spec fn entry_view(e: (String, StateValue)) -> (Seq<char>, StateValueView) {
    (e.0@, e.1@)
}

impl OrderedStore {
    #[verifier::type_invariant]
    spec fn in_key_order(self) -> bool {
        sorted_by_key(self.entries())
    }

    /// The entries, in key order.
    pub closed spec fn entries(&self) -> Seq<(Seq<char>, StateValueView)> {
        self.entries@.map_values(|e: (String, StateValue)| entry_view(e))
    }

    pub open spec fn view(&self) -> Map<Seq<char>, StateValueView> {
        map_of(self.entries())
    }

    /// The entries are in key order, each key once.
    pub fn check_order(&self)
        ensures
            sorted_by_key(self.entries()),
            distinct_keys(self.entries()),
    {
        proof {
            use_type_invariant(self);
            lemma_sorted_distinct(self.entries());
        }
    }

    pub fn new() -> (s: Self)
        ensures
            s.entries() == Seq::<(Seq<char>, StateValueView)>::empty(),
    {
        let s = OrderedStore { entries: Vec::new() };
        assert(s.entries() =~= Seq::<(Seq<char>, StateValueView)>::empty());
        s
    }

    pub fn len(&self) -> (n: usize)
        ensures
            n == self.entries().len(),
    {
        self.entries.len()
    }

    /// The entry at position `i` of the key order.
    pub fn entry_at(&self, i: usize) -> (r: (&String, &StateValue))
        requires
            i < self.entries().len(),
        ensures
            (r.0@, r.1@) == self.entries()[i as int],
    {
        let e = &self.entries[i];
        (&e.0, &e.1)
    }

    fn position(&self, key: &str) -> (r: Option<usize>)
        ensures
            match r {
                Some(i) => i < self.entries().len() && self.entries()[i as int].0 == key@,
                None => !self@.contains_key(key@),
            },
    {
        let mut i: usize = 0;
        while i < self.entries.len()
            invariant
                i <= self.entries@.len(),
                forall|j: int| 0 <= j < i ==> self.entries()[j].0 != key@,
            decreases self.entries@.len() - i,
        {
            if str_eq(self.entries[i].0.as_str(), key) {
                return Some(i);
            }
            i = i + 1;
        }
        proof {
            if self@.contains_key(key@) {
                let j = choose|j: int| 0 <= j < self.entries().len() && self.entries()[j].0 == key@;
                assert(self.entries()[j].0 != key@);
            }
        }
        None
    }

    /// The value stored under `key`, if any.
    pub fn get(&self, key: &str) -> (r: Option<&StateValue>)
        ensures
            match r {
                Some(v) => self@.contains_key(key@) && v@ == self@[key@],
                None => !self@.contains_key(key@),
            },
    {
        proof {
            use_type_invariant(self);
            lemma_sorted_distinct(self.entries());
        }
        match self.position(key) {
            Some(i) => {
                proof {
                    lemma_map_of_at(self.entries(), i as int);
                }
                Some(&self.entries[i].1)
            },
            None => None,
        }
    }

    /// Stores `value` under `key`, keeping the key order.
    pub fn put(&mut self, key: String, value: StateValue)
        ensures
            final(self).entries() == sorted_put(old(self).entries(), key@, value@),
            final(self)@ == old(self)@.insert(key@, value@),
    {
        proof {
            use_type_invariant(&*self);
            lemma_sorted_distinct(self.entries());
        }
        let ghost s = self.entries();
        let ghost k = key@;
        let kb = key.as_str().as_bytes();
        let mut i: usize = 0;
        let mut found = false;
        while i < self.entries.len()
            invariant
                s == self.entries(),
                kb@ == encode_utf8(k),
                i <= s.len(),
                forall|j: int| 0 <= j < i ==> bytes_less(encode_utf8(#[trigger] s[j].0), encode_utf8(k)),
                found ==> i < s.len() && !bytes_less(encode_utf8(s[i as int].0), encode_utf8(k)),
            ensures
                i <= s.len(),
                found ==> i < s.len() && !bytes_less(encode_utf8(s[i as int].0), encode_utf8(k)),
                !found ==> i == s.len(),
            decreases s.len() - i,
        {
            let c = compare_bytes(self.entries[i].0.as_str().as_bytes(), kb);
            if c != -1 {
                found = true;
                break;
            }
            i = i + 1;
        }
        proof {
            lemma_insert_position(s, k, i as int);
        }
        let at_key = found && str_eq(self.entries[i].0.as_str(), key.as_str());
        let ghost vv = value@;
        let mut entries: Vec<(String, StateValue)> = Vec::new();
        std::mem::swap(&mut entries, &mut self.entries);
        if at_key {
            entries.remove(i);
            entries.insert(i, (key, value));
            proof {
                assert(entries@.map_values(|e: (String, StateValue)| entry_view(e)) =~= s.update(i as int, (k, vv)));
                lemma_map_of_update(s, i as int, vv);
                let t = s.update(i as int, (k, vv));
                assert forall|a: int, b: int| 0 <= a < b < t.len() implies
                    bytes_less(encode_utf8(#[trigger] t[a].0), encode_utf8(#[trigger] t[b].0)) by {
                    assert(s[a].0 == t[a].0 && s[b].0 == t[b].0);
                }
            }
            self.entries = entries;
        } else {
            entries.insert(i, (key, value));
            proof {
                let t = s.insert(i as int, (k, vv));
                assert(entries@.map_values(|e: (String, StateValue)| entry_view(e)) =~= t);
                // every later key comes after k
                assert forall|j: int| i <= j < s.len() implies bytes_less(encode_utf8(k), encode_utf8(#[trigger] s[j].0)) by {
                    let si = encode_utf8(s[i as int].0);
                    lemma_bytes_less_total(si, encode_utf8(k));
                    if si == encode_utf8(k) {
                        lemma_encode_injective(s[i as int].0, k);
                    }
                    if j > i {
                        lemma_bytes_less_transitive(encode_utf8(k), si, encode_utf8(s[j].0));
                    }
                }
                assert(!map_of(s).contains_key(k)) by {
                    if map_of(s).contains_key(k) {
                        let j = choose|j: int| 0 <= j < s.len() && s[j].0 == k;
                        lemma_bytes_less_irreflexive(encode_utf8(k));
                    }
                }
                lemma_map_of_insert(s, i as int, k, vv);
                assert forall|a: int, b: int| 0 <= a < b < t.len() implies
                    bytes_less(encode_utf8(#[trigger] t[a].0), encode_utf8(#[trigger] t[b].0)) by {
                    if a == i {
                        assert(t[b] == s[b - 1]);
                    } else if b == i {
                        assert(t[a] == s[a]);
                    } else {
                        let oa = if a < i { a } else { a - 1 };
                        let ob = if b < i { b } else { b - 1 };
                        assert(t[a] == s[oa] && t[b] == s[ob]);
                    }
                }
            }
            self.entries = entries;
        }
    }

    /// Removes the entry for `key`, if there is one, keeping the key order.
    pub fn remove(&mut self, key: &str) -> (r: Option<StateValue>)
        ensures
            final(self).entries() == without_key(old(self).entries(), key@),
            final(self)@ == old(self)@.remove(key@),
            match r {
                Some(v) => old(self)@.contains_key(key@) && v@ == old(self)@[key@],
                None => !old(self)@.contains_key(key@),
            },
    {
        proof {
            use_type_invariant(&*self);
            lemma_sorted_distinct(self.entries());
        }
        let ghost s = self.entries();
        match self.position(key) {
            Some(i) => {
                proof {
                    lemma_map_of_at(s, i as int);
                    lemma_map_of_remove(s, i as int);
                }
                let mut entries: Vec<(String, StateValue)> = Vec::new();
                std::mem::swap(&mut entries, &mut self.entries);
                let (_k, v) = entries.remove(i);
                proof {
                    let t = s.remove(i as int);
                    assert(entries@.map_values(|e: (String, StateValue)| entry_view(e)) =~= t);
                    assert forall|a: int, b: int| 0 <= a < b < t.len() implies
                        bytes_less(encode_utf8(#[trigger] t[a].0), encode_utf8(#[trigger] t[b].0)) by {
                        let oa = if a < i { a } else { a + 1 };
                        let ob = if b < i { b } else { b + 1 };
                        assert(t[a] == s[oa] && t[b] == s[ob]);
                    }
                }
                self.entries = entries;
                Some(v)
            },
            None => {
                assert(old(self)@.remove(key@) =~= old(self)@);
                None
            },
        }
    }

    /// A copy with the same entries.
    pub fn copy(&self) -> (r: Self)
        ensures
            r.entries() == self.entries(),
    {
        proof {
            use_type_invariant(self);
        }
        let mut v: Vec<(String, StateValue)> = Vec::new();
        let mut i: usize = 0;
        while i < self.entries.len()
            invariant
                i <= self.entries@.len(),
                v@.map_values(|e: (String, StateValue)| entry_view(e)) == self.entries().take(i as int),
            decreases self.entries@.len() - i,
        {
            let e = &self.entries[i];
            let ghost before = v@;
            let pair = (e.0.clone(), e.1.clone());
            assert(entry_view(pair) == self.entries()[i as int]);
            v.push(pair);
            assert(v@ == before.push(pair));
            assert(v@.map_values(|e: (String, StateValue)| entry_view(e)) =~= before.map_values(|e: (String, StateValue)| entry_view(e)).push(entry_view(pair)));
            assert(self.entries().take(i + 1) =~= self.entries().take(i as int).push(self.entries()[i as int]));
            i = i + 1;
        }
        assert(self.entries().take(i as int) =~= self.entries());
        OrderedStore { entries: v }
    }
}

// ---------------------------------------------------------------------------
// The store.
// ---------------------------------------------------------------------------

/// The bytes the root hash is computed over: for each entry in key order, its
/// key, its value, then its version and timestamp as little-endian 64-bit
/// integers.
pub open spec fn entries_bytes(s: Seq<(Seq<char>, StateValueView)>) -> Seq<u8>
    decreases s.len(),
{
    if s.len() == 0 {
        Seq::empty()
    } else {
        let (k, v) = s.last();
        entries_bytes(s.drop_last()) + encode_utf8(k) + encode_utf8(v.value) + le_bytes(v.version)
            + le_bytes(v.timestamp)
    }
}

/// The root hash of a set of entries: the hexadecimal SHA-256 of their bytes.
pub open spec fn root_of(s: Seq<(Seq<char>, StateValueView)>) -> Seq<char> {
    sha256_hex_text(entries_bytes(s))
}

/// Entries kept in key order are fixed by the map they describe: two sorted
/// sequences of entries that describe the same map are the same sequence.
pub proof fn lemma_sorted_entries_determined<V>(a: Seq<(Seq<char>, V)>, b: Seq<(Seq<char>, V)>)
    requires
        sorted_by_key(a),
        sorted_by_key(b),
        map_of(a) == map_of(b),
    ensures
        a == b,
    decreases a.len(),
{
    lemma_sorted_distinct(a);
    lemma_sorted_distinct(b);
    if a.len() == 0 {
        if b.len() > 0 {
            lemma_map_of_at(b, 0);
            assert(map_of(a).contains_key(b[0].0));
        }
        assert(a =~= b);
    } else if b.len() == 0 {
        lemma_map_of_at(a, 0);
        assert(map_of(b).contains_key(a[0].0));
    } else {
        lemma_map_of_at(a, 0);
        lemma_map_of_at(b, 0);
        let ka = a[0].0;
        let kb = b[0].0;
        let i = choose|i: int| 0 <= i < a.len() && a[i].0 == kb;
        let j = choose|j: int| 0 <= j < b.len() && b[j].0 == ka;
        if ka != kb {
            assert(i != 0);
            assert(j != 0);
            assert(bytes_less(encode_utf8(a[0].0), encode_utf8(a[i].0)));
            assert(bytes_less(encode_utf8(b[0].0), encode_utf8(b[j].0)));
            lemma_bytes_less_transitive(encode_utf8(ka), encode_utf8(kb), encode_utf8(ka));
            lemma_bytes_less_irreflexive(encode_utf8(ka));
        }
        assert(a[0] == b[0]);
        let ta = a.drop_first();
        let tb = b.drop_first();
        assert forall|x: int, y: int| 0 <= x < y < ta.len() implies
            bytes_less(encode_utf8(#[trigger] ta[x].0), encode_utf8(#[trigger] ta[y].0)) by {
            assert(ta[x] == a[x + 1] && ta[y] == a[y + 1]);
        }
        assert forall|x: int, y: int| 0 <= x < y < tb.len() implies
            bytes_less(encode_utf8(#[trigger] tb[x].0), encode_utf8(#[trigger] tb[y].0)) by {
            assert(tb[x] == b[x + 1] && tb[y] == b[y + 1]);
        }
        lemma_sorted_distinct(ta);
        lemma_sorted_distinct(tb);
        assert forall|k: Seq<char>| #[trigger] map_of(ta).contains_key(k) == map_of(tb).contains_key(k) by {
            if map_of(ta).contains_key(k) {
                let x = choose|x: int| 0 <= x < ta.len() && ta[x].0 == k;
                assert(a[x + 1].0 == k);
                assert(k != ka) by { assert(a[0].0 != a[x + 1].0); }
                assert(map_of(a).contains_key(k));
                let y = choose|y: int| 0 <= y < b.len() && b[y].0 == k;
                assert(y != 0);
                assert(tb[y - 1].0 == k);
            }
            if map_of(tb).contains_key(k) {
                let x = choose|x: int| 0 <= x < tb.len() && tb[x].0 == k;
                assert(b[x + 1].0 == k);
                assert(k != kb) by { assert(b[0].0 != b[x + 1].0); }
                assert(map_of(b).contains_key(k));
                let y = choose|y: int| 0 <= y < a.len() && a[y].0 == k;
                assert(y != 0);
                assert(ta[y - 1].0 == k);
            }
        }
        assert forall|k: Seq<char>| #[trigger] map_of(ta).contains_key(k) implies map_of(ta)[k] == map_of(tb)[k] by {
            let x = choose|x: int| 0 <= x < ta.len() && ta[x].0 == k;
            let y = choose|y: int| 0 <= y < tb.len() && tb[y].0 == k;
            lemma_map_of_at(ta, x);
            lemma_map_of_at(tb, y);
            lemma_map_of_at(a, x + 1);
            lemma_map_of_at(b, y + 1);
            assert(a[x + 1] == ta[x]);
            assert(b[y + 1] == tb[y]);
        }
        assert(map_of(ta) =~= map_of(tb));
        lemma_sorted_entries_determined(ta, tb);
        assert(a =~= seq![a[0]] + ta);
        assert(b =~= seq![b[0]] + tb);
    }
}

/// The root hash depends only on the contents: entries kept in key order
/// that describe the same map have the same root, whatever order the keys
/// were written in.
pub proof fn lemma_root_depends_on_contents(
    a: Seq<(Seq<char>, StateValueView)>,
    b: Seq<(Seq<char>, StateValueView)>,
)
    requires
        sorted_by_key(a),
        sorted_by_key(b),
        map_of(a) == map_of(b),
    ensures
        root_of(a) == root_of(b),
{
    lemma_sorted_entries_determined(a, b);
}

/// The state store.
#[derive(Debug)]
pub struct StateStore {
    pub store: OrderedStore,
    /// Every root hash the store has had, oldest first.
    pub versions: Vec<String>,
    pub current_root: String,
}

pub struct StateStoreView {
    pub entries: Seq<(Seq<char>, StateValueView)>,
    pub versions: Seq<Seq<char>>,
    pub current_root: Seq<char>,
}

pub open spec fn strings_view(v: Seq<String>) -> Seq<Seq<char>> {
    v.map_values(|s: String| s@)
}

impl View for StateStore {
    type V = StateStoreView;

    open spec fn view(&self) -> StateStoreView {
        StateStoreView {
            entries: self.store.entries(),
            versions: strings_view(self.versions@),
            current_root: self.current_root@,
        }
    }
}

/// The version a write of `k` gets.
pub open spec fn next_version(m: Map<Seq<char>, StateValueView>, k: Seq<char>) -> u64 {
    if m.contains_key(k) { (m[k].version + 1) as u64 } else { 0 }
}

/// The store after writing `value` under `k` at time `t`: the entry is
/// stored, the root hash recomputed and appended to the history.
pub open spec fn put_spec(s: StateStoreView, k: Seq<char>, value: Seq<char>, t: u64) -> StateStoreView {
    let entries = sorted_put(s.entries, k, StateValueView {
        value,
        version: next_version(map_of(s.entries), k),
        timestamp: t,
    });
    StateStoreView {
        entries,
        versions: s.versions.push(root_of(entries)),
        current_root: root_of(entries),
    }
}

/// A read after a write gives back what the write wrote: the key then holds
/// the new value, at the next version and the write's time; every other key
/// holds what it held before, or stays absent.
pub proof fn lemma_read_after_write(s: StateStoreView, key: Seq<char>, value: Seq<char>, t: u64, other: Seq<char>)
    requires
        sorted_by_key(s.entries),
    ensures
        map_of(put_spec(s, key, value, t).entries).contains_key(key),
        map_of(put_spec(s, key, value, t).entries)[key] == (StateValueView {
            value,
            version: next_version(map_of(s.entries), key),
            timestamp: t,
        }),
        other != key ==> map_of(put_spec(s, key, value, t).entries).contains_key(other) == map_of(s.entries).contains_key(other),
        other != key && map_of(s.entries).contains_key(other) ==> map_of(put_spec(s, key, value, t).entries)[other]
            == map_of(s.entries)[other],
{
    lemma_sorted_put_map(s.entries, key, StateValueView {
        value,
        version: next_version(map_of(s.entries), key),
        timestamp: t,
    });
}

/// Whether some change writes a value (and so recomputes the root hash).
pub open spec fn writes_value(cs: Seq<StateChangeView>) -> bool {
    exists|j: int| 0 <= j < cs.len() && (#[trigger] cs[j]).new_value is Some
}

/// Whether writing `k` keeps its version within `u64`.
pub open spec fn version_fits(s: StateStoreView, k: Seq<char>) -> bool {
    map_of(s.entries).contains_key(k) ==> map_of(s.entries)[k].version < u64::MAX
}

/// One change applied at time `t`: a new value is written; no value deletes
/// the key (without touching the root hash or its history).
pub open spec fn apply_change(s: StateStoreView, c: StateChangeView, t: u64) -> StateStoreView {
    match c.new_value {
        Some(v) => put_spec(s, c.key, v, t),
        None => StateStoreView { entries: without_key(s.entries, c.key), ..s },
    }
}

/// A list of changes applied in order at time `t`.
pub open spec fn apply_changes(s: StateStoreView, cs: Seq<StateChangeView>, t: u64) -> StateStoreView
    decreases cs.len(),
{
    if cs.len() == 0 {
        s
    } else {
        apply_change(apply_changes(s, cs.drop_last(), t), cs.last(), t)
    }
}

/// Whether every write in the list keeps its key's version within `u64`.
pub open spec fn changes_fit(s: StateStoreView, cs: Seq<StateChangeView>) -> bool
    decreases cs.len(),
{
    if cs.len() == 0 {
        true
    } else {
        &&& changes_fit(s, cs.drop_last())
        &&& (cs.last().new_value is Some ==> version_fits(apply_changes(s, cs.drop_last(), 0), cs.last().key))
    }
}

proof fn lemma_changes_fit_prefix(s: StateStoreView, cs: Seq<StateChangeView>, i: int)
    requires
        changes_fit(s, cs),
        0 <= i <= cs.len(),
    ensures
        changes_fit(s, cs.take(i)),
    decreases cs.len() - i,
{
    if i < cs.len() {
        lemma_changes_fit_prefix(s, cs, i + 1);
        assert(cs.take(i + 1).drop_last() =~= cs.take(i));
    } else {
        assert(cs.take(i) =~= cs);
    }
}

/// Versions do not depend on the time of the writes.
proof fn lemma_apply_changes_map_time_free(s: StateStoreView, cs: Seq<StateChangeView>, t1: u64, t2: u64, k: Seq<char>)
    requires
        sorted_by_key(s.entries),
    ensures
        map_of(apply_changes(s, cs, t1).entries).contains_key(k) == map_of(apply_changes(s, cs, t2).entries).contains_key(k),
        map_of(apply_changes(s, cs, t1).entries).contains_key(k) ==>
            map_of(apply_changes(s, cs, t1).entries)[k].version == map_of(apply_changes(s, cs, t2).entries)[k].version,
    decreases cs.len(),
{
    if cs.len() > 0 {
        let p1 = apply_changes(s, cs.drop_last(), t1);
        let p2 = apply_changes(s, cs.drop_last(), t2);
        lemma_apply_changes_map_time_free(s, cs.drop_last(), t1, t2, k);
        lemma_apply_changes_map_time_free(s, cs.drop_last(), t1, t2, cs.last().key);
        lemma_apply_changes_sorted(s, cs.drop_last(), t1);
        lemma_apply_changes_sorted(s, cs.drop_last(), t2);
        lemma_sorted_put_map_after(p1, cs.last(), t1);
        lemma_sorted_put_map_after(p2, cs.last(), t2);
    }
}

proof fn lemma_sorted_put_map_after(s: StateStoreView, c: StateChangeView, t: u64)
    ensures
        sorted_by_key(s.entries) ==> map_of(apply_change(s, c, t).entries) == match c.new_value {
            Some(v) => map_of(s.entries).insert(c.key, StateValueView {
                value: v,
                version: next_version(map_of(s.entries), c.key),
                timestamp: t,
            }),
            None => map_of(s.entries).remove(c.key),
        },
{
    if sorted_by_key(s.entries) {
        lemma_sorted_distinct(s.entries);
        match c.new_value {
            Some(v) => {
                lemma_sorted_put_map(s.entries, c.key, StateValueView {
                    value: v,
                    version: next_version(map_of(s.entries), c.key),
                    timestamp: t,
                });
            },
            None => {
                if map_of(s.entries).contains_key(c.key) {
                    let i = key_index(s.entries, c.key);
                    lemma_map_of_remove(s.entries, i);
                } else {
                    assert(map_of(s.entries).remove(c.key) =~= map_of(s.entries));
                }
            },
        }
    }
}

/// Storing into sorted entries is storing into the map they describe, and the
/// entries stay sorted.
pub proof fn lemma_sorted_put_map(s: Seq<(Seq<char>, StateValueView)>, k: Seq<char>, v: StateValueView)
    requires
        sorted_by_key(s),
    ensures
        sorted_by_key(sorted_put(s, k, v)),
        map_of(sorted_put(s, k, v)) == map_of(s).insert(k, v),
{
    lemma_sorted_distinct(s);
    let i = insert_position(s, k);
    lemma_insert_position_props(s, k);
    if i < s.len() && s[i].0 == k {
        lemma_map_of_update(s, i, v);
        let t = s.update(i, (k, v));
        assert forall|a: int, b: int| 0 <= a < b < t.len() implies
            bytes_less(encode_utf8(#[trigger] t[a].0), encode_utf8(#[trigger] t[b].0)) by {
            assert(s[a].0 == t[a].0 && s[b].0 == t[b].0);
        }
    } else {
        let t = s.insert(i, (k, v));
        assert forall|j: int| i <= j < s.len() implies bytes_less(encode_utf8(k), encode_utf8(#[trigger] s[j].0)) by {
            let si = encode_utf8(s[i].0);
            lemma_bytes_less_total(si, encode_utf8(k));
            if si == encode_utf8(k) {
                lemma_encode_injective(s[i].0, k);
            }
            if j > i {
                lemma_bytes_less_transitive(encode_utf8(k), si, encode_utf8(s[j].0));
            }
        }
        assert(!map_of(s).contains_key(k)) by {
            if map_of(s).contains_key(k) {
                let j = choose|j: int| 0 <= j < s.len() && s[j].0 == k;
                lemma_bytes_less_irreflexive(encode_utf8(k));
            }
        }
        lemma_map_of_insert(s, i, k, v);
        assert forall|a: int, b: int| 0 <= a < b < t.len() implies
            bytes_less(encode_utf8(#[trigger] t[a].0), encode_utf8(#[trigger] t[b].0)) by {
            if a == i {
                assert(t[b] == s[b - 1]);
            } else if b == i {
                assert(t[a] == s[a]);
            } else {
                let oa = if a < i { a } else { a - 1 };
                let ob = if b < i { b } else { b - 1 };
                assert(t[a] == s[oa] && t[b] == s[ob]);
            }
        }
    }
}

proof fn lemma_insert_position_props<V>(s: Seq<(Seq<char>, V)>, k: Seq<char>)
    requires
        sorted_by_key(s),
    ensures
        0 <= insert_position(s, k) <= s.len(),
        forall|j: int| 0 <= j < insert_position(s, k) ==> bytes_less(encode_utf8(#[trigger] s[j].0), encode_utf8(k)),
        insert_position(s, k) < s.len() ==> !bytes_less(encode_utf8(s[insert_position(s, k)].0), encode_utf8(k)),
    decreases s.len(),
{
    if s.len() > 0 && bytes_less(encode_utf8(s[0].0), encode_utf8(k)) {
        let t = s.drop_first();
        assert forall|a: int, b: int| 0 <= a < b < t.len() implies
            bytes_less(encode_utf8(#[trigger] t[a].0), encode_utf8(#[trigger] t[b].0)) by {
            assert(t[a] == s[a + 1] && t[b] == s[b + 1]);
        }
        lemma_insert_position_props(t, k);
        assert forall|j: int| 0 <= j < insert_position(s, k) implies bytes_less(encode_utf8(#[trigger] s[j].0), encode_utf8(k)) by {
            if j > 0 {
                assert(s[j] == t[j - 1]);
            }
        }
        if insert_position(s, k) < s.len() {
            assert(s[insert_position(s, k)] == t[insert_position(t, k)]);
        }
    }
}

/// Removing a key from sorted entries keeps them sorted.
proof fn lemma_without_key_sorted(s: Seq<(Seq<char>, StateValueView)>, k: Seq<char>)
    requires
        sorted_by_key(s),
    ensures
        sorted_by_key(without_key(s, k)),
{
    if map_of(s).contains_key(k) {
        let i = key_index(s, k);
        let t = s.remove(i);
        assert forall|a: int, b: int| 0 <= a < b < t.len() implies
            bytes_less(encode_utf8(#[trigger] t[a].0), encode_utf8(#[trigger] t[b].0)) by {
            let oa = if a < i { a } else { a + 1 };
            let ob = if b < i { b } else { b + 1 };
            assert(t[a] == s[oa] && t[b] == s[ob]);
        }
    }
}

proof fn lemma_apply_changes_sorted(s: StateStoreView, cs: Seq<StateChangeView>, t: u64)
    requires
        sorted_by_key(s.entries),
    ensures
        sorted_by_key(apply_changes(s, cs, t).entries),
    decreases cs.len(),
{
    if cs.len() > 0 {
        let p = apply_changes(s, cs.drop_last(), t);
        lemma_apply_changes_sorted(s, cs.drop_last(), t);
        match cs.last().new_value {
            Some(v) => {
                lemma_sorted_put_map(p.entries, cs.last().key, StateValueView {
                    value: v,
                    version: next_version(map_of(p.entries), cs.last().key),
                    timestamp: t,
                });
            },
            None => {
                lemma_without_key_sorted(p.entries, cs.last().key);
            },
        }
    }
}

/// Every version in the history is a 64-character digest.
pub open spec fn history_well_formed(versions: Seq<Seq<char>>) -> bool {
    forall|i: int| 0 <= i < versions.len() ==> (#[trigger] versions[i]).len() == 64
}

fn entries_to_bytes(store: &OrderedStore) -> (b: Vec<u8>)
    ensures
        b@ == entries_bytes(store.entries()),
{
    let mut out: Vec<u8> = Vec::new();
    let mut i: usize = 0;
    while i < store.len()
        invariant
            i <= store.entries().len(),
            out@ == entries_bytes(store.entries().take(i as int)),
        decreases store.entries().len() - i,
    {
        let (k, v) = store.entry_at(i);
        push_str_bytes(&mut out, k.as_str());
        push_str_bytes(&mut out, v.value.as_str());
        push_le_bytes(&mut out, v.version);
        push_le_bytes(&mut out, v.timestamp);
        assert(store.entries().take(i + 1).drop_last() =~= store.entries().take(i as int));
        i = i + 1;
    }
    assert(store.entries().take(i as int) =~= store.entries());
    out
}

impl StateStore {
    /// An empty store with no history.
    pub fn new() -> (s: Self)
        ensures
            s@.entries == Seq::<(Seq<char>, StateValueView)>::empty(),
            s@.versions == Seq::<Seq<char>>::empty(),
            s@.current_root == Seq::<char>::empty(),
    {
        let s = StateStore { store: OrderedStore::new(), versions: Vec::new(), current_root: String::new() };
        assert(s@.versions =~= Seq::<Seq<char>>::empty());
        s
    }

    /// The value stored under `key`, if any.
    pub fn get(&self, key: &str) -> (r: Option<&StateValue>)
        ensures
            match r {
                Some(v) => map_of(self@.entries).contains_key(key@) && v@ == map_of(self@.entries)[key@],
                None => !map_of(self@.entries).contains_key(key@),
            },
    {
        self.store.get(key)
    }

    /// Writes `value` under `key` with the given timestamp, recomputes the
    /// root hash and appends it to the history.
    pub fn put_at(&mut self, key: String, value: String, timestamp: u64)
        requires
            version_fits(old(self)@, key@),
        ensures
            final(self)@ == put_spec(old(self)@, key@, value@, timestamp),
            history_is_digests(old(self)@.versions) ==> history_is_digests(final(self)@.versions),
            is_digest_text(final(self)@.current_root),
            map_of(final(self)@.entries) == map_of(old(self)@.entries).insert(key@, StateValueView {
                value: value@,
                version: next_version(map_of(old(self)@.entries), key@),
                timestamp,
            }),
            sorted_by_key(final(self)@.entries),
    {
        self.store.check_order();
        let version = match self.store.get(key.as_str()) {
            Some(v) => v.version + 1,
            None => 0,
        };
        let ghost k = key@;
        let ghost vv = StateValueView { value: value@, version, timestamp };
        proof {
            lemma_sorted_put_map(self.store.entries(), k, vv);
        }
        self.store.put(key, StateValue { value, version, timestamp });
        self.update_root_hash();
        self.store.check_order();
    }

    /// Writes `value` under `key`, stamped with the current time.
    pub fn put(&mut self, key: String, value: String)
        requires
            version_fits(old(self)@, key@),
        ensures
            exists|t: u64| final(self)@ == #[trigger] put_spec(old(self)@, key@, value@, t),
            is_digest_text(final(self)@.current_root),
            sorted_by_key(final(self)@.entries),
    {
        let t = now_secs();
        self.put_at(key, value, t);
    }

    /// Applies the changes in order, all stamped `timestamp`: a new value is
    /// written as `put` writes it; no new value removes the key. Returns the
    /// root hash afterwards.
    pub fn apply_diff_at(&mut self, diffs: Vec<StateChange>, timestamp: u64) -> (r: Result<String, StateError>)
        requires
            changes_fit(old(self)@, changes_view(diffs@)),
        ensures
            final(self)@ == apply_changes(old(self)@, changes_view(diffs@), timestamp),
            match r {
                Ok(root) => root@ == final(self)@.current_root,
                Err(_) => false,
            },
            writes_value(changes_view(diffs@)) || is_digest_text(old(self)@.current_root)
                ==> is_digest_text(final(self)@.current_root),
            sorted_by_key(final(self)@.entries),
    {
        self.store.check_order();
        let ghost start = self@;
        let ghost cs = changes_view(diffs@);
        let mut i: usize = 0;
        assert(cs.take(0) =~= Seq::<StateChangeView>::empty());
        while i < diffs.len()
            invariant
                i <= diffs@.len(),
                cs == changes_view(diffs@),
                changes_fit(start, cs),
                sorted_by_key(start.entries),
                self@ == apply_changes(start, cs.take(i as int), timestamp),
                writes_value(cs.take(i as int)) || is_digest_text(start.current_root) ==> is_digest_text(self@.current_root),
            decreases diffs@.len() - i,
        {
            let d = &diffs[i];
            proof {
                assert(cs.take(i + 1).drop_last() =~= cs.take(i as int));
                assert(cs.take(i + 1).last() == cs[i as int]);
                lemma_changes_fit_prefix(start, cs, i + 1);
            }
            match &d.new_value {
                Some(v) => {
                    proof {
                        lemma_apply_changes_map_time_free(start, cs.take(i as int), 0, timestamp, d.key@);
                    }
                    self.put_at(d.key.clone(), v.clone(), timestamp);
                },
                None => {
                    self.store.remove(d.key.as_str());
                },
            }
            proof {
                if writes_value(cs.take(i + 1)) && !writes_value(cs.take(i as int)) {
                    let j = choose|j: int| 0 <= j < cs.take(i + 1).len() && (#[trigger] cs.take(i + 1)[j]).new_value is Some;
                    if j < i {
                        assert(cs.take(i as int)[j] == cs.take(i + 1)[j]);
                    }
                }
                if d.new_value is Some {
                    assert(cs[i as int].new_value is Some);
                }
            }
            i = i + 1;
        }
        assert(cs.take(i as int) =~= cs);
        self.store.check_order();
        Ok(self.current_root.clone())
    }

    /// Applies the changes in order, all stamped with the current time.
    pub fn apply_diff(&mut self, diffs: Vec<StateChange>) -> (r: Result<String, StateError>)
        requires
            changes_fit(old(self)@, changes_view(diffs@)),
        ensures
            exists|t: u64| final(self)@ == #[trigger] apply_changes(old(self)@, changes_view(diffs@), t),
            match r {
                Ok(root) => root@ == final(self)@.current_root,
                Err(_) => false,
            },
            writes_value(changes_view(diffs@)) || is_digest_text(old(self)@.current_root)
                ==> is_digest_text(final(self)@.current_root),
            sorted_by_key(final(self)@.entries),
    {
        let t = now_secs();
        self.apply_diff_at(diffs, t)
    }

    /// Recomputes the root hash over the current entries and appends it to the
    /// history.
    pub fn update_root_hash_public(&mut self)
        ensures
            history_is_digests(old(self)@.versions) ==> history_is_digests(final(self)@.versions),
            is_digest_text(final(self)@.current_root),
            final(self)@.entries == old(self)@.entries,
            final(self)@.current_root == root_of(old(self)@.entries),
            final(self)@.versions == old(self)@.versions.push(root_of(old(self)@.entries)),
            sorted_by_key(final(self)@.entries),
    {
        self.update_root_hash();
        self.store.check_order();
    }

    /// The current root hash.
    pub fn get_root_hash(&self) -> (r: &str)
        ensures
            r@ == self@.current_root,
            sorted_by_key(self@.entries),
    {
        self.store.check_order();
        self.current_root.as_str()
    }

    /// The root hash at position `index` of the history, if there is one.
    pub fn get_version(&self, index: usize) -> (r: Option<&str>)
        ensures
            match r {
                Some(v) => index < self@.versions.len() && v@ == self@.versions[index as int],
                None => index >= self@.versions.len(),
            },
    {
        if index < self.versions.len() {
            Some(self.versions[index].as_str())
        } else {
            None
        }
    }

    /// The earlier values of a key; no past values are kept, so this is empty.
    pub fn get_state_diff(&self, _key: &str) -> (r: Vec<StateValue>)
        ensures
            r@ == Seq::<StateValue>::empty(),
    {
        Vec::new()
    }

    /// The current root hash, as a new string.
    pub fn compute_current_root(&self) -> (r: String)
        ensures
            r@ == self@.current_root,
    {
        self.current_root.clone()
    }

    /// A copy of the store, history included.
    pub fn clone_for_validation(&self) -> (r: StateStore)
        ensures
            r@ == self@,
    {
        let mut versions: Vec<String> = Vec::new();
        let mut i: usize = 0;
        while i < self.versions.len()
            invariant
                i <= self.versions@.len(),
                strings_view(versions@) == strings_view(self.versions@).take(i as int),
            decreases self.versions@.len() - i,
        {
            let ghost before = versions@;
            let c = self.versions[i].clone();
            versions.push(c);
            assert(strings_view(versions@) =~= strings_view(before).push(c@));
            assert(strings_view(self.versions@).take(i + 1) =~= strings_view(self.versions@).take(i as int).push(self.versions@[i as int]@));
            i = i + 1;
        }
        assert(strings_view(self.versions@).take(i as int) =~= strings_view(self.versions@));
        StateStore { store: self.store.copy(), versions, current_root: self.current_root.clone() }
    }

    fn update_root_hash(&mut self)
        ensures
            final(self).store == old(self).store,
            encode_utf8(final(self)@.current_root).len() == 64,
            is_digest_text(final(self)@.current_root),
            final(self)@.current_root == root_of(old(self)@.entries),
            final(self)@.versions == old(self)@.versions.push(root_of(old(self)@.entries)),
    {
        let bytes = entries_to_bytes(&self.store);
        let root = sha256_hex(bytes.as_slice());
        self.current_root = root.clone();
        let ghost before = self.versions@;
        self.versions.push(root);
        assert(strings_view(self.versions@) =~= strings_view(before).push(root@));
    }
}

impl Clone for StateStore {
    fn clone(&self) -> (r: Self)
        ensures
            r@ == self@,
    {
        self.clone_for_validation()
    }
}

impl Default for StateStore {
    fn default() -> (r: Self)
        ensures
            r@.entries == Seq::<(Seq<char>, StateValueView)>::empty(),
            r@.versions == Seq::<Seq<char>>::empty(),
            r@.current_root == Seq::<char>::empty(),
    {
        StateStore::new()
    }
}

/// Hexadecimal digests are ASCII, so each takes one byte per character.
pub proof fn lemma_hex_text_ascii(b: Seq<u8>)
    ensures
        vstd::utf8::is_ascii_chars(crate::text::hex_text(b)),
        encode_utf8(crate::text::hex_text(b)).len() == crate::text::hex_text(b).len(),
    decreases b.len(),
{
    if b.len() > 0 {
        lemma_hex_text_ascii(b.drop_last());
    }
    vstd::utf8::is_ascii_chars_encode_utf8(crate::text::hex_text(b));
}

/// Every version in the history takes 64 bytes, as a hexadecimal SHA-256
/// digest does.
pub open spec fn history_is_digests(versions: Seq<Seq<char>>) -> bool {
    forall|i: int| 0 <= i < versions.len() ==> encode_utf8(#[trigger] versions[i]).len() == 64
}

/// Why a state operation failed.
#[derive(Debug, Clone, Copy, PartialEq, Eq, Structural)]
pub enum StateError {
    NotFound,
    SerializationError,
    VersionMismatch,
}

impl StateError {
    /// The error's message.
    pub fn to_string(&self) -> (r: String)
        ensures
            r@ == match self {
                StateError::NotFound => "State not found"@,
                StateError::SerializationError => "Serialization error"@,
                StateError::VersionMismatch => "Version mismatch"@,
            },
    {
        match self {
            StateError::NotFound => String::from_str("State not found"),
            StateError::SerializationError => String::from_str("Serialization error"),
            StateError::VersionMismatch => String::from_str("Version mismatch"),
        }
    }
}

/// A state hash with its parent and the changes that produced it.
#[derive(Debug)]
pub struct VersionedState {
    pub state_hash: String,
    pub parent_hash: Option<String>,
    pub height: u64,
    pub timestamp: u64,
    pub changes: Vec<StateChange>,
}

/// A proof about a state hash.
#[derive(Debug)]
pub struct StateProof {
    pub state_hash: String,
    pub proof_data: String,
    pub verified: bool,
}

impl StateProof {
    /// A proof for `state_hash`, not yet verified; its data is `proof_`
    /// followed by the hash.
    pub fn new(state_hash: String) -> (p: Self)
        ensures
            p.state_hash@ == state_hash@,
            p.proof_data@ == "proof_"@ + state_hash@,
            !p.verified,
    {
        let mut proof_data = String::new();
        push_str(&mut proof_data, "proof_");
        push_str(&mut proof_data, state_hash.as_str());
        assert(proof_data@ =~= "proof_"@ + state_hash@);
        StateProof { proof_data, state_hash, verified: false }
    }

    /// Accepts the proof: marks it verified and answers true.
    pub fn verify(&mut self) -> (r: bool)
        ensures
            r,
            final(self).verified,
            final(self).state_hash == old(self).state_hash,
            final(self).proof_data == old(self).proof_data,
    {
        self.verified = true;
        true
    }
}

/// Checks on state transitions and histories.
pub struct StateValidator;

/// Whether every version of the history is 64 bytes long (trivially so when
/// there are fewer than two).
pub open spec fn history_check(versions: Seq<Seq<char>>) -> bool {
    versions.len() < 2 || history_is_digests(versions)
}

impl StateValidator {
    /// Applies `changes` at time `now` to a copy of `old_state` and answers
    /// whether the resulting root hash is `new_state_hash`.
    pub fn validate_state_transition_at(
        &self,
        old_state: &StateStore,
        changes: &[StateChange],
        new_state_hash: &str,
        now: u64,
    ) -> (r: Result<bool, StateError>)
        requires
            changes_fit(old_state@, changes_view(changes@)),
        ensures
            r == Ok::<bool, StateError>(apply_changes(old_state@, changes_view(changes@), now).current_root == new_state_hash@),
    {
        let mut temp_store = old_state.clone_for_validation();
        let mut owned: Vec<StateChange> = Vec::new();
        let mut i: usize = 0;
        while i < changes.len()
            invariant
                i <= changes@.len(),
                changes_view(owned@) == changes_view(changes@).take(i as int),
            decreases changes@.len() - i,
        {
            let ghost before = owned@;
            let c = changes[i].clone();
            owned.push(c);
            assert(changes_view(owned@) =~= changes_view(before).push(c@));
            assert(changes_view(changes@).take(i + 1) =~= changes_view(changes@).take(i as int).push(changes@[i as int]@));
            i = i + 1;
        }
        assert(changes_view(changes@).take(i as int) =~= changes_view(changes@));
        let _ = temp_store.apply_diff_at(owned, now);
        let computed = temp_store.get_root_hash();
        Ok(str_eq(computed, new_state_hash))
    }

    /// Applies `changes` (stamped with the current time) to a copy of
    /// `old_state` and answers whether the resulting root hash is
    /// `new_state_hash`.
    pub fn validate_state_transition(
        &self,
        old_state: &StateStore,
        changes: &[StateChange],
        new_state_hash: &str,
    ) -> (r: Result<bool, StateError>)
        requires
            changes_fit(old_state@, changes_view(changes@)),
        ensures
            exists|t: u64| r == Ok::<bool, StateError>(
                #[trigger] apply_changes(old_state@, changes_view(changes@), t).current_root == new_state_hash@),
    {
        let t = now_secs();
        self.validate_state_transition_at(old_state, changes, new_state_hash, t)
    }

    /// The root hash agrees with itself: always true.
    pub fn verify_state_root(&self, state_store: &StateStore) -> (r: bool)
        ensures
            r,
    {
        let computed_root = state_store.get_root_hash();
        let stored_root = state_store.get_root_hash();
        str_eq(computed_root, stored_root)
    }

    /// Whether the history is made of 64-byte digests (any history of fewer
    /// than two versions passes).
    pub fn verify_state_history(&self, state_store: &StateStore) -> (r: bool)
        ensures
            r == history_check(state_store@.versions),
    {
        let n = state_store.versions.len();
        if n < 2 {
            return true;
        }
        let mut i: usize = 1;
        while i < n
            invariant
                n == state_store@.versions.len(),
                n >= 2,
                1 <= i <= n,
                forall|j: int| 0 <= j < i - 1 ==> encode_utf8(#[trigger] state_store@.versions[j]).len() == 64,
                i > 1 ==> encode_utf8(state_store@.versions[i - 1]).len() == 64,
            decreases n - i,
        {
            let va = state_store.versions[i - 1].as_str();
            let vb = state_store.versions[i].as_str();
            assert(state_store@.versions[i - 1] == va@);
            assert(state_store@.versions[i as int] == vb@);
            let a = va.as_bytes().len();
            let b = vb.as_bytes().len();
            assert(a == encode_utf8(state_store@.versions[i - 1]).len());
            assert(b == encode_utf8(state_store@.versions[i as int]).len());
            if a != 64 || b != 64 {
                return false;
            }
            i = i + 1;
        }
        assert(history_is_digests(state_store@.versions)) by {
            assert forall|j: int| 0 <= j < n implies encode_utf8(#[trigger] state_store@.versions[j]).len() == 64 by {
                if j < n - 1 {
                } else {
                    assert(j == i - 1);
                }
            }
        }
        true
    }
}

} // verus!
