//! A map from text identifiers to values that keeps its entries in the order
//! they were first inserted. Its model is that list of entries, with no key
//! twice; `entries_map` reads it as a mathematical map.

use vstd::prelude::*;

use crate::text::{
    is_uuid_v4_text, lemma_numbered_uuid_injective, lemma_usize_below_pow10_20, new_uuid_v4_text,
    numbered_uuid, numbered_uuid_text,
};

verus! {

/// Values whose copy has the same model as the original.
pub trait Duplicate: View + Sized {
    fn duplicate(&self) -> (r: Self)
        ensures
            r@ == self@,
    ;
}

/// Some entry of `s` has the key `k`.
pub open spec fn has_key<T>(s: Seq<(Seq<char>, T)>, k: Seq<char>) -> bool {
    exists|i: int| 0 <= i < s.len() && #[trigger] s[i].0 == k
}

/// No two entries of `s` have the same key.
pub open spec fn keys_unique<T>(s: Seq<(Seq<char>, T)>) -> bool {
    forall|i: int, j: int|
        0 <= i < s.len() && 0 <= j < s.len() && i != j ==> #[trigger] s[i].0 != #[trigger] s[j].0
}

/// The position of the entry with key `k`, where there is one.
pub open spec fn key_position<T>(s: Seq<(Seq<char>, T)>, k: Seq<char>) -> int {
    choose|i: int| 0 <= i < s.len() && #[trigger] s[i].0 == k
}

/// The value stored under `k`, where there is one.
pub open spec fn value_of<T>(s: Seq<(Seq<char>, T)>, k: Seq<char>) -> T {
    s[key_position(s, k)].1
}

/// The entries after storing `v` under `k`: an entry with that key keeps its
/// place and takes the new value; otherwise the entry goes at the end.
pub open spec fn entries_insert<T>(s: Seq<(Seq<char>, T)>, k: Seq<char>, v: T) -> Seq<(Seq<char>, T)> {
    if has_key(s, k) {
        s.update(key_position(s, k), (k, v))
    } else {
        s.push((k, v))
    }
}

/// The entries after removing the one with key `k`, if any; the others keep their order.
pub open spec fn entries_remove<T>(s: Seq<(Seq<char>, T)>, k: Seq<char>) -> Seq<(Seq<char>, T)> {
    if has_key(s, k) {
        s.remove(key_position(s, k))
    } else {
        s
    }
}

/// The entries read as a map from key to value.
pub open spec fn entries_map<T>(s: Seq<(Seq<char>, T)>) -> Map<Seq<char>, T> {
    Map::new(|k: Seq<char>| has_key(s, k), |k: Seq<char>| value_of(s, k))
}

/// The values of the entries, in order.
pub open spec fn entry_values<T>(s: Seq<(Seq<char>, T)>) -> Seq<T> {
    s.map_values(|e: (Seq<char>, T)| e.1)
}

/// With unique keys, the position of a key is the one entry that has it.
pub proof fn lemma_key_position<T>(s: Seq<(Seq<char>, T)>, i: int)
    requires
        keys_unique(s),
        0 <= i < s.len(),
    ensures
        has_key(s, s[i].0),
        key_position(s, s[i].0) == i,
        value_of(s, s[i].0) == s[i].1,
{
    assert(has_key(s, s[i].0));
}

/// Storing keeps the keys unique.
pub proof fn lemma_insert_keeps_unique<T>(s: Seq<(Seq<char>, T)>, k: Seq<char>, v: T)
    requires
        keys_unique(s),
    ensures
        keys_unique(entries_insert(s, k, v)),
{
    let r = entries_insert(s, k, v);
    if has_key(s, k) {
        let p = key_position(s, k);
        assert forall|i: int, j: int|
            0 <= i < r.len() && 0 <= j < r.len() && i != j implies #[trigger] r[i].0 != #[trigger] r[j].0 by {
            if i == p {
                assert(r[j].0 == s[j].0);
            } else if j == p {
                assert(r[i].0 == s[i].0);
            } else {
                assert(r[i].0 == s[i].0 && r[j].0 == s[j].0);
            }
        }
    } else {
        assert forall|i: int, j: int|
            0 <= i < r.len() && 0 <= j < r.len() && i != j implies #[trigger] r[i].0 != #[trigger] r[j].0 by {
            if i == s.len() {
                assert(r[j].0 == s[j].0);
                assert(!(s[j].0 == k));
            } else if j == s.len() {
                assert(r[i].0 == s[i].0);
                assert(!(s[i].0 == k));
            } else {
                assert(r[i].0 == s[i].0 && r[j].0 == s[j].0);
            }
        }
    }
}

/// Removing keeps the keys unique.
pub proof fn lemma_remove_keeps_unique<T>(s: Seq<(Seq<char>, T)>, k: Seq<char>)
    requires
        keys_unique(s),
    ensures
        keys_unique(entries_remove(s, k)),
{
    let r = entries_remove(s, k);
    if has_key(s, k) {
        let p = key_position(s, k);
        assert forall|i: int, j: int|
            0 <= i < r.len() && 0 <= j < r.len() && i != j implies #[trigger] r[i].0 != #[trigger] r[j].0 by {
            let si = if i < p { i } else { i + 1 };
            let sj = if j < p { j } else { j + 1 };
            assert(r[i] == s[si]);
            assert(r[j] == s[sj]);
        }
    }
}

/// Storing `v` under `k` makes the map give `v` at `k` and leaves every other key as it was.
pub proof fn lemma_insert_map<T>(s: Seq<(Seq<char>, T)>, k: Seq<char>, v: T)
    requires
        keys_unique(s),
    ensures
        entries_map(entries_insert(s, k, v)) =~= entries_map(s).insert(k, v),
{
    let r = entries_insert(s, k, v);
    lemma_insert_keeps_unique(s, k, v);
    if has_key(s, k) {
        let p = key_position(s, k);
        assert forall|key: Seq<char>| #[trigger] has_key(r, key) == (has_key(s, key) || key == k) by {
            if has_key(s, key) {
                let q = key_position(s, key);
                assert(r[q].0 == key);
            }
            if has_key(r, key) {
                let q = key_position(r, key);
                if q != p {
                    assert(s[q].0 == key);
                }
            }
        }
        assert forall|key: Seq<char>| has_key(r, key) implies #[trigger] value_of(r, key) == (if key == k { v } else { value_of(s, key) }) by {
            let q = key_position(r, key);
            lemma_key_position(r, q);
            if key != k {
                assert(q != p);
                assert(s[q] == r[q]);
                lemma_key_position(s, q);
            } else {
                lemma_key_position(r, p);
            }
        }
    } else {
        assert forall|key: Seq<char>| #[trigger] has_key(r, key) == (has_key(s, key) || key == k) by {
            if has_key(s, key) {
                let q = key_position(s, key);
                assert(r[q].0 == key);
            }
            if key == k {
                assert(r[s.len() as int].0 == key);
            }
            if has_key(r, key) {
                let q = key_position(r, key);
                if q != s.len() {
                    assert(s[q].0 == key);
                }
            }
        }
        assert forall|key: Seq<char>| has_key(r, key) implies #[trigger] value_of(r, key) == (if key == k { v } else { value_of(s, key) }) by {
            let q = key_position(r, key);
            lemma_key_position(r, q);
            if key != k {
                assert(q != s.len());
                assert(s[q] == r[q]);
                lemma_key_position(s, q);
            } else {
                lemma_key_position(r, s.len() as int);
            }
        }
    }
}

/// Removing `k` takes `k` out of the map and leaves every other key as it was.
pub proof fn lemma_remove_map<T>(s: Seq<(Seq<char>, T)>, k: Seq<char>)
    requires
        keys_unique(s),
    ensures
        entries_map(entries_remove(s, k)) =~= entries_map(s).remove(k),
{
    let r = entries_remove(s, k);
    lemma_remove_keeps_unique(s, k);
    if has_key(s, k) {
        let p = key_position(s, k);
        assert forall|key: Seq<char>| #[trigger] has_key(r, key) == (has_key(s, key) && key != k) by {
            if has_key(s, key) && key != k {
                let q = key_position(s, key);
                assert(q != p);
                let rq = if q < p { q } else { q - 1 };
                assert(r[rq] == s[q]);
            }
            if has_key(r, key) {
                let q = key_position(r, key);
                let sq = if q < p { q } else { q + 1 };
                assert(r[q] == s[sq]);
                assert(sq != p);
                lemma_key_position(s, sq);
            }
        }
        assert forall|key: Seq<char>| has_key(r, key) implies #[trigger] value_of(r, key) == value_of(s, key) by {
            let q = key_position(r, key);
            lemma_key_position(r, q);
            let sq = if q < p { q } else { q + 1 };
            assert(r[q] == s[sq]);
            lemma_key_position(s, sq);
        }
    }
}

/// The entries after removing each key of `keys` in turn.
pub open spec fn entries_remove_all<T>(entries: Seq<(Seq<char>, T)>, keys: Seq<Seq<char>>) -> Seq<(Seq<char>, T)>
    decreases keys.len(),
{
    if keys.len() == 0 {
        entries
    } else {
        entries_remove(entries_remove_all(entries, keys.drop_last()), keys.last())
    }
}

/// The entries after storing each pair of `pairs` in turn, starting from none.
pub open spec fn entries_insert_all<T>(pairs: Seq<(Seq<char>, T)>) -> Seq<(Seq<char>, T)>
    decreases pairs.len(),
{
    if pairs.len() == 0 {
        Seq::empty()
    } else {
        let last = pairs.last();
        entries_insert(entries_insert_all(pairs.drop_last()), last.0, last.1)
    }
}

/// Every entry left after removing the keys `keys` was an entry before, and
/// its key is not among `keys`.
pub proof fn lemma_remove_all_entries<T>(entries: Seq<(Seq<char>, T)>, keys: Seq<Seq<char>>, i: int)
    requires
        keys_unique(entries),
        0 <= i < entries_remove_all(entries, keys).len(),
    ensures
        keys_unique(entries_remove_all(entries, keys)),
        entries.contains(entries_remove_all(entries, keys)[i]),
        !keys.contains(entries_remove_all(entries, keys)[i].0),
    decreases keys.len(),
{
    lemma_remove_all_unique(entries, keys);
    if keys.len() > 0 {
        let prev = entries_remove_all(entries, keys.drop_last());
        let k = keys.last();
        let r = entries_remove(prev, k);
        lemma_remove_all_unique(entries, keys.drop_last());
        if has_key(prev, k) {
            let p = key_position(prev, k);
            let pi = if i < p { i } else { i + 1 };
            assert(r[i] == prev[pi]);
            lemma_remove_all_entries(entries, keys.drop_last(), pi);
            lemma_key_position(prev, p);
            assert(prev[pi].0 != k);
            assert forall|j: int| 0 <= j < keys.len() implies keys[j] != r[i].0 by {
                if j < keys.len() - 1 {
                    assert(keys.drop_last()[j] == keys[j]);
                }
            }
        } else {
            lemma_remove_all_entries(entries, keys.drop_last(), i);
            assert(prev[i].0 != k);
            assert forall|j: int| 0 <= j < keys.len() implies keys[j] != r[i].0 by {
                if j < keys.len() - 1 {
                    assert(keys.drop_last()[j] == keys[j]);
                }
            }
        }
    }
}

/// Removing keys one by one keeps the keys unique.
pub proof fn lemma_remove_all_unique<T>(entries: Seq<(Seq<char>, T)>, keys: Seq<Seq<char>>)
    requires
        keys_unique(entries),
    ensures
        keys_unique(entries_remove_all(entries, keys)),
    decreases keys.len(),
{
    if keys.len() > 0 {
        lemma_remove_all_unique(entries, keys.drop_last());
        lemma_remove_keeps_unique(entries_remove_all(entries, keys.drop_last()), keys.last());
    }
}

/// Removing the keys `keys` one by one removes exactly those keys from the map.
pub proof fn law_remove_all_map<T>(entries: Seq<(Seq<char>, T)>, keys: Seq<Seq<char>>)
    requires
        keys_unique(entries),
    ensures
        entries_map(entries_remove_all(entries, keys)) =~= entries_map(entries).remove_keys(keys.to_set()),
    decreases keys.len(),
{
    if keys.len() > 0 {
        let prev = entries_remove_all(entries, keys.drop_last());
        law_remove_all_map(entries, keys.drop_last());
        lemma_remove_all_unique(entries, keys.drop_last());
        lemma_remove_map(prev, keys.last());
        assert forall|x: Seq<char>| #[trigger] keys.contains(x) <==> (keys.drop_last().contains(x) || x == keys.last()) by {
            if keys.contains(x) {
                let j = choose|j: int| 0 <= j < keys.len() && keys[j] == x;
                if j < keys.len() - 1 {
                    assert(keys.drop_last()[j] == x);
                }
            }
            if keys.drop_last().contains(x) {
                let j = choose|j: int| 0 <= j < keys.drop_last().len() && keys.drop_last()[j] == x;
                assert(keys[j] == x);
            }
            if x == keys.last() {
                assert(keys[keys.len() - 1] == x);
            }
        }
        assert(keys.to_set() =~= keys.drop_last().to_set().insert(keys.last()));
    } else {
        assert(keys.to_set() =~= Set::<Seq<char>>::empty());
    }
}

/// The map that storing each pair of `pairs` in turn builds: a later pair
/// replaces an earlier one with the same key.
pub open spec fn pairs_map<T>(pairs: Seq<(Seq<char>, T)>) -> Map<Seq<char>, T>
    decreases pairs.len(),
{
    if pairs.len() == 0 {
        Map::empty()
    } else {
        pairs_map(pairs.drop_last()).insert(pairs.last().0, pairs.last().1)
    }
}

/// Loading stored pairs keeps the keys unique and gives the map in which the
/// last pair with each key wins.
pub proof fn law_load_last_pair_wins<T>(pairs: Seq<(Seq<char>, T)>)
    ensures
        keys_unique(entries_insert_all(pairs)),
        entries_map(entries_insert_all(pairs)) =~= pairs_map(pairs),
    decreases pairs.len(),
{
    if pairs.len() == 0 {
        assert(entries_map(Seq::<(Seq<char>, T)>::empty()) =~= Map::empty());
    } else {
        law_load_last_pair_wins(pairs.drop_last());
        let prev = entries_insert_all(pairs.drop_last());
        lemma_insert_keeps_unique(prev, pairs.last().0, pairs.last().1);
        lemma_insert_map(prev, pairs.last().0, pairs.last().1);
    }
}

/// With unique keys, the listed values are exactly the values of the map.
pub proof fn law_values_are_the_map_values<T>(s: Seq<(Seq<char>, T)>, v: T)
    requires
        keys_unique(s),
    ensures
        entry_values(s).contains(v) <==> exists|k: Seq<char>|
            #[trigger] entries_map(s).contains_key(k) && entries_map(s)[k] == v,
        entry_values(s).len() == s.len(),
{
    if entry_values(s).contains(v) {
        let i = choose|i: int| 0 <= i < entry_values(s).len() && entry_values(s)[i] == v;
        lemma_key_position(s, i);
        assert(entries_map(s).contains_key(s[i].0));
    }
    if exists|k: Seq<char>| #[trigger] entries_map(s).contains_key(k) && entries_map(s)[k] == v {
        let k = choose|k: Seq<char>| #[trigger] entries_map(s).contains_key(k) && entries_map(s)[k] == v;
        let i = key_position(s, k);
        assert(entry_values(s)[i] == v);
    }
}

/// A map from text identifiers to values, in insertion order.
pub struct IdMap<V> {
    entries: Vec<(String, V)>,
}

impl<V: View> View for IdMap<V> {
    type V = Seq<(Seq<char>, V::V)>;

    closed spec fn view(&self) -> Seq<(Seq<char>, V::V)> {
        self.entries@.map_values(|e: (String, V)| (e.0@, e.1@))
    }
}

impl<V: View> IdMap<V> {
    /// No identifier occurs twice.
    pub open spec fn wf(&self) -> bool {
        keys_unique(self@)
    }

    /// The values as a map from identifier to value.
    pub open spec fn as_map(&self) -> Map<Seq<char>, V::V> {
        entries_map(self@)
    }

    /// An empty map.
    pub fn new() -> (m: Self)
        ensures
            m.wf(),
            m@ == Seq::<(Seq<char>, V::V)>::empty(),
    {
        let m = IdMap { entries: Vec::new() };
        assert(m@ =~= Seq::<(Seq<char>, V::V)>::empty());
        m
    }

    /// The number of entries.
    pub fn len(&self) -> (n: usize)
        ensures
            n == self@.len(),
    {
        self.entries.len()
    }

    /// The position of the entry with key `key`, if there is one.
    pub fn position(&self, key: &str) -> (r: Option<usize>)
        requires
            self.wf(),
        ensures
            match r {
                Some(i) => i < self@.len() && self@[i as int].0 == key@ && has_key(self@, key@)
                    && key_position(self@, key@) == i,
                None => !has_key(self@, key@),
            },
    {
        let k = key.to_owned();
        let mut i: usize = 0;
        while i < self.entries.len()
            invariant
                i <= self.entries@.len(),
                self.wf(),
                k@ == key@,
                forall|j: int| 0 <= j < i ==> #[trigger] self@[j].0 != key@,
            decreases self.entries@.len() - i,
        {
            if self.entries[i].0 == k {
                proof {
                    assert(self@[i as int].0 == key@);
                    lemma_key_position(self@, i as int);
                }
                return Some(i);
            }
            i = i + 1;
        }
        proof {
            assert forall|j: int| 0 <= j < self@.len() implies #[trigger] self@[j].0 != key@ by {}
        }
        None
    }

    /// Whether some entry has the key `key`.
    pub fn contains_key(&self, key: &str) -> (r: bool)
        requires
            self.wf(),
        ensures
            r == has_key(self@, key@),
    {
        self.position(key).is_some()
    }

    /// The value stored under `key`, if any.
    pub fn get(&self, key: &str) -> (r: Option<&V>)
        requires
            self.wf(),
        ensures
            r is Some == has_key(self@, key@),
            r matches Some(v) ==> v@ == value_of(self@, key@),
    {
        match self.position(key) {
            Some(i) => Some(&self.entries[i].1),
            None => None,
        }
    }

    /// The entry at position `i`.
    pub fn entry_at(&self, i: usize) -> (r: (&String, &V))
        requires
            i < self@.len(),
        ensures
            r.0@ == self@[i as int].0,
            r.1@ == self@[i as int].1,
    {
        let e = &self.entries[i];
        (&e.0, &e.1)
    }

    /// Stores `value` under `key`.
    pub fn insert(&mut self, key: String, value: V)
        requires
            old(self).wf(),
        ensures
            final(self).wf(),
            final(self)@ == entries_insert(old(self)@, key@, value@),
    {
        let ghost k = key@;
        let ghost v = value@;
        proof {
            lemma_insert_keeps_unique(self@, k, v);
        }
        match self.position(key.as_str()) {
            Some(i) => {
                self.entries.set(i, (key, value));
                assert(self@ =~= entries_insert(old(self)@, k, v));
            },
            None => {
                self.entries.push((key, value));
                assert(self@ =~= entries_insert(old(self)@, k, v));
            },
        }
    }

    /// Replaces the value of the entry at position `i`; its key stays.
    pub fn set_value_at(&mut self, i: usize, value: V)
        requires
            old(self).wf(),
            i < old(self)@.len(),
        ensures
            final(self).wf(),
            final(self)@ == old(self)@.update(i as int, (old(self)@[i as int].0, value@)),
    {
        let key = self.entries[i].0.clone();
        self.entries.set(i, (key, value));
        assert(self@ =~= old(self)@.update(i as int, (old(self)@[i as int].0, value@)));
        assert forall|a: int, b: int|
            0 <= a < self@.len() && 0 <= b < self@.len() && a != b implies #[trigger] self@[a].0
            != #[trigger] self@[b].0 by {
            assert(self@[a].0 == old(self)@[a].0);
            assert(self@[b].0 == old(self)@[b].0);
        }
    }

    /// Removes the entry with key `key`, if any, and hands its value back.
    pub fn remove(&mut self, key: &str) -> (r: Option<V>)
        requires
            old(self).wf(),
        ensures
            final(self).wf(),
            final(self)@ == entries_remove(old(self)@, key@),
            r is Some == has_key(old(self)@, key@),
            r matches Some(v) ==> v@ == value_of(old(self)@, key@),
    {
        proof {
            lemma_remove_keeps_unique(self@, key@);
        }
        match self.position(key) {
            Some(i) => {
                let e = self.entries.remove(i);
                assert(self@ =~= entries_remove(old(self)@, key@));
                Some(e.1)
            },
            None => None,
        }
    }

    /// An identifier in the shape of a random UUID that no entry has: a
    /// fresh random one, or, should it be taken, the first numbered one that
    /// is free.
    pub fn fresh_uuid_key(&self) -> (k: String)
        requires
            self.wf(),
        ensures
            is_uuid_v4_text(k@),
            !has_key(self@, k@),
    {
        let r = new_uuid_v4_text();
        if !self.contains_key(r.as_str()) {
            return r;
        }
        let n = self.entries.len();
        let ghost key_seq = self@.map_values(|e: (Seq<char>, V::V)| e.0);
        let ghost keys = key_seq.to_set();
        proof {
            key_seq.lemma_cardinality_of_set();
            vstd::seq_lib::seq_to_set_is_finite(key_seq);
        }
        let ghost mut tried: Set<Seq<char>> = Set::empty();
        let mut j: usize = 0;
        loop
            invariant
                self.wf(),
                n == self@.len(),
                key_seq == self@.map_values(|e: (Seq<char>, V::V)| e.0),
                keys == key_seq.to_set(),
                keys.finite(),
                keys.len() <= n,
                j <= n,
                tried.finite(),
                tried.len() == j,
                tried.subset_of(keys),
                forall|t: Seq<char>| #[trigger] tried.contains(t) ==> exists|i: nat|
                    i < j && t == numbered_uuid_text(i),
            decreases n - j,
        {
            let c = numbered_uuid(j as u64);
            if !self.contains_key(c.as_str()) {
                return c;
            }
            proof {
                let p = key_position(self@, c@);
                assert(key_seq[p] == c@);
                assert(keys.contains(c@));
                if tried.contains(c@) {
                    let i = choose|i: nat| i < j && c@ == numbered_uuid_text(i);
                    lemma_usize_below_pow10_20(j);
                    lemma_numbered_uuid_injective(i, j as nat);
                }
                let old_tried = tried;
                tried = tried.insert(c@);
                assert forall|t: Seq<char>| #[trigger] tried.contains(t) implies exists|i: nat|
                    i < j + 1 && t == numbered_uuid_text(i) by {
                    if t != c@ {
                        assert(old_tried.contains(t));
                    } else {
                        assert(t == numbered_uuid_text(j as nat));
                    }
                }
                vstd::set_lib::lemma_len_subset(tried, keys);
            }
            j = j + 1;
        }
    }

    /// A map holding the stored pairs of key and value; a later pair replaces an
    /// earlier one with the same key.
    pub fn from_pairs(pairs: Vec<(String, V)>) -> (s: Self)
        ensures
            s.wf(),
            s@ == entries_insert_all(pairs@.map_values(|p: (String, V)| (p.0@, p.1@))),
    {
        let ghost pv = pairs@.map_values(|p: (String, V)| (p.0@, p.1@));
        let mut s = IdMap::new();
        let mut pairs = pairs;
        let mut rest: Vec<(String, V)> = Vec::new();
        // Reverse once so that popping yields the pairs in their stored order.
        while pairs.len() > 0
            invariant
                rest@.len() + pairs@.len() == pv.len(),
                forall|j: int| 0 <= j < pairs@.len() ==> (#[trigger] pairs@[j].0@, pairs@[j].1@) == pv[j],
                forall|j: int| 0 <= j < rest@.len() ==> (#[trigger] rest@[j].0@, rest@[j].1@) == pv[pv.len() - 1 - j],
            decreases pairs@.len(),
        {
            let p = pairs.pop().unwrap();
            rest.push(p);
        }
        assert(entries_insert_all(pv.take(0)) =~= s@);
        while rest.len() > 0
            invariant
                s.wf(),
                rest@.len() <= pv.len(),
                forall|j: int| 0 <= j < rest@.len() ==> (#[trigger] rest@[j].0@, rest@[j].1@) == pv[pv.len() - 1 - j],
                s@ == entries_insert_all(pv.take(pv.len() - rest@.len())),
            decreases rest@.len(),
        {
            let ghost n = pv.len() - rest@.len();
            let (k, v) = rest.pop().unwrap();
            assert(pv.take(n + 1).drop_last() =~= pv.take(n));
            assert(pv.take(n + 1).last() == pv[n]);
            s.insert(k, v);
        }
        assert(pv.take(pv.len() as int) =~= pv);
        s
    }

    /// Removes the entries with each key of `ids`, in turn.
    pub fn remove_all(&mut self, ids: &Vec<String>)
        requires
            old(self).wf(),
        ensures
            final(self).wf(),
            final(self)@ == entries_remove_all(old(self)@, ids@.map_values(|s: String| s@)),
    {
        let ghost ks = ids@.map_values(|s: String| s@);
        let mut i: usize = 0;
        assert(ks.take(0) =~= Seq::<Seq<char>>::empty());
        while i < ids.len()
            invariant
                i <= ids@.len(),
                ks == ids@.map_values(|s: String| s@),
                self.wf(),
                self@ == entries_remove_all(old(self)@, ks.take(i as int)),
            decreases ids@.len() - i,
        {
            assert(ks.take(i + 1).drop_last() =~= ks.take(i as int));
            assert(ks.take(i + 1).last() == ids@[i as int]@);
            let _ = self.remove(ids[i].as_str());
            i = i + 1;
        }
        assert(ks.take(i as int) =~= ks);
    }
}

impl<V: Duplicate> IdMap<V> {
    /// Copies of all values, in entry order.
    pub fn values(&self) -> (r: Vec<V>)
        ensures
            r@.map_values(|v: V| v@) == entry_values(self@),
    {
        let mut r: Vec<V> = Vec::new();
        let mut i: usize = 0;
        while i < self.entries.len()
            invariant
                i <= self.entries@.len(),
                r@.map_values(|v: V| v@) =~= entry_values(self@).take(i as int),
            decreases self.entries@.len() - i,
        {
            r.push(self.entries[i].1.duplicate());
            assert(entry_values(self@).take(i + 1) =~= entry_values(self@).take(i as int).push(
                self@[i as int].1,
            ));
            i = i + 1;
        }
        assert(entry_values(self@).take(i as int) =~= entry_values(self@));
        r
    }

    /// Copies of all entries, in order.
    pub fn pairs(&self) -> (r: Vec<(String, V)>)
        ensures
            r@.map_values(|p: (String, V)| (p.0@, p.1@)) == self@,
    {
        let mut r: Vec<(String, V)> = Vec::new();
        let mut i: usize = 0;
        while i < self.entries.len()
            invariant
                i <= self.entries@.len(),
                r@.map_values(|p: (String, V)| (p.0@, p.1@)) =~= self@.take(i as int),
            decreases self.entries@.len() - i,
        {
            let e = &self.entries[i];
            r.push((e.0.clone(), e.1.duplicate()));
            assert(self@.take(i + 1) =~= self@.take(i as int).push(self@[i as int]));
            i = i + 1;
        }
        assert(self@.take(i as int) =~= self@);
        r
    }
}

} // verus!
