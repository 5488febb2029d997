//! A string-keyed table that keeps insertion order, modelled as a finite
//! `Map` from key text to value. Keys are unique.
//!
//! It holds the session, trust and fault tables. A `HashMap<String, _>`
//! would not do in verified code: vstd specifies hash maps only for keys
//! whose hashing it takes as a law (primitive integers, `bool`), which
//! `String` is not among, and a hash map is walked in an order that varies
//! from one process to the next, while which entry is found first must not.

use vstd::prelude::*;
use crate::text::str_eq;

verus! {

/// Key/value pairs with pairwise distinct keys, in insertion order.
pub struct Registry<V> {
    entries: Vec<(String, V)>,
}

/// Whether the keys of `s` are pairwise distinct.
pub open spec fn keys_distinct<V>(s: Seq<(String, V)>) -> bool {
    forall|i: int, j: int| 0 <= i < j < s.len() ==> s[i].0@ != s[j].0@
}

/// Whether some pair of `s` has key `k`.
pub open spec fn has_key<V>(s: Seq<(String, V)>, k: Seq<char>) -> bool {
    exists|i: int| 0 <= i < s.len() && s[i].0@ == k
}

/// The map that `s` denotes.
pub open spec fn seq_map<V>(s: Seq<(String, V)>) -> Map<Seq<char>, V> {
    Map::new(
        |k: Seq<char>| has_key(s, k),
        |k: Seq<char>| s[choose|i: int| 0 <= i < s.len() && s[i].0@ == k].1,
    )
}

proof fn lemma_seq_map_at<V>(s: Seq<(String, V)>, i: int)
    requires
        keys_distinct(s),
        0 <= i < s.len(),
    ensures
        seq_map(s).dom().contains(s[i].0@),
        seq_map(s)[s[i].0@] == s[i].1,
{
    let k = s[i].0@;
    assert(has_key(s, k));
    let j = choose|j: int| 0 <= j < s.len() && s[j].0@ == k;
    assert(j == i);
}

proof fn lemma_seq_map_push<V>(s: Seq<(String, V)>, key: String, v: V)
    requires
        keys_distinct(s),
        !has_key(s, key@),
    ensures
        keys_distinct(s.push((key, v))),
        seq_map(s.push((key, v))) =~= seq_map(s).insert(key@, v),
{
    let t = s.push((key, v));
    assert(keys_distinct(t)) by {
        assert forall|i: int, j: int| 0 <= i < j < t.len() implies t[i].0@ != t[j].0@ by {
            if j == s.len() {
                if t[i].0@ == key@ {
                    assert(s[i].0@ == key@);
                }
            } else {
                assert(t[i] == s[i] && t[j] == s[j]);
            }
        }
    }
    assert forall|k: Seq<char>| seq_map(t).dom().contains(k) == seq_map(s).insert(key@, v).dom().contains(k) by {
        if has_key(s, k) {
            let i = choose|i: int| 0 <= i < s.len() && s[i].0@ == k;
            assert(t[i] == s[i]);
        }
        if k == key@ {
            assert(t[s.len() as int].0@ == k);
        }
        if has_key(t, k) && k != key@ {
            let i = choose|i: int| 0 <= i < t.len() && t[i].0@ == k;
            assert(s[i] == t[i]);
        }
    }
    assert forall|k: Seq<char>| seq_map(t).dom().contains(k) implies seq_map(t)[k] == seq_map(s).insert(key@, v)[k] by {
        let i = choose|i: int| 0 <= i < t.len() && t[i].0@ == k;
        lemma_seq_map_at(t, i);
        if i < s.len() {
            assert(t[i] == s[i]);
            lemma_seq_map_at(s, i);
        }
    }
}

proof fn lemma_seq_map_update<V>(s: Seq<(String, V)>, i: int, v: V)
    requires
        keys_distinct(s),
        0 <= i < s.len(),
    ensures
        keys_distinct(s.update(i, (s[i].0, v))),
        seq_map(s.update(i, (s[i].0, v))) =~= seq_map(s).insert(s[i].0@, v),
{
    let t = s.update(i, (s[i].0, v));
    assert forall|a: int, b: int| 0 <= a < b < t.len() implies t[a].0@ != t[b].0@ by {
        assert(t[a].0 == s[a].0 && t[b].0 == s[b].0);
    }
    assert forall|k: Seq<char>| has_key(t, k) == has_key(s, k) by {
        if has_key(s, k) {
            let j = choose|j: int| 0 <= j < s.len() && s[j].0@ == k;
            assert(t[j].0 == s[j].0);
        }
        if has_key(t, k) {
            let j = choose|j: int| 0 <= j < t.len() && t[j].0@ == k;
            assert(t[j].0 == s[j].0);
        }
    }
    lemma_seq_map_at(s, i);
    assert forall|k: Seq<char>| seq_map(t).dom().contains(k) implies seq_map(t)[k] == seq_map(s).insert(s[i].0@, v)[k] by {
        let j = choose|j: int| 0 <= j < t.len() && t[j].0@ == k;
        lemma_seq_map_at(t, j);
        if j != i {
            lemma_seq_map_at(s, j);
        }
    }
}

proof fn lemma_seq_map_remove<V>(s: Seq<(String, V)>, i: int)
    requires
        keys_distinct(s),
        0 <= i < s.len(),
    ensures
        keys_distinct(s.remove(i)),
        seq_map(s.remove(i)) =~= seq_map(s).remove(s[i].0@),
{
    let t = s.remove(i);
    assert forall|a: int, b: int| 0 <= a < b < t.len() implies t[a].0@ != t[b].0@ by {
        let a2 = if a < i { a } else { a + 1 };
        let b2 = if b < i { b } else { b + 1 };
        assert(t[a] == s[a2] && t[b] == s[b2]);
    }
    assert forall|k: Seq<char>| has_key(t, k) == (has_key(s, k) && k != s[i].0@) by {
        if has_key(s, k) && k != s[i].0@ {
            let j = choose|j: int| 0 <= j < s.len() && s[j].0@ == k;
            if j < i {
                assert(t[j] == s[j]);
            } else {
                assert(j != i);
                assert(t[j - 1] == s[j]);
            }
        }
        if has_key(t, k) {
            let j = choose|j: int| 0 <= j < t.len() && t[j].0@ == k;
            let j2 = if j < i { j } else { j + 1 };
            assert(t[j] == s[j2]);
        }
    }
    assert forall|k: Seq<char>| seq_map(t).dom().contains(k) implies seq_map(t)[k] == seq_map(s).remove(s[i].0@)[k] by {
        let j = choose|j: int| 0 <= j < t.len() && t[j].0@ == k;
        lemma_seq_map_at(t, j);
        let j2 = if j < i { j } else { j + 1 };
        assert(t[j] == s[j2]);
        lemma_seq_map_at(s, j2);
    }
}

impl<V> Registry<V> {
    /// The pairs, in insertion order.
    pub closed spec fn pairs(&self) -> Seq<(String, V)> {
        self.entries@
    }

    /// The table as a map from key text to value.
    pub open spec fn map(&self) -> Map<Seq<char>, V> {
        seq_map(self.pairs())
    }

    /// The table's invariant: keys are pairwise distinct.
    pub closed spec fn wf(&self) -> bool {
        keys_distinct(self.entries@)
    }

    /// The keys, in insertion order.
    pub closed spec fn key_seq(&self) -> Seq<Seq<char>> {
        self.entries@.map_values(|p: (String, V)| p.0@)
    }

    /// The empty table.
    pub fn new() -> (r: Self)
        ensures
            r.wf(),
            r.map() == Map::<Seq<char>, V>::empty(),
            r.key_seq() == Seq::<Seq<char>>::empty(),
    {
        let r = Registry { entries: Vec::new() };
        assert(r.map() =~= Map::<Seq<char>, V>::empty());
        assert(r.key_seq() =~= Seq::<Seq<char>>::empty());
        r
    }

    /// The keys are exactly the map's domain, each once.
    pub proof fn lemma_keys(&self)
        requires
            self.wf(),
        ensures
            forall|k: Seq<char>| self.map().dom().contains(k) <==> self.key_seq().contains(k),
            self.key_seq().no_duplicates(),
            self.key_seq().len() == self.map().dom().len(),
    {
        let s = self.entries@;
        let ks = self.key_seq();
        assert forall|k: Seq<char>| self.map().dom().contains(k) <==> ks.contains(k) by {
            if has_key(s, k) {
                let i = choose|i: int| 0 <= i < s.len() && s[i].0@ == k;
                assert(ks[i] == k);
            }
            if ks.contains(k) {
                let i = choose|i: int| 0 <= i < ks.len() && ks[i] == k;
                assert(s[i].0@ == k);
            }
        }
        assert(ks.no_duplicates()) by {
            assert forall|i: int, j: int| 0 <= i < ks.len() && 0 <= j < ks.len() && i != j implies ks[i] != ks[j] by {
                if i < j {
                    assert(s[i].0@ != s[j].0@);
                } else {
                    assert(s[j].0@ != s[i].0@);
                }
            }
        }
        ks.unique_seq_to_set();
        assert(ks.to_set() =~= self.map().dom());
    }

    /// The number of entries.
    pub fn len(&self) -> (r: usize)
        requires
            self.wf(),
        ensures
            r == self.map().dom().len(),
    {
        proof {
            self.lemma_keys();
        }
        self.entries.len()
    }

    /// The position of `key`, if present.
    fn position(&self, key: &str) -> (r: Option<usize>)
        requires
            self.wf(),
        ensures
            r is Some <==> self.map().dom().contains(key@),
            r matches Some(i) ==> i < self.entries@.len() && self.entries@[i as int].0@ == key@,
    {
        let mut i: usize = 0;
        while i < self.entries.len()
            invariant
                i <= self.entries@.len(),
                forall|j: int| 0 <= j < i ==> self.entries@[j].0@ != key@,
            decreases self.entries@.len() - i,
        {
            if str_eq(self.entries[i].0.as_str(), key) {
                return Some(i);
            }
            i = i + 1;
        }
        None
    }

    /// Whether `key` is present.
    pub fn contains_key(&self, key: &str) -> (r: bool)
        requires
            self.wf(),
        ensures
            r == self.map().dom().contains(key@),
    {
        self.position(key).is_some()
    }

    /// The value stored under `key`, if any.
    pub fn get(&self, key: &str) -> (r: Option<&V>)
        requires
            self.wf(),
        ensures
            r is Some <==> self.map().dom().contains(key@),
            r matches Some(v) ==> *v == self.map()[key@],
    {
        match self.position(key) {
            Some(i) => {
                proof {
                    lemma_seq_map_at(self.entries@, i as int);
                }
                Some(&self.entries[i].1)
            },
            None => None,
        }
    }

    /// Stores `v` under `key`, replacing any previous value in place.
    pub fn insert(&mut self, key: String, v: V)
        requires
            old(self).wf(),
        ensures
            final(self).wf(),
            final(self).map() == old(self).map().insert(key@, v),
            old(self).map().dom().contains(key@) ==> final(self).key_seq() == old(self).key_seq(),
            !old(self).map().dom().contains(key@) ==> final(self).key_seq() == old(self).key_seq().push(key@),
    {
        match self.position(key.as_str()) {
            Some(i) => {
                let ghost s = self.entries@;
                let k = self.entries[i].0.clone();
                proof {
                    lemma_seq_map_update(s, i as int, v);
                }
                self.entries.set(i, (k, v));
                assert(self.entries@ == s.update(i as int, (s[i as int].0, v)));
                assert(self.key_seq() =~= old(self).key_seq());
            },
            None => {
                let ghost s = self.entries@;
                proof {
                    lemma_seq_map_push(s, key, v);
                }
                self.entries.push((key, v));
                assert(self.key_seq() =~= old(self).key_seq().push(key@));
            },
        }
    }

    /// Removes `key`, returning its value; the order of the others is kept.
    pub fn remove(&mut self, key: &str) -> (r: Option<V>)
        requires
            old(self).wf(),
        ensures
            final(self).wf(),
            final(self).map() == old(self).map().remove(key@),
            r is Some <==> old(self).map().dom().contains(key@),
            r matches Some(v) ==> v == old(self).map()[key@],
            r is None ==> *final(self) == *old(self),
    {
        match self.position(key) {
            Some(i) => {
                let ghost s = self.entries@;
                proof {
                    lemma_seq_map_remove(s, i as int);
                    lemma_seq_map_at(s, i as int);
                }
                let (_, v) = self.entries.remove(i);
                Some(v)
            },
            None => {
                assert(old(self).map().remove(key@) =~= old(self).map());
                None
            },
        }
    }

    /// Copies of the keys, in insertion order.
    pub fn keys(&self) -> (r: Vec<String>)
        requires
            self.wf(),
        ensures
            r@.map_values(|s: String| s@) == self.key_seq(),
    {
        let mut out: Vec<String> = Vec::new();
        let mut i: usize = 0;
        while i < self.entries.len()
            invariant
                i <= self.entries@.len(),
                out@.map_values(|s: String| s@) == self.key_seq().take(i as int),
            decreases self.entries@.len() - i,
        {
            let ghost prev = out@;
            let k = self.entries[i].0.clone();
            assert(k@ == self.key_seq()[i as int]);
            out.push(k);
            assert(out@ == prev.push(k));
            assert(out@.map_values(|s: String| s@) =~= prev.map_values(|s: String| s@).push(k@));
            assert(out@.map_values(|s: String| s@) =~= self.key_seq().take(i + 1));
            i = i + 1;
        }
        assert(self.key_seq().take(i as int) =~= self.key_seq());
        out
    }

    /// The value at position `i` of the key order, with its key.
    pub fn at(&self, i: usize) -> (r: (&String, &V))
        requires
            self.wf(),
            i < self.key_seq().len(),
        ensures
            r.0@ == self.key_seq()[i as int],
            self.map().dom().contains(r.0@),
            *r.1 == self.map()[r.0@],
    {
        proof {
            lemma_seq_map_at(self.entries@, i as int);
        }
        (&self.entries[i].0, &self.entries[i].1)
    }
}

} // verus!
