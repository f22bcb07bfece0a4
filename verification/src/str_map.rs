//! A string-keyed map backed by an association list with distinct keys.
//!
//! The protection components keep all their per-identity bookkeeping in
//! maps from identity strings to values; this module provides that map,
//! verified against a mathematical `Map<Seq<char>, V>` view.

use vstd::prelude::*;
use crate::text::str_eq;

verus! {

/// The key views of an entry sequence, in entry order.
spec fn keys_of<V>(s: Seq<(String, V)>) -> Seq<Seq<char>> {
    s.map_values(|e: (String, V)| e.0@)
}

/// No two entries share a key.
spec fn distinct_keys<V>(s: Seq<(String, V)>) -> bool {
    forall|i: int, j: int|
        #![trigger s[i], s[j]]
        0 <= i < j < s.len() ==> s[i].0@ != s[j].0@
}

/// The map an entry sequence denotes; on duplicate keys the later entry
/// wins, though well-formed maps never hold duplicates.
spec fn assoc_map<V>(s: Seq<(String, V)>) -> Map<Seq<char>, V>
    decreases s.len(),
{
    if s.len() == 0 {
        Map::empty()
    } else {
        assoc_map(s.drop_last()).insert(s.last().0@, s.last().1)
    }
}

proof fn lemma_assoc_contains<V>(s: Seq<(String, V)>, k: Seq<char>)
    ensures
        assoc_map(s).contains_key(k) <==> (exists|i: int| 0 <= i < s.len() && s[i].0@ == k),
    decreases s.len(),
{
    if s.len() == 0 {
    } else {
        lemma_assoc_contains(s.drop_last(), k);
        if s.last().0@ == k {
            assert(s[s.len() - 1].0@ == k);
        } else {
            if exists|i: int| 0 <= i < s.len() && s[i].0@ == k {
                let i = choose|i: int| 0 <= i < s.len() && s[i].0@ == k;
                assert(s.drop_last()[i] == s[i]);
            }
        }
    }
}

proof fn lemma_distinct_drop_last<V>(s: Seq<(String, V)>)
    requires
        distinct_keys(s),
        s.len() > 0,
    ensures
        distinct_keys(s.drop_last()),
{
    assert forall|i: int, j: int|
        0 <= i < j < s.drop_last().len() implies #[trigger] s.drop_last()[i].0@ != #[trigger] s.drop_last()[j].0@ by {
        assert(s.drop_last()[i] == s[i]);
        assert(s.drop_last()[j] == s[j]);
    }
}

proof fn lemma_assoc_value<V>(s: Seq<(String, V)>, i: int)
    requires
        distinct_keys(s),
        0 <= i < s.len(),
    ensures
        assoc_map(s).contains_key(s[i].0@),
        assoc_map(s)[s[i].0@] == s[i].1,
    decreases s.len(),
{
    if i == s.len() - 1 {
    } else {
        lemma_distinct_drop_last(s);
        assert(s.drop_last()[i] == s[i]);
        lemma_assoc_value(s.drop_last(), i);
        assert(s[s.len() - 1].0@ != s[i].0@);
    }
}

proof fn lemma_assoc_remove<V>(s: Seq<(String, V)>, i: int)
    requires
        distinct_keys(s),
        0 <= i < s.len(),
    ensures
        assoc_map(s.remove(i)) =~= assoc_map(s).remove(s[i].0@),
    decreases s.len(),
{
    lemma_distinct_drop_last(s);
    if i == s.len() - 1 {
        assert(s.remove(i) =~= s.drop_last());
        lemma_assoc_contains(s.drop_last(), s[i].0@);
        if exists|j: int| 0 <= j < s.drop_last().len() && s.drop_last()[j].0@ == s[i].0@ {
            let j = choose|j: int| 0 <= j < s.drop_last().len() && s.drop_last()[j].0@ == s[i].0@;
            assert(s[j] == s.drop_last()[j]);
            assert(false);
        }
        assert(assoc_map(s.drop_last()).remove(s[i].0@) =~= assoc_map(s.drop_last()));
    } else {
        let k = s[i].0@;
        let s2 = s.remove(i);
        assert(s2.drop_last() =~= s.drop_last().remove(i));
        assert(s2.last() == s.last());
        assert(s.drop_last()[i] == s[i]);
        lemma_assoc_remove(s.drop_last(), i);
        assert(s[s.len() - 1].0@ != k);
    }
}

/// A map from identity strings to values, with one entry per key.
pub struct StringMap<V> {
    entries: Vec<(String, V)>,
}

impl<V> View for StringMap<V> {
    type V = Map<Seq<char>, V>;

    closed spec fn view(&self) -> Map<Seq<char>, V> {
        assoc_map(self.entries@)
    }
}

impl<V> StringMap<V> {
    #[verifier::type_invariant]
    spec fn wf(self) -> bool {
        distinct_keys(self.entries@)
    }

    /// The keys of the map, in insertion order.
    pub closed spec fn key_seq(self) -> Seq<Seq<char>> {
        keys_of(self.entries@)
    }

    /// Creates an empty map.
    pub fn new() -> (m: Self)
        ensures
            m@ == Map::<Seq<char>, V>::empty(),
            m.key_seq().len() == 0,
    {
        StringMap { entries: Vec::new() }
    }

    proof fn lemma_dom_matches_keys(self)
        requires
            self.wf(),
        ensures
            self@.dom() =~= self.key_seq().to_set(),
            forall|i: int|
                0 <= i < self.key_seq().len() ==> #[trigger] self@.contains_key(self.key_seq()[i]),
    {
        assert forall|i: int|
            0 <= i < self.key_seq().len() implies #[trigger] self@.contains_key(
            self.key_seq()[i],
        ) by {
            lemma_assoc_value(self.entries@, i);
        }
        assert forall|k: Seq<char>|
            self@.dom().contains(k) == self.key_seq().to_set().contains(k) by {
            lemma_assoc_contains(self.entries@, k);
            if self@.dom().contains(k) {
                let i = choose|i: int| 0 <= i < self.entries@.len() && self.entries@[i].0@ == k;
                assert(self.key_seq()[i] == k);
                assert(self.key_seq().contains(k));
            }
            if self.key_seq().to_set().contains(k) {
                assert(self.key_seq().contains(k));
                let i = choose|i: int| 0 <= i < self.key_seq().len() && self.key_seq()[i] == k;
                assert(self.entries@[i].0@ == k);
            }
        }
    }

    fn index_of(&self, k: &str) -> (r: Option<usize>)
        ensures
            match r {
                Some(i) => i < self.entries@.len() && self.entries@[i as int].0@ == k@,
                None => forall|i: int| 0 <= i < self.entries@.len() ==> self.entries@[i as int].0@ != k@,
            },
    {
        let n = self.entries.len();
        let mut i: usize = 0;
        while i < n
            invariant
                n == self.entries@.len(),
                i <= n,
                forall|j: int| 0 <= j < i ==> self.entries@[j].0@ != k@,
            decreases n - i,
        {
            if str_eq(self.entries[i].0.as_str(), k) {
                return Some(i);
            }
            i += 1;
        }
        None
    }

    /// The number of entries.  Also hands the caller the connection
    /// between the key listing and the map view, for use when iterating.
    pub fn len(&self) -> (n: usize)
        ensures
            n == self.key_seq().len(),
            self.key_seq().no_duplicates(),
            self@.dom() =~= self.key_seq().to_set(),
            forall|i: int|
                0 <= i < self.key_seq().len() ==> #[trigger] self@.contains_key(self.key_seq()[i]),
    {
        proof {
            use_type_invariant(&*self);
            self.lemma_dom_matches_keys();
        }
        self.entries.len()
    }

    /// Reports whether `k` is present.
    pub fn contains_key(&self, k: &str) -> (r: bool)
        ensures
            r == self@.contains_key(k@),
    {
        proof {
            use_type_invariant(&*self);
            lemma_assoc_contains(self.entries@, k@);
        }
        match self.index_of(k) {
            Some(_) => true,
            None => false,
        }
    }

    /// Looks up the value stored under `k`.
    pub fn get<'a>(&'a self, k: &str) -> (r: Option<&'a V>)
        ensures
            match r {
                Some(v) => self@.contains_key(k@) && *v == self@[k@],
                None => !self@.contains_key(k@),
            },
    {
        proof {
            use_type_invariant(&*self);
            lemma_assoc_contains(self.entries@, k@);
        }
        match self.index_of(k) {
            Some(i) => {
                proof {
                    lemma_assoc_value(self.entries@, i as int);
                }
                Some(&self.entries[i].1)
            }
            None => None,
        }
    }

    /// Removes the entry stored under `k`, if any.
    pub fn remove(&mut self, k: &str)
        ensures
            final(self)@ == old(self)@.remove(k@),
    {
        proof {
            use_type_invariant(&*self);
            lemma_assoc_contains(self.entries@, k@);
        }
        match self.index_of(k) {
            Some(i) => {
                let mut entries: Vec<(String, V)> = Vec::new();
                std::mem::swap(&mut entries, &mut self.entries);
                proof {
                    lemma_assoc_remove(entries@, i as int);
                    assert forall|a: int, b: int|
                        0 <= a < b < entries@.remove(i as int).len() implies #[trigger] entries@.remove(
                        i as int,
                    )[a].0@ != #[trigger] entries@.remove(i as int)[b].0@ by {
                        entries@.remove_ensures(i as int);
                    }
                }
                entries.remove(i);
                self.entries = entries;
            }
            None => {
                proof {
                    assert(self@ =~= self@.remove(k@));
                }
            }
        }
    }

    /// Inserts `v` under `k`, replacing any earlier entry.
    pub fn insert(&mut self, k: String, v: V)
        ensures
            final(self)@ == old(self)@.insert(k@, v),
    {
        self.remove(k.as_str());
        proof {
            use_type_invariant(&*self);
            lemma_assoc_contains(self.entries@, k@);
        }
        let ghost pre = self.entries@;
        let mut entries: Vec<(String, V)> = Vec::new();
        std::mem::swap(&mut entries, &mut self.entries);
        entries.push((k, v));
        proof {
            assert(entries@.drop_last() =~= pre);
            assert forall|a: int, b: int|
                0 <= a < b < entries@.len() implies #[trigger] entries@[a].0@
                != #[trigger] entries@[b].0@ by {
                if b < entries@.len() - 1 {
                    assert(entries@[a] == pre[a]);
                    assert(entries@[b] == pre[b]);
                } else {
                    assert(entries@[a] == pre[a]);
                }
            }
            assert(assoc_map(entries@) =~= old(self)@.insert(entries@.last().0@, v));
        }
        self.entries = entries;
    }

    /// Removes every entry.
    pub fn clear(&mut self)
        ensures
            final(self)@ == Map::<Seq<char>, V>::empty(),
            final(self).key_seq().len() == 0,
    {
        let mut entries: Vec<(String, V)> = Vec::new();
        std::mem::swap(&mut entries, &mut self.entries);
    }

    /// The key stored at position `i`.
    pub fn key_at(&self, i: usize) -> (k: &String)
        requires
            i < self.key_seq().len(),
        ensures
            k@ == self.key_seq()[i as int],
            self@.contains_key(k@),
    {
        proof {
            use_type_invariant(&*self);
            lemma_assoc_value(self.entries@, i as int);
        }
        &self.entries[i].0
    }

    /// The value stored at position `i`.
    pub fn value_at(&self, i: usize) -> (v: &V)
        requires
            i < self.key_seq().len(),
        ensures
            self@.contains_key(self.key_seq()[i as int]),
            *v == self@[self.key_seq()[i as int]],
    {
        proof {
            use_type_invariant(&*self);
            lemma_assoc_value(self.entries@, i as int);
        }
        &self.entries[i].1
    }

    /// Copies out the keys, in entry order: one for each entry of the
    /// map, none listed twice.
    pub fn keys(&self) -> (ks: Vec<String>)
        ensures
            ks@.map_values(|s: String| s@) == self.key_seq(),
            ks@.map_values(|s: String| s@).no_duplicates(),
            self@.dom() =~= ks@.map_values(|s: String| s@).to_set(),
    {
        proof {
            use_type_invariant(&*self);
            self.lemma_dom_matches_keys();
        }
        let n = self.entries.len();
        let mut ks: Vec<String> = Vec::new();
        let mut i: usize = 0;
        while i < n
            invariant
                n == self.entries@.len(),
                i <= n,
                ks@.len() == i,
                forall|j: int| 0 <= j < i ==> #[trigger] ks@[j]@ == self.entries@[j].0@,
            decreases n - i,
        {
            ks.push(self.entries[i].0.clone());
            i += 1;
        }
        proof {
            assert(ks@.map_values(|s: String| s@) =~= self.key_seq());
        }
        ks
    }

}

} // verus!
