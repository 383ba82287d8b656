//! A map keyed by strings that keeps its entries in the order of their keys:
//! a vector of entries whose keys strictly increase, so that no key occurs
//! twice and iteration is deterministic.

use crate::text::lemma_name_lt_asymmetric;
use crate::text::lemma_name_lt_irreflexive;
use crate::text::lemma_name_lt_total;
use crate::text::lemma_name_lt_transitive;
use crate::text::name_lt;
use crate::text::str_less;
use crate::text::str_same;
use crate::text::views;
use vstd::prelude::*;

verus! {

/// Each element comes before all later ones; in particular no two are equal.
pub open spec fn strictly_sorted(s: Seq<Seq<char>>) -> bool {
    forall|i: int, j: int| 0 <= i < j < s.len() ==> name_lt(#[trigger] s[i], #[trigger] s[j])
}

/// The number of elements of `s` that come before `k`.
pub open spec fn rank(s: Seq<Seq<char>>, k: Seq<char>) -> nat
    decreases s.len(),
{
    if s.len() == 0 {
        0
    } else {
        rank(s.drop_last(), k) + if name_lt(s.last(), k) {
            1nat
        } else {
            0nat
        }
    }
}

/// `s` with `k` put in at its rank, unless `k` stands there already.
pub open spec fn insert_name(s: Seq<Seq<char>>, k: Seq<char>) -> Seq<Seq<char>> {
    let p = rank(s, k) as int;
    if p < s.len() && s[p] == k {
        s
    } else {
        s.insert(p, k)
    }
}

/// A position that splits `s` into the elements before `k` and the others is
/// the rank of `k`.
pub proof fn lemma_rank_position(s: Seq<Seq<char>>, k: Seq<char>, p: int)
    requires
        0 <= p <= s.len(),
        forall|i: int| 0 <= i < p ==> name_lt(#[trigger] s[i], k),
        forall|i: int| p <= i < s.len() ==> !name_lt(#[trigger] s[i], k),
    ensures
        rank(s, k) == p,
    decreases s.len(),
{
    if s.len() > 0 {
        let init = s.drop_last();
        assert forall|i: int| 0 <= i < init.len() implies init[i] == s[i] by {}
        if p == s.len() {
            lemma_rank_position(init, k, p - 1);
        } else {
            lemma_rank_position(init, k, p);
        }
    }
}

/// In a strictly sorted sequence the rank of `k` splits the elements before
/// `k` from the others.
pub proof fn lemma_rank_splits(s: Seq<Seq<char>>, k: Seq<char>)
    requires
        strictly_sorted(s),
    ensures
        rank(s, k) <= s.len(),
        forall|i: int| 0 <= i < rank(s, k) ==> name_lt(#[trigger] s[i], k),
        forall|i: int| rank(s, k) <= i < s.len() ==> !name_lt(#[trigger] s[i], k),
    decreases s.len(),
{
    if s.len() > 0 {
        let init = s.drop_last();
        assert forall|i: int| 0 <= i < init.len() implies init[i] == s[i] by {}
        assert(strictly_sorted(init));
        lemma_rank_splits(init, k);
        if name_lt(s.last(), k) {
            assert forall|i: int| 0 <= i < init.len() implies name_lt(#[trigger] init[i], k) by {
                assert(name_lt(s[i], s[s.len() - 1]));
                lemma_name_lt_transitive(s[i], s.last(), k);
            }
            lemma_rank_position(init, k, init.len() as int);
        }
    }
}

/// In a strictly sorted sequence every element stands at one index only.
pub proof fn lemma_sorted_index(s: Seq<Seq<char>>, i: int)
    requires
        strictly_sorted(s),
        0 <= i < s.len(),
    ensures
        s.contains(s[i]),
        s.index_of(s[i]) == i,
{
    let j = s.index_of(s[i]);
    assert(s.contains(s[i]));
    lemma_name_lt_irreflexive(s[i]);
    if j < i {
        assert(name_lt(s[j], s[i]));
    } else if i < j {
        assert(name_lt(s[i], s[j]));
    }
}

/// A strictly sorted sequence holds nothing twice.
pub proof fn lemma_sorted_no_duplicates(s: Seq<Seq<char>>)
    requires
        strictly_sorted(s),
    ensures
        s.no_duplicates(),
{
    assert forall|i: int, j: int| 0 <= i < s.len() && 0 <= j < s.len() && i != j implies s[i]
        != s[j] by {
        lemma_sorted_index(s, i);
        lemma_sorted_index(s, j);
    }
}

/// Insertion keeps a strictly sorted sequence strictly sorted, and adds `k`
/// to its elements and nothing else.
pub proof fn lemma_insert_name(s: Seq<Seq<char>>, k: Seq<char>)
    requires
        strictly_sorted(s),
    ensures
        strictly_sorted(insert_name(s, k)),
        forall|x: Seq<char>| insert_name(s, k).contains(x) <==> (x == k || s.contains(x)),
        s.contains(k) <==> (rank(s, k) < s.len() && s[rank(s, k) as int] == k),
{
    let p = rank(s, k) as int;
    let t = insert_name(s, k);
    lemma_rank_splits(s, k);
    lemma_name_lt_irreflexive(k);
    if s.contains(k) {
        let i = s.index_of(k);
        assert(p <= i);
        if p < i {
            assert(name_lt(s[p], s[i]));
            lemma_name_lt_asymmetric(s[p], k);
            lemma_name_lt_total(s[p], k);
        }
    }
    if p < s.len() && s[p] == k {
        assert(s.contains(k));
    } else {
        assert forall|i: int, j: int| 0 <= i < j < t.len() implies name_lt(
            #[trigger] t[i],
            #[trigger] t[j],
        ) by {
            if j == p {
                assert(t[i] == s[i]);
            } else if i == p {
                assert(t[j] == s[j - 1]);
                if !name_lt(k, s[j - 1]) {
                    lemma_name_lt_total(k, s[j - 1]);
                    assert(s.contains(k));
                }
            } else if j < p {
                assert(t[i] == s[i] && t[j] == s[j]);
            } else if i < p {
                assert(t[i] == s[i] && t[j] == s[j - 1]);
            } else {
                assert(t[i] == s[i - 1] && t[j] == s[j - 1]);
            }
        }
        assert(t[p] == k);
        assert forall|x: Seq<char>| s.contains(x) implies t.contains(x) by {
            let i = s.index_of(x);
            if i < p {
                assert(t[i] == x);
            } else {
                assert(t[i + 1] == x);
            }
        }
        assert forall|x: Seq<char>| t.contains(x) implies (x == k || s.contains(x)) by {
            let i = t.index_of(x);
            if i < p {
                assert(s[i] == x);
            } else if i > p {
                assert(s[i - 1] == x);
            }
        }
    }
}

/// The keys of a sequence of entries.
pub open spec fn entry_keys<V>(entries: Seq<(String, V)>) -> Seq<Seq<char>> {
    entries.map_values(|e: (String, V)| e.0@)
}

/// The values of a sequence of entries.
pub open spec fn entry_values<V>(entries: Seq<(String, V)>) -> Seq<V> {
    entries.map_values(|e: (String, V)| e.1)
}

/// A map from strings to `V` whose entries are kept in the order of their
/// keys.
#[derive(Debug, PartialEq, Eq)]
pub struct NameMap<V> {
    entries: Vec<(String, V)>,
}

impl<V> NameMap<V> {
    /// The keys, in order.
    pub closed spec fn keys(&self) -> Seq<Seq<char>> {
        entry_keys(self.entries@)
    }

    /// The values, each at the index of its key.
    pub closed spec fn values(&self) -> Seq<V> {
        entry_values(self.entries@)
    }

    /// The map as a mathematical map.
    pub open spec fn as_map(&self) -> Map<Seq<char>, V> {
        Map::new(
            |k: Seq<char>| self.keys().contains(k),
            |k: Seq<char>| self.values()[self.keys().index_of(k)],
        )
    }

    #[verifier::type_invariant]
    spec fn keys_increase(&self) -> bool {
        strictly_sorted(self.keys())
    }

    /// Where the keys are strictly sorted, as they are in every map that
    /// code holds, each key stands for the value at its index.
    pub proof fn lemma_map_at(&self, i: int)
        requires
            strictly_sorted(self.keys()),
            0 <= i < self.keys().len(),
        ensures
            self.as_map().contains_key(self.keys()[i]),
            self.as_map()[self.keys()[i]] == self.values()[i],
    {
        lemma_sorted_index(self.keys(), i);
    }

    /// There are as many values as keys.
    pub proof fn lemma_lengths(&self)
        ensures
            self.keys().len() == self.values().len(),
    {
    }

    /// An empty map.
    pub fn new() -> (m: Self)
        ensures
            m.keys() == Seq::<Seq<char>>::empty(),
            m.values() == Seq::<V>::empty(),
            m.as_map() == Map::<Seq<char>, V>::empty(),
    {
        let m = NameMap { entries: Vec::new() };
        assert(m.keys() =~= Seq::<Seq<char>>::empty());
        assert(m.values() =~= Seq::<V>::empty());
        assert(m.as_map() =~= Map::<Seq<char>, V>::empty());
        m
    }

    /// The number of entries.
    pub fn len(&self) -> (n: usize)
        ensures
            n == self.keys().len(),
            n == self.values().len(),
            strictly_sorted(self.keys()),
    {
        proof {
            use_type_invariant(self);
        }
        self.entries.len()
    }

    /// The key of the entry at index `i`.
    pub fn key_at(&self, i: usize) -> (k: &String)
        requires
            i < self.keys().len(),
        ensures
            k@ == self.keys()[i as int],
    {
        &self.entries[i].0
    }

    /// The value of the entry at index `i`.
    pub fn value_at(&self, i: usize) -> (v: &V)
        requires
            i < self.keys().len(),
        ensures
            *v == self.values()[i as int],
            self.as_map().contains_key(self.keys()[i as int]),
            *v == self.as_map()[self.keys()[i as int]],
    {
        proof {
            use_type_invariant(self);
            lemma_sorted_index(self.keys(), i as int);
        }
        &self.entries[i].1
    }

    /// The keys, in order.
    pub fn key_list(&self) -> (out: Vec<String>)
        ensures
            views(out@) == self.keys(),
            strictly_sorted(self.keys()),
    {
        proof {
            use_type_invariant(self);
        }
        let mut out: Vec<String> = Vec::new();
        let mut i: usize = 0;
        while i < self.entries.len()
            invariant
                i <= self.entries.len(),
                out@.len() == i,
                views(out@) == self.keys().take(i as int),
            decreases self.entries.len() - i,
        {
            let key = self.entries[i].0.clone();
            assert(key@ == self.keys()[i as int]);
            let ghost before = out@;
            out.push(key);
            assert forall|j: int| 0 <= j < i + 1 implies views(out@)[j] == self.keys()[j] by {
                if j < i {
                    assert(views(before)[j] == self.keys().take(i as int)[j]);
                }
            }
            assert(views(out@) =~= self.keys().take(i + 1));
            i = i + 1;
        }
        assert(self.keys().take(i as int) =~= self.keys());
        out
    }

    /// The rank of `key` among the keys, and whether `key` is one of them.
    pub fn find(&self, key: &str) -> (r: (usize, bool))
        ensures
            r.0 == rank(self.keys(), key@),
            r.0 <= self.keys().len(),
            r.1 == self.keys().contains(key@),
            r.1 == (r.0 < self.keys().len() && self.keys()[r.0 as int] == key@),
    {
        proof {
            use_type_invariant(self);
        }
        let ghost keys = self.keys();
        let mut p: usize = self.entries.len();
        while p > 0 && !str_less(self.entries[p - 1].0.as_str(), key)
            invariant
                p <= self.entries.len(),
                keys == self.keys(),
                keys.len() == self.entries.len(),
                forall|i: int| 0 <= i < keys.len() ==> keys[i] == self.entries[i].0@,
                forall|i: int| p <= i < keys.len() ==> !name_lt(#[trigger] keys[i], key@),
            decreases p,
        {
            p = p - 1;
        }
        proof {
            assert forall|i: int| 0 <= i < p implies name_lt(#[trigger] keys[i], key@) by {
                if i < p - 1 {
                    assert(name_lt(keys[i], keys[p - 1]));
                    lemma_name_lt_transitive(keys[i], keys[p - 1], key@);
                }
            }
            lemma_rank_position(keys, key@, p as int);
            lemma_insert_name(keys, key@);
        }
        let found = p < self.entries.len() && str_same(self.entries[p].0.as_str(), key);
        (p, found)
    }

    /// The value stored under `key`, if there is one.
    pub fn get(&self, key: &str) -> (r: Option<&V>)
        ensures
            match r {
                Some(v) => self.as_map().contains_key(key@) && *v == self.as_map()[key@],
                None => !self.as_map().contains_key(key@),
            },
    {
        let (p, found) = self.find(key);
        if found {
            Some(self.value_at(p))
        } else {
            None
        }
    }

    /// Adds `value` under `key`, a key that comes after all keys of the map.
    pub(crate) fn push_last(&mut self, key: String, value: V)
        requires
            old(self).keys().len() > 0 ==> name_lt(old(self).keys().last(), key@),
        ensures
            final(self).keys() == old(self).keys().push(key@),
            final(self).values() == old(self).values().push(value),
            strictly_sorted(final(self).keys()),
    {
        proof {
            use_type_invariant(&*self);
        }
        let ghost old_keys = self.keys();
        let ghost old_values = self.values();
        let ghost k = key@;
        let mut entries: Vec<(String, V)> = Vec::new();
        core::mem::swap(&mut self.entries, &mut entries);
        assert(self.keys() =~= Seq::<Seq<char>>::empty());
        entries.push((key, value));
        proof {
            let new_keys = old_keys.push(k);
            assert(entry_keys(entries@) =~= new_keys);
            assert(entry_values(entries@) =~= old_values.push(value));
            assert forall|i: int, j: int| 0 <= i < j < new_keys.len() implies name_lt(
                #[trigger] new_keys[i],
                #[trigger] new_keys[j],
            ) by {
                if j == old_keys.len() {
                    if i < old_keys.len() - 1 {
                        assert(name_lt(old_keys[i], old_keys[old_keys.len() - 1]));
                        lemma_name_lt_transitive(old_keys[i], old_keys.last(), k);
                    }
                } else {
                    assert(name_lt(old_keys[i], old_keys[j]));
                }
            }
        }
        self.entries = entries;
    }

    /// Stores `value` under `key`, in place of any value stored there before.
    pub fn insert(&mut self, key: String, value: V)
        ensures
            final(self).keys() == insert_name(old(self).keys(), key@),
            final(self).as_map() == old(self).as_map().insert(key@, value),
            strictly_sorted(final(self).keys()),
    {
        proof {
            use_type_invariant(&*self);
        }
        let ghost old_keys = self.keys();
        let ghost old_values = self.values();
        let ghost old_map = self.as_map();
        let ghost k = key@;
        let (p, found) = self.find(key.as_str());
        proof {
            lemma_insert_name(old_keys, k);
        }
        let mut entries: Vec<(String, V)> = Vec::new();
        core::mem::swap(&mut self.entries, &mut entries);
        assert(self.keys() =~= Seq::<Seq<char>>::empty());
        if found {
            entries.set(p, (key, value));
            assert(entry_keys(entries@) =~= old_keys);
            self.entries = entries;
            proof {
                assert(self.keys() =~= old_keys);
                assert(self.values() =~= old_values.update(p as int, value));
                assert forall|i: int| 0 <= i < old_keys.len() implies old_keys.index_of(
                    #[trigger] old_keys[i],
                ) == i by {
                    lemma_sorted_index(old_keys, i);
                }
                assert(self.as_map() =~= old_map.insert(k, value));
            }
        } else {
            entries.insert(p, (key, value));
            assert(entry_keys(entries@) =~= old_keys.insert(p as int, k));
            self.entries = entries;
            proof {
                let new_keys = old_keys.insert(p as int, k);
                assert(self.keys() =~= new_keys);
                assert(self.values() =~= old_values.insert(p as int, value));
                assert forall|i: int| 0 <= i < old_keys.len() implies old_keys.index_of(
                    #[trigger] old_keys[i],
                ) == i by {
                    lemma_sorted_index(old_keys, i);
                }
                assert forall|i: int| 0 <= i < new_keys.len() implies new_keys.index_of(
                    #[trigger] new_keys[i],
                ) == i by {
                    lemma_sorted_index(new_keys, i);
                }
                assert forall|x: Seq<char>| #[trigger]
                    self.as_map().contains_key(x) implies self.as_map()[x] == old_map.insert(
                    k,
                    value,
                )[x] by {
                    let i = new_keys.index_of(x);
                    if i < p {
                        assert(old_keys[i] == x);
                    } else if i > p {
                        assert(old_keys[i - 1] == x);
                    }
                }
                assert(self.as_map() =~= old_map.insert(k, value));
            }
        }
    }
}

impl<V: Copy> Clone for NameMap<V> {
    /// A map with the same keys and values.
    fn clone(&self) -> (m: Self)
        ensures
            m.keys() == self.keys(),
            m.values() == self.values(),
            m.as_map() == self.as_map(),
    {
        proof {
            use_type_invariant(self);
        }
        let mut entries: Vec<(String, V)> = Vec::new();
        let mut i: usize = 0;
        while i < self.entries.len()
            invariant
                i <= self.entries.len(),
                entries@.len() == i,
                forall|j: int|
                    0 <= j < i ==> (#[trigger] entries@[j]).0@ == self.entries@[j].0@
                        && entries@[j].1 == self.entries@[j].1,
            decreases self.entries.len() - i,
        {
            entries.push((self.entries[i].0.clone(), self.entries[i].1));
            i = i + 1;
        }
        assert(entry_keys(entries@) =~= self.keys());
        assert(entry_values(entries@) =~= self.values());
        NameMap { entries }
    }
}

} // verus!
