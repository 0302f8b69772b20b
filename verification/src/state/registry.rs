//! A small keyed collection: a vector of entries in which no key occurs
//! twice, seen in contracts as a finite map.

use vstd::prelude::*;

verus! {

/// Keys that executable code can compare for equality.
pub trait Key: Copy {
    fn same(&self, other: &Self) -> (r: bool)
        ensures
            r == (*self == *other),
    ;
}

/// No key occurs in two entries of `s`.
pub open spec fn distinct_keys<K, T>(s: Seq<(K, T)>) -> bool {
    forall|i: int, j: int| 0 <= i < j < s.len() ==> (#[trigger] s[i]).0 != (#[trigger] s[j]).0
}

/// Some entry of `s` has the key `k`.
pub open spec fn has_key<K, T>(s: Seq<(K, T)>, k: K) -> bool {
    exists|i: int| 0 <= i < s.len() && (#[trigger] s[i]).0 == k
}

/// The position of an entry of `s` with the key `k`, where there is one.
pub open spec fn index_of<K, T>(s: Seq<(K, T)>, k: K) -> int {
    choose|i: int| 0 <= i < s.len() && (#[trigger] s[i]).0 == k
}

/// The finite map that the entries of `s` stand for.
pub open spec fn as_map<K, T>(s: Seq<(K, T)>) -> Map<K, T> {
    Map::new(|k: K| has_key(s, k), |k: K| s[index_of(s, k)].1)
}

pub proof fn lemma_as_map_at<K, T>(s: Seq<(K, T)>, i: int)
    requires
        distinct_keys(s),
        0 <= i < s.len(),
    ensures
        as_map(s).contains_key(s[i].0),
        as_map(s)[s[i].0] == s[i].1,
        index_of(s, s[i].0) == i,
{
    let k = s[i].0;
    assert(has_key(s, k));
    let j = index_of(s, k);
    assert(0 <= j < s.len() && s[j].0 == k);
    if j < i {
        assert(s[j].0 != s[i].0);
    } else if i < j {
        assert(s[i].0 != s[j].0);
    }
}

pub proof fn lemma_as_map_update<K, T>(s: Seq<(K, T)>, i: int, value: T)
    requires
        distinct_keys(s),
        0 <= i < s.len(),
    ensures
        distinct_keys(s.update(i, (s[i].0, value))),
        as_map(s.update(i, (s[i].0, value))) == as_map(s).insert(s[i].0, value),
{
    let t = s.update(i, (s[i].0, value));
    assert(distinct_keys(t)) by {
        assert forall|a: int, b: int| 0 <= a < b < t.len() implies (#[trigger] t[a]).0 != (
        #[trigger] t[b]).0 by {
            assert(s[a].0 != s[b].0);
        }
    }
    assert forall|k: K| has_key(t, k) == has_key(s, k) by {
        if has_key(s, k) {
            let j = index_of(s, k);
            assert(t[j].0 == k);
        }
        if has_key(t, k) {
            let j = index_of(t, k);
            assert(s[j].0 == k);
        }
    }
    assert forall|k: K| has_key(t, k) implies #[trigger] as_map(t)[k] == as_map(s).insert(
        s[i].0,
        value,
    )[k] by {
        let j = index_of(t, k);
        lemma_as_map_at(t, j);
        lemma_as_map_at(s, j);
    }
    assert(as_map(t) =~= as_map(s).insert(s[i].0, value));
}

pub proof fn lemma_as_map_push<K, T>(s: Seq<(K, T)>, key: K, value: T)
    requires
        distinct_keys(s),
        !has_key(s, key),
    ensures
        distinct_keys(s.push((key, value))),
        as_map(s.push((key, value))) == as_map(s).insert(key, value),
{
    let t = s.push((key, value));
    assert(distinct_keys(t)) by {
        assert forall|a: int, b: int| 0 <= a < b < t.len() implies (#[trigger] t[a]).0 != (
        #[trigger] t[b]).0 by {
            if b < s.len() {
                assert(s[a].0 != s[b].0);
            } else {
                assert(s[a].0 != key);
            }
        }
    }
    assert(t[s.len() as int].0 == key);
    assert forall|k: K| has_key(t, k) == (k == key || has_key(s, k)) by {
        if has_key(s, k) {
            let j = index_of(s, k);
            assert(t[j].0 == k);
        }
        if has_key(t, k) && k != key {
            let j = index_of(t, k);
            assert(s[j].0 == k);
        }
    }
    assert forall|k: K| has_key(t, k) implies #[trigger] as_map(t)[k] == as_map(s).insert(
        key,
        value,
    )[k] by {
        let j = index_of(t, k);
        lemma_as_map_at(t, j);
        if j < s.len() {
            lemma_as_map_at(s, j);
        }
    }
    assert(as_map(t) =~= as_map(s).insert(key, value));
}

pub proof fn lemma_as_map_remove<K, T>(s: Seq<(K, T)>, i: int)
    requires
        distinct_keys(s),
        0 <= i < s.len(),
    ensures
        distinct_keys(s.remove(i)),
        as_map(s.remove(i)) == as_map(s).remove(s[i].0),
{
    let t = s.remove(i);
    assert forall|a: int| 0 <= a < t.len() implies #[trigger] t[a] == s[if a < i {
        a
    } else {
        a + 1
    }] by {}
    assert(distinct_keys(t)) by {
        assert forall|a: int, b: int| 0 <= a < b < t.len() implies (#[trigger] t[a]).0 != (
        #[trigger] t[b]).0 by {
            let a1 = if a < i { a } else { a + 1 };
            let b1 = if b < i { b } else { b + 1 };
            assert(s[a1].0 != s[b1].0);
        }
    }
    assert forall|k: K| has_key(t, k) == (k != s[i].0 && has_key(s, k)) by {
        if has_key(t, k) {
            let j = index_of(t, k);
            let j1 = if j < i { j } else { j + 1 };
            assert(s[j1].0 == k);
            if j1 < i {
                assert(s[j1].0 != s[i].0);
            } else {
                assert(s[i].0 != s[j1].0);
            }
        }
        if k != s[i].0 && has_key(s, k) {
            let j = index_of(s, k);
            let j1 = if j < i { j } else { j - 1 };
            assert(t[j1].0 == k);
        }
    }
    assert forall|k: K| has_key(t, k) implies #[trigger] as_map(t)[k] == as_map(s).remove(
        s[i].0,
    )[k] by {
        let j = index_of(t, k);
        let j1 = if j < i { j } else { j + 1 };
        lemma_as_map_at(t, j);
        lemma_as_map_at(s, j1);
    }
    assert(as_map(t) =~= as_map(s).remove(s[i].0));
}

/// A collection of values under distinct keys.
pub struct Registry<K: Key, T: Copy> {
    entries: Vec<(K, T)>,
}

impl<K: Key, T: Copy> View for Registry<K, T> {
    type V = Map<K, T>;

    open spec fn view(&self) -> Map<K, T> {
        as_map(self.entries())
    }
}

impl<K: Key, T: Copy> Registry<K, T> {
    /// The entries in the order in which they are stored.
    pub closed spec fn entries(&self) -> Seq<(K, T)> {
        self.entries@
    }

    pub open spec fn wf(&self) -> bool {
        distinct_keys(self.entries())
    }

    pub fn new() -> (r: Self)
        ensures
            r.wf(),
            r.entries() == Seq::<(K, T)>::empty(),
            r@ == Map::<K, T>::empty(),
    {
        let r = Registry { entries: Vec::new() };
        assert(r@ =~= Map::<K, T>::empty());
        r
    }

    /// Where the entry under `key` is stored.
    pub fn find(&self, key: &K) -> (r: Option<usize>)
        ensures
            match r {
                Some(i) => i < self.entries().len() && self.entries()[i as int].0 == *key,
                None => !has_key(self.entries(), *key),
            },
            r is Some == self@.contains_key(*key),
    {
        let mut i: usize = 0;
        while i < self.entries.len()
            invariant
                i <= self.entries.len(),
                forall|j: int| 0 <= j < i ==> (#[trigger] self.entries@[j]).0 != *key,
            decreases self.entries.len() - i,
        {
            if self.entries[i].0.same(key) {
                assert(has_key(self.entries(), *key));
                return Some(i);
            }
            i += 1;
        }
        None
    }

    /// The value stored at position `i`.
    pub fn value_at(&self, i: usize) -> (r: T)
        requires
            self.wf(),
            i < self.entries().len(),
        ensures
            r == self.entries()[i as int].1,
            r == self@[self.entries()[i as int].0],
    {
        proof {
            lemma_as_map_at(self.entries@, i as int);
        }
        self.entries[i].1
    }

    /// The value under `key`, where there is one.
    pub fn get(&self, key: &K) -> (r: Option<T>)
        requires
            self.wf(),
        ensures
            r == (if self@.contains_key(*key) {
                Some(self@[*key])
            } else {
                None
            }),
    {
        match self.find(key) {
            Some(i) => Some(self.value_at(i)),
            None => None,
        }
    }

    /// Replaces the value stored at position `i`.
    pub fn update_at(&mut self, i: usize, value: T)
        requires
            old(self).wf(),
            i < old(self).entries().len(),
        ensures
            final(self).wf(),
            final(self).entries() == old(self).entries().update(
                i as int,
                (old(self).entries()[i as int].0, value),
            ),
            final(self)@ == old(self)@.insert(old(self).entries()[i as int].0, value),
    {
        proof {
            lemma_as_map_update(self.entries@, i as int, value);
        }
        let key = self.entries[i].0;
        self.entries[i] = (key, value);
    }

    /// Adds an entry under a key that is not there yet.
    pub fn push_new(&mut self, key: K, value: T)
        requires
            old(self).wf(),
            !old(self)@.contains_key(key),
        ensures
            final(self).wf(),
            final(self).entries() == old(self).entries().push((key, value)),
            final(self)@ == old(self)@.insert(key, value),
    {
        proof {
            lemma_as_map_push(self.entries@, key, value);
        }
        self.entries.push((key, value));
    }

    /// Takes out the entry stored at position `i`.
    pub fn remove_at(&mut self, i: usize) -> (r: T)
        requires
            old(self).wf(),
            i < old(self).entries().len(),
        ensures
            final(self).wf(),
            r == old(self).entries()[i as int].1,
            final(self).entries() == old(self).entries().remove(i as int),
            final(self)@ == old(self)@.remove(old(self).entries()[i as int].0),
    {
        proof {
            lemma_as_map_remove(self.entries@, i as int);
        }
        let entry = self.entries.remove(i);
        entry.1
    }
}

} // verus!
