//! A keyed table of contract state entries: one value per key, viewed as a map.
use vstd::prelude::*;

use crate::types::{AccountId, AssetId};

verus! {

/// A key of a keyed table, with an equality test that agrees with `==`.
pub trait StoreKey: Copy + Sized {
    fn same_key(&self, other: &Self) -> (r: bool)
        ensures
            r == (*self == *other),
    ;
}

impl StoreKey for u64 {
    fn same_key(&self, other: &Self) -> (r: bool) {
        *self == *other
    }
}

impl StoreKey for u32 {
    fn same_key(&self, other: &Self) -> (r: bool) {
        *self == *other
    }
}

/// The key of a node's stake in one asset's feed.
#[derive(Copy, Clone, Debug, PartialEq, Eq, Structural)]
pub struct FeedKey {
    pub node: AccountId,
    pub asset: AssetId,
}

impl StoreKey for FeedKey {
    fn same_key(&self, other: &Self) -> (r: bool) {
        self.node == other.node && self.asset == other.asset
    }
}

/// The map that a list of entries stands for (later entries win).
pub open spec fn map_of<K, V>(entries: Seq<(K, V)>) -> Map<K, V>
    decreases entries.len(),
{
    if entries.len() == 0 {
        Map::empty()
    } else {
        map_of(entries.drop_last()).insert(entries.last().0, entries.last().1)
    }
}

/// No key occurs twice among the entries.
pub open spec fn keys_distinct<K, V>(entries: Seq<(K, V)>) -> bool {
    forall|i: int, j: int| 0 <= i < j < entries.len() ==> #[trigger] entries[i].0 != #[trigger] entries[j].0
}

proof fn lemma_map_of_has<K, V>(entries: Seq<(K, V)>, k: K)
    ensures
        map_of(entries).contains_key(k) <==> exists|i: int| 0 <= i < entries.len() && #[trigger] entries[i].0 == k,
    decreases entries.len(),
{
    if entries.len() > 0 {
        lemma_map_of_has(entries.drop_last(), k);
        if exists|i: int| 0 <= i < entries.drop_last().len() && #[trigger] entries.drop_last()[i].0 == k {
            let i = choose|i: int| 0 <= i < entries.drop_last().len() && #[trigger] entries.drop_last()[i].0 == k;
            assert(entries[i].0 == k);
        }
        if exists|i: int| 0 <= i < entries.len() && #[trigger] entries[i].0 == k {
            let i = choose|i: int| 0 <= i < entries.len() && #[trigger] entries[i].0 == k;
            if i < entries.len() - 1 {
                assert(entries.drop_last()[i].0 == k);
            }
        }
    }
}

proof fn lemma_map_of_value<K, V>(entries: Seq<(K, V)>, i: int)
    requires
        0 <= i < entries.len(),
        keys_distinct(entries),
    ensures
        map_of(entries).contains_key(entries[i].0),
        map_of(entries)[entries[i].0] == entries[i].1,
    decreases entries.len(),
{
    if i < entries.len() - 1 {
        lemma_map_of_value(entries.drop_last(), i);
        assert(entries.drop_last()[i] == entries[i]);
        assert(entries[i].0 != entries[entries.len() - 1].0);
    }
}

proof fn lemma_map_of_update<K, V>(entries: Seq<(K, V)>, i: int, v: V)
    requires
        0 <= i < entries.len(),
        keys_distinct(entries),
    ensures
        map_of(entries.update(i, (entries[i].0, v))) == map_of(entries).insert(entries[i].0, v),
    decreases entries.len(),
{
    let u = entries.update(i, (entries[i].0, v));
    if i == entries.len() - 1 {
        assert(u.drop_last() =~= entries.drop_last());
        assert(map_of(u) =~= map_of(entries).insert(entries[i].0, v));
    } else {
        assert(u.drop_last() =~= entries.drop_last().update(i, (entries[i].0, v)));
        lemma_map_of_update(entries.drop_last(), i, v);
        assert(entries[i].0 != entries.last().0) by {
            assert(entries[i].0 != entries[entries.len() - 1].0);
        }
        assert(map_of(u) =~= map_of(entries).insert(entries[i].0, v));
    }
}

proof fn lemma_map_of_remove<K, V>(entries: Seq<(K, V)>, i: int)
    requires
        0 <= i < entries.len(),
        keys_distinct(entries),
    ensures
        map_of(entries.remove(i)) == map_of(entries).remove(entries[i].0),
    decreases entries.len(),
{
    let k = entries[i].0;
    let r = entries.remove(i);
    if i == entries.len() - 1 {
        assert(r =~= entries.drop_last());
        assert forall|j: int| 0 <= j < r.len() implies r[j].0 != k by {
            assert(entries[j].0 != entries[i].0);
        }
        lemma_map_of_has(r, k);
        assert(map_of(r) =~= map_of(entries).remove(k));
    } else {
        assert(r.drop_last() =~= entries.drop_last().remove(i));
        assert(r.last() == entries.last());
        lemma_map_of_remove(entries.drop_last(), i);
        assert(entries[i].0 != entries.last().0) by {
            assert(entries[i].0 != entries[entries.len() - 1].0);
        }
        assert(map_of(r) =~= map_of(entries).remove(k));
    }
}

/// A table with one value per key.
pub struct KeyedStore<K, V> {
    entries: Vec<(K, V)>,
}

impl<K: StoreKey, V: Copy> View for KeyedStore<K, V> {
    type V = Map<K, V>;

    closed spec fn view(&self) -> Map<K, V> {
        map_of(self.entries@)
    }
}

impl<K: StoreKey, V: Copy> KeyedStore<K, V> {
    /// The table's bookkeeping: no key occurs twice.
    pub closed spec fn wf(&self) -> bool {
        keys_distinct(self.entries@)
    }

    /// An empty table.
    pub fn new() -> (s: Self)
        ensures
            s.wf(),
            s@ == Map::<K, V>::empty(),
    {
        KeyedStore { entries: Vec::new() }
    }

    fn position(&self, key: &K) -> (r: Option<usize>)
        requires
            self.wf(),
        ensures
            r matches Some(i) ==> i < self.entries@.len() && self.entries@[i as int].0 == *key,
            r is None ==> !self@.contains_key(*key),
    {
        let mut i: usize = 0;
        while i < self.entries.len()
            invariant
                i <= self.entries@.len(),
                forall|j: int| 0 <= j < i ==> #[trigger] self.entries@[j].0 != *key,
            decreases self.entries@.len() - i,
        {
            if self.entries[i].0.same_key(key) {
                return Some(i);
            }
            i = i + 1;
        }
        proof { lemma_map_of_has(self.entries@, *key); }
        None
    }

    /// The value under `key`, if any.
    pub fn get(&self, key: &K) -> (r: Option<V>)
        requires
            self.wf(),
        ensures
            r == (if self@.contains_key(*key) { Some(self@[*key]) } else { None }),
    {
        match self.position(key) {
            Some(i) => {
                proof { lemma_map_of_value(self.entries@, i as int); }
                Some(self.entries[i].1)
            },
            None => None,
        }
    }

    /// Whether `key` has a value.
    pub fn contains(&self, key: &K) -> (r: bool)
        requires
            self.wf(),
        ensures
            r == self@.contains_key(*key),
    {
        match self.position(key) {
            Some(i) => {
                proof { lemma_map_of_value(self.entries@, i as int); }
                true
            },
            None => false,
        }
    }

    /// Store `value` under `key`.
    pub fn set(&mut self, key: K, value: V)
        requires
            old(self).wf(),
        ensures
            final(self).wf(),
            final(self)@ == old(self)@.insert(key, value),
    {
        match self.position(&key) {
            Some(i) => {
                let ghost before = self.entries@;
                self.entries.set(i, (key, value));
                proof {
                    assert(self.entries@ == before.update(i as int, (before[i as int].0, value)));
                    lemma_map_of_update(before, i as int, value);
                    assert forall|a: int, b: int| 0 <= a < b < self.entries@.len() implies #[trigger] self.entries@[a].0
                        != #[trigger] self.entries@[b].0 by {
                        assert(before[a].0 != before[b].0);
                    }
                }
            },
            None => {
                let ghost before = self.entries@;
                self.entries.push((key, value));
                proof {
                    assert(self.entries@.drop_last() =~= before);
                    lemma_map_of_has(before, key);
                    assert forall|a: int, b: int| 0 <= a < b < self.entries@.len() implies #[trigger] self.entries@[a].0
                        != #[trigger] self.entries@[b].0 by {
                        if b == before.len() {
                            assert(self.entries@[a] == before[a]);
                        } else {
                            assert(before[a].0 != before[b].0);
                        }
                    }
                }
            },
        }
    }

    /// Drop the value under `key`, if any.
    pub fn remove(&mut self, key: &K)
        requires
            old(self).wf(),
        ensures
            final(self).wf(),
            final(self)@ == old(self)@.remove(*key),
    {
        match self.position(key) {
            Some(i) => {
                let ghost before = self.entries@;
                self.entries.remove(i);
                proof {
                    lemma_map_of_remove(before, i as int);
                    assert forall|a: int, b: int| 0 <= a < b < self.entries@.len() implies #[trigger] self.entries@[a].0
                        != #[trigger] self.entries@[b].0 by {
                        let a0 = if a < i { a } else { a + 1 };
                        let b0 = if b < i { b } else { b + 1 };
                        assert(self.entries@[a] == before[a0]);
                        assert(self.entries@[b] == before[b0]);
                        assert(before[a0].0 != before[b0].0);
                    }
                }
            },
            None => {
                assert(self@.remove(*key) =~= self@);
            },
        }
    }
}


impl<K: StoreKey, V: Copy> KeyedStore<K, V> {
    /// The table holding `entries`, a later entry for a key replacing an earlier one.
    pub fn from_entries(entries: Vec<(K, V)>) -> (s: Self)
        ensures
            s.wf(),
            s@ == map_of(entries@),
    {
        let mut s = KeyedStore::new();
        let n = entries.len();
        let mut i: usize = 0;
        while i < n
            invariant
                n == entries@.len(),
                i <= n,
                s.wf(),
                s@ == map_of(entries@.subrange(0, i as int)),
            decreases n - i,
        {
            let (k, v) = entries[i];
            s.set(k, v);
            assert(entries@.subrange(0, i + 1).drop_last() =~= entries@.subrange(0, i as int));
            i = i + 1;
        }
        assert(entries@.subrange(0, n as int) =~= entries@);
        s
    }

    /// The table's entries, one per key.
    pub fn into_entries(self) -> (entries: Vec<(K, V)>)
        ensures
            map_of(entries@) == self@,
    {
        self.entries
    }
}

} // verus!
