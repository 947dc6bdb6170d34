//! A key/value map that keeps an exact count of its live entries.

use vstd::prelude::*;
use crate::keyed::{MapKey, MapValue};

verus! {

/// What a map reads at `key`: the stored value, or the value that stands for
/// a missing entry.
pub open spec fn value_at<K, V: MapValue>(m: Map<K, V>, key: K) -> V {
    if m.contains_key(key) {
        m[key]
    } else {
        V::absent()
    }
}

/// How many entries a store under `key` adds to `m`.
pub open spec fn added_count<K, V>(m: Map<K, V>, key: K) -> nat {
    if m.contains_key(key) {
        0
    } else {
        1
    }
}

/// How many entries a removal of `key` takes away from `m`.
pub open spec fn removed_count<K, V>(m: Map<K, V>, key: K) -> nat {
    if m.contains_key(key) {
        1
    } else {
        0
    }
}

/// A map from keys to values with a counter of the keys it holds.
pub struct _FileMap<K: MapKey, V: MapValue> {
    keys: Vec<K>,
    values: Vec<V>,
    length: u32,
}

impl<K: MapKey, V: MapValue> View for _FileMap<K, V> {
    type V = Map<K, V>;

    closed spec fn view(&self) -> Map<K, V> {
        Map::new(
            |k: K| self.keys@.contains(k),
            |k: K| self.values@[self.keys@.index_of(k)],
        )
    }
}

/// Where the element at `a` stood before the element at `at` was taken out.
spec fn shifted(a: int, at: int) -> int {
    if a < at {
        a
    } else {
        a + 1
    }
}

/// In a sequence without repetition, an element is found where it stands.
proof fn lemma_index_of<K>(keys: Seq<K>, i: int)
    requires
        keys.no_duplicates(),
        0 <= i < keys.len(),
    ensures
        keys.index_of(keys[i]) == i,
{
    let j = keys.index_of(keys[i]);
    assert(0 <= j < keys.len() && keys[j] == keys[i]);
}

impl<K: MapKey, V: MapValue> _FileMap<K, V> {
    /// The entries are stored pairwise and no key is stored twice.
    pub closed spec fn stored(&self) -> bool {
        &&& self.keys@.len() == self.values@.len()
        &&& self.keys@.len() == self.length
        &&& self.keys@.no_duplicates()
    }

    /// The counter, as contracts see it.
    pub closed spec fn count(&self) -> u32 {
        self.length
    }

    /// The validity of a map: its counter is the number of keys it holds.
    pub open spec fn wf(&self) -> bool {
        &&& self.stored()
        &&& self@.dom().finite()
        &&& self@.dom().len() == self.count()
    }

    /// An empty map, with a counter of zero.
    pub fn new() -> (r: Self)
        ensures
            r.wf(),
            r@ == Map::<K, V>::empty(),
            r.count() == 0,
    {
        let r = _FileMap { keys: Vec::new(), values: Vec::new(), length: 0 };
        assert(r@ =~= Map::<K, V>::empty());
        r
    }

    /// The number of keys that the map holds.
    pub fn length(&self) -> (r: u32)
        requires
            self.wf(),
        ensures
            r == self.count(),
            r == self@.dom().len(),
    {
        self.length
    }

    /// Where `key` is stored, if it is.
    fn position(&self, key: &K) -> (r: Option<usize>)
        requires
            self.stored(),
        ensures
            match r {
                Some(i) => i < self.keys@.len() && i < self.values@.len() && self.keys@[i as int]
                    == *key && self@.contains_key(*key) && self@[*key] == self.values@[i as int],
                None => !self@.contains_key(*key),
            },
    {
        let mut i: usize = 0;
        while i < self.keys.len()
            invariant
                self.stored(),
                i <= self.keys@.len(),
                forall|j: int| 0 <= j < i ==> self.keys@[j] != *key,
            decreases self.keys@.len() - i,
        {
            if self.keys[i].same_key(key) {
                proof {
                    lemma_index_of(self.keys@, i as int);
                }
                return Some(i);
            }
            i += 1;
        }
        None
    }

    /// The value stored under `key`, if there is one.
    pub fn _lookup(&self, key: &K) -> (r: Option<V>)
        requires
            self.wf(),
        ensures
            r == (if self@.contains_key(*key) {
                Some(self@[*key])
            } else {
                None
            }),
    {
        match self.position(key) {
            Some(i) => Some(self.values[i]),
            None => None,
        }
    }

    /// The value stored under `key`, or the value that stands for a missing
    /// entry.
    pub fn _get(&self, key: &K) -> (r: V)
        requires
            self.wf(),
        ensures
            r == value_at(self@, *key),
    {
        match self.position(key) {
            Some(i) => self.values[i],
            None => V::absent_value(),
        }
    }

    /// Stores `value` under `key`. The counter grows by one exactly when the
    /// key was not held before.
    pub fn _set(&mut self, key: K, value: V)
        requires
            old(self).wf(),
            old(self)@.contains_key(key) || old(self).count() < u32::MAX,
        ensures
            final(self).wf(),
            final(self)@ == old(self)@.insert(key, value),
            final(self).count() == old(self).count() + added_count(old(self)@, key),
    {
        match self.position(&key) {
            Some(i) => {
                self.values[i] = value;
                proof {
                    let keys = self.keys@;
                    let stored = old(self)@.insert(key, value);
                    assert forall|k: K| #[trigger] keys.contains(k) implies self@[k] == stored[k] by {
                        let j = keys.index_of(k);
                        assert(0 <= j < keys.len() && keys[j] == k);
                        lemma_index_of(keys, i as int);
                    }
                    assert(self@ =~= stored);
                }
            },
            None => {
                let ghost before = self.keys@;
                self.keys.push(key);
                self.values.push(value);
                self.length = self.length + 1;
                proof {
                    let keys = self.keys@;
                    let n = before.len() as int;
                    assert(keys.no_duplicates()) by {
                        assert forall|a: int, b: int|
                            0 <= a < keys.len() && 0 <= b < keys.len() && a != b implies keys[a]
                            != keys[b] by {
                            if a < n && b < n {
                                assert(before[a] != before[b]);
                            } else if a < n {
                                assert(before.contains(before[a]));
                            } else {
                                assert(before.contains(before[b]));
                            }
                        }
                    }
                    assert forall|k: K| keys.contains(k) <==> (before.contains(k) || k == key) by {
                        if before.contains(k) {
                            let j = before.index_of(k);
                            assert(0 <= j < n && before[j] == k);
                            assert(keys[j] == k);
                        }
                        if k == key {
                            assert(keys[n] == k);
                        }
                        if keys.contains(k) && k != key {
                            let j = keys.index_of(k);
                            assert(0 <= j < keys.len() && keys[j] == k);
                            assert(before[j] == k);
                        }
                    }
                    let stored = old(self)@.insert(key, value);
                    assert forall|k: K| #[trigger] keys.contains(k) implies self@[k] == stored[k] by {
                        if k == key {
                            lemma_index_of(keys, n);
                        } else {
                            let j = before.index_of(k);
                            assert(0 <= j < n && before[j] == k);
                            assert(keys[j] == k);
                            lemma_index_of(keys, j);
                        }
                    }
                    assert(self@ =~= stored);
                }
            },
        }
    }

    /// Drops the entry of `key`, if there is one. The counter shrinks by one
    /// exactly when an entry was dropped.
    pub fn _remove(&mut self, key: &K)
        requires
            old(self).wf(),
        ensures
            final(self).wf(),
            final(self)@ == old(self)@.remove(*key),
            final(self).count() == old(self).count() - removed_count(old(self)@, *key),
    {
        match self.position(key) {
            Some(i) => {
                let ghost before = self.keys@;
                let ghost values = self.values@;
                self.keys.remove(i);
                self.values.remove(i);
                self.length = self.length - 1;
                proof {
                    let keys = self.keys@;
                    let at = i as int;
                    assert forall|a: int| 0 <= a < keys.len() implies #[trigger] keys[a]
                        == before[shifted(a, at)] by {}
                    assert(keys.no_duplicates());
                    assert forall|k: K| keys.contains(k) <==> (before.contains(k) && k != *key) by {
                        if before.contains(k) && k != *key {
                            let j = before.index_of(k);
                            assert(0 <= j < before.len() && before[j] == k);
                            let a = if j < at {
                                j
                            } else {
                                j - 1
                            };
                            assert(keys[a] == k);
                        }
                        if keys.contains(k) {
                            let a = keys.index_of(k);
                            assert(0 <= a < keys.len() && keys[a] == k);
                            let j = shifted(a, at);
                            assert(before[j] == k);
                        }
                    }
                    let stored = old(self)@.remove(*key);
                    assert forall|k: K| #[trigger] keys.contains(k) implies self@[k] == stored[k] by {
                        let j = before.index_of(k);
                        assert(0 <= j < before.len() && before[j] == k);
                        let a = if j < at {
                            j
                        } else {
                            j - 1
                        };
                        assert(keys[a] == k);
                        lemma_index_of(keys, a);
                        assert(self.values@[a] == values[j]);
                    }
                    assert(self@ =~= stored);
                }
            },
            None => {
                assert(self@ =~= old(self)@.remove(*key));
            },
        }
    }
}

/// One change to a map: a store or a removal.
pub ghost enum MapOp<K, V> {
    Store(K, V),
    Drop(K),
}

/// The entries after one change.
pub open spec fn entries_after<K, V>(m: Map<K, V>, op: MapOp<K, V>) -> Map<K, V> {
    match op {
        MapOp::Store(key, value) => m.insert(key, value),
        MapOp::Drop(key) => m.remove(key),
    }
}

/// The counter after one change, by the rule that `_set` and `_remove`
/// follow: up by one for a new key, down by one for a key that was held.
pub open spec fn count_after<K, V>(m: Map<K, V>, count: int, op: MapOp<K, V>) -> int {
    match op {
        MapOp::Store(key, _) => count + added_count(m, key),
        MapOp::Drop(key) => count - removed_count(m, key),
    }
}

/// The entries of a fresh map after the changes `ops`, first to last.
pub open spec fn entries_after_all<K, V>(ops: Seq<MapOp<K, V>>) -> Map<K, V>
    decreases ops.len(),
{
    if ops.len() == 0 {
        Map::empty()
    } else {
        entries_after(entries_after_all(ops.drop_last()), ops.last())
    }
}

/// The counter of a fresh map after the changes `ops`, first to last.
pub open spec fn count_after_all<K, V>(ops: Seq<MapOp<K, V>>) -> int
    decreases ops.len(),
{
    if ops.len() == 0 {
        0
    } else {
        count_after(entries_after_all(ops.drop_last()), count_after_all(ops.drop_last()), ops.last())
    }
}

/// After any sequence of stores and removals on a fresh map, the counter is
/// the number of distinct keys that the map holds.
pub proof fn lemma_count_is_number_of_keys<K, V>(ops: Seq<MapOp<K, V>>)
    ensures
        entries_after_all(ops).dom().finite(),
        count_after_all(ops) == entries_after_all(ops).dom().len(),
    decreases ops.len(),
{
    if ops.len() > 0 {
        lemma_count_is_number_of_keys(ops.drop_last());
    }
}

/// A store under a key, followed by a read of that key, reads the value
/// that was stored.
pub proof fn lemma_set_then_get<K, V: MapValue>(m: Map<K, V>, key: K, value: V)
    ensures
        value_at(m.insert(key, value), key) == value,
{
}

/// A removal of a key, followed by a read of that key, reads the value that
/// stands for a missing entry; and the number of keys goes down by one if the
/// key was held, and stays as it was if not.
pub proof fn lemma_remove_then_get<K, V: MapValue>(m: Map<K, V>, key: K)
    requires
        m.dom().finite(),
    ensures
        value_at(m.remove(key), key) == V::absent(),
        m.remove(key).dom().len() == m.dom().len() - removed_count(m, key),
{
}

} // verus!
