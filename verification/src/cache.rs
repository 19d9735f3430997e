//! Caches: one that holds at most one value, and one keyed by a key.
//!
//! A cache is a plain value with one owner. Whoever shares one between
//! threads puts it behind a lock of their own.
//!
//! The keyed cache keeps its entries in a list and finds a key by comparing
//! views. Its keys are strings as a rule, and of a hash table keyed by
//! strings nothing can be proved: vstd has no model of how they hash.

use vstd::prelude::*;

verus! {

/// A key of a [`MapCache`]: two keys are the same key exactly when their
/// views are equal.
pub trait CacheKey: View + Sized {
    /// Whether `self` and `other` are the same key.
    fn same_key(&self, other: &Self) -> (same: bool)
        ensures
            same == (self@ == other@),
    ;
}

impl CacheKey for String {
    fn same_key(&self, other: &Self) -> (same: bool) {
        *self == *other
    }
}

/// Cached value: nothing, or one value.
#[derive(Debug)]
pub struct ValueCache<T> {
    value: Option<T>,
}

impl<T> View for ValueCache<T> {
    type V = Option<T>;

    closed spec fn view(&self) -> Option<T> {
        self.value
    }
}

impl<T> Default for ValueCache<T> {
    /// An empty cache.
    fn default() -> (cache: ValueCache<T>)
        ensures
            cache@ is None,
    {
        ValueCache { value: None }
    }
}

impl<T> ValueCache<T> {
    /// Ensure that the cached value is valid.
    ///
    /// Returns `true` if the value exists and passes the check.
    pub fn validate<F>(&self, check: F) -> (valid: bool) where F: FnOnce(&T) -> bool
        requires
            self@ matches Some(value) ==> call_requires(check, (&value,)),
        ensures
            match self@ {
                Some(value) => call_ensures(check, (&value,), valid),
                None => !valid,
            },
    {
        match &self.value {
            Some(value) => check(value),
            None => false,
        }
    }

    /// Extract a part of the value: what `filter` makes of it, or `None`
    /// where nothing is cached.
    pub fn extract<F, R>(&self, filter: F) -> (part: Option<R>) where F: FnOnce(&T) -> R
        requires
            self@ matches Some(value) ==> call_requires(filter, (&value,)),
        ensures
            match self@ {
                Some(value) => part matches Some(r) && call_ensures(filter, (&value,), r),
                None => part is None,
            },
    {
        match &self.value {
            Some(value) => Some(filter(value)),
            None => None,
        }
    }

    /// Set a new value, whatever was cached before.
    pub fn set(&mut self, value: T)
        ensures
            final(self)@ == Some(value),
    {
        self.value = Some(value);
    }
}

/// Cached map of values: at most one value under each key.
#[derive(Debug)]
pub struct MapCache<K: CacheKey, V> {
    entries: Vec<(K, V)>,
}

/// Whether no key stands twice among `entries`.
pub open spec fn distinct_keys<K: CacheKey, V>(entries: Seq<(K, V)>) -> bool {
    forall|i: int, j: int|
        0 <= i < j < entries.len() ==> (#[trigger] entries[i]).0@ != (#[trigger] entries[j]).0@
}

/// Whether `entries` holds `key` at `index`.
pub open spec fn holds_at<K: CacheKey, V>(entries: Seq<(K, V)>, key: K::V, index: int) -> bool {
    0 <= index < entries.len() && entries[index].0@ == key
}

/// The map that `entries` stand for.
pub open spec fn entries_map<K: CacheKey, V>(entries: Seq<(K, V)>) -> Map<K::V, V> {
    Map::new(
        |key: K::V| exists|index: int| holds_at(entries, key, index),
        |key: K::V| entries[choose|index: int| holds_at(entries, key, index)].1,
    )
}

impl<K: CacheKey, V> View for MapCache<K, V> {
    type V = Map<K::V, V>;

    closed spec fn view(&self) -> Map<K::V, V> {
        entries_map(self.entries@)
    }
}

impl<K: CacheKey, V> Default for MapCache<K, V> {
    /// An empty cache.
    fn default() -> (cache: MapCache<K, V>)
        ensures
            cache@ == Map::<K::V, V>::empty(),
    {
        let cache = MapCache { entries: Vec::new() };
        assert(cache@ =~= Map::<K::V, V>::empty());
        cache
    }
}

impl<K: CacheKey, V> MapCache<K, V> {
    #[verifier::type_invariant]
    spec fn well_formed(&self) -> bool {
        distinct_keys(self.entries@)
    }

    /// Where `key` stands among the entries.
    fn position(&self, key: &K) -> (found: Option<usize>)
        ensures
            match found {
                Some(index) => holds_at(self.entries@, key@, index as int),
                None => forall|index: int| !holds_at(self.entries@, key@, index),
            },
    {
        let mut index: usize = 0;
        while index < self.entries.len()
            invariant
                index <= self.entries.len(),
                forall|seen: int| 0 <= seen < index ==> !holds_at(self.entries@, key@, seen),
            decreases self.entries.len() - index,
        {
            if self.entries[index].0.same_key(key) {
                return Some(index);
            }
            index = index + 1;
        }
        None
    }

    /// Extract a part of the value under `key`: what `filter` makes of it,
    /// or `None` where nothing is cached under `key`.
    pub fn extract<F, R>(&self, key: &K, filter: F) -> (part: Option<R>) where F: FnOnce(&V) -> R
        requires
            self@.contains_key(key@) ==> call_requires(filter, (&self@[key@],)),
        ensures
            match part {
                Some(r) => self@.contains_key(key@) && call_ensures(filter, (&self@[key@],), r),
                None => !self@.contains_key(key@),
            },
    {
        proof {
            use_type_invariant(self);
        }
        match self.position(key) {
            Some(index) => {
                proof {
                    lemma_entry_is_mapped(self.entries@, index as int);
                }
                Some(filter(&self.entries[index].1))
            },
            None => None,
        }
    }

    /// The value under `key`, if one is cached.
    pub fn get(&self, key: &K) -> (value: Option<&V>)
        ensures
            match value {
                Some(v) => self@.contains_key(key@) && *v == self@[key@],
                None => !self@.contains_key(key@),
            },
    {
        proof {
            use_type_invariant(self);
        }
        match self.position(key) {
            Some(index) => {
                proof {
                    lemma_entry_is_mapped(self.entries@, index as int);
                }
                Some(&self.entries[index].1)
            },
            None => None,
        }
    }

    /// Whether a value is set under `key`.
    pub fn is_set(&self, key: &K) -> (set: bool)
        ensures
            set == self@.contains_key(key@),
    {
        self.position(key).is_some()
    }

    /// Set a new value under `key`, in place of the one cached under it
    /// before, if any. Every other key keeps its value.
    pub fn set(&mut self, key: K, value: V)
        ensures
            final(self)@ == old(self)@.insert(key@, value),
    {
        proof {
            use_type_invariant(&*self);
        }
        let found = self.position(&key);
        let mut entries: Vec<(K, V)> = Vec::new();
        core::mem::swap(&mut self.entries, &mut entries);
        let ghost before = entries@;
        match found {
            Some(index) => {
                entries[index] = (key, value);
                proof {
                    lemma_replaced(before, index as int, key, value);
                }
            },
            None => {
                entries.push((key, value));
                proof {
                    lemma_pushed(before, key, value);
                }
            },
        }
        self.entries = entries;
    }
}

/// With distinct keys, the entry at `index` is what the map holds under its
/// key.
pub proof fn lemma_entry_is_mapped<K: CacheKey, V>(entries: Seq<(K, V)>, index: int)
    requires
        distinct_keys(entries),
        0 <= index < entries.len(),
    ensures
        entries_map(entries).contains_key(entries[index].0@),
        entries_map(entries)[entries[index].0@] == entries[index].1,
{
    let key = entries[index].0@;
    assert(holds_at(entries, key, index));
    let chosen = choose|at: int| holds_at(entries, key, at);
    assert(holds_at(entries, key, chosen));
    if chosen < index {
        assert(entries[chosen].0@ != entries[index].0@);
    } else if index < chosen {
        assert(entries[index].0@ != entries[chosen].0@);
    }
}

/// Replacing the entry that holds `key` is an insertion into the map.
proof fn lemma_replaced<K: CacheKey, V>(entries: Seq<(K, V)>, index: int, key: K, value: V)
    requires
        distinct_keys(entries),
        holds_at(entries, key@, index),
    ensures
        distinct_keys(entries.update(index, (key, value))),
        entries_map(entries.update(index, (key, value))) == entries_map(entries).insert(
            key@,
            value,
        ),
{
    let after = entries.update(index, (key, value));
    assert forall|i: int, j: int| 0 <= i < j < after.len() implies (#[trigger] after[i]).0@ != (
    #[trigger] after[j]).0@ by {
        assert(entries[i].0@ != entries[j].0@);
    }
    let left = entries_map(after);
    let right = entries_map(entries).insert(key@, value);
    assert forall|k: K::V| left.contains_key(k) <==> right.contains_key(k) by {
        if left.contains_key(k) {
            let at = choose|at: int| holds_at(after, k, at);
            assert(holds_at(entries, k, at));
        }
        if right.contains_key(k) {
            if k == key@ {
                assert(holds_at(after, k, index));
            } else {
                let at = choose|at: int| holds_at(entries, k, at);
                assert(holds_at(after, k, at));
            }
        }
    }
    assert forall|k: K::V| left.contains_key(k) implies left[k] == right[k] by {
        let at = choose|at: int| holds_at(after, k, at);
        assert(holds_at(after, k, at));
        lemma_entry_is_mapped(after, at);
        if at != index {
            lemma_entry_is_mapped(entries, at);
        }
    }
    assert(left =~= right);
}

/// Appending an entry under a key that none holds is an insertion into the
/// map.
proof fn lemma_pushed<K: CacheKey, V>(entries: Seq<(K, V)>, key: K, value: V)
    requires
        distinct_keys(entries),
        forall|index: int| !holds_at(entries, key@, index),
    ensures
        distinct_keys(entries.push((key, value))),
        entries_map(entries.push((key, value))) == entries_map(entries).insert(key@, value),
{
    let after = entries.push((key, value));
    let last = entries.len() as int;
    assert forall|i: int, j: int| 0 <= i < j < after.len() implies (#[trigger] after[i]).0@ != (
    #[trigger] after[j]).0@ by {
        if j == last {
            assert(!holds_at(entries, key@, i));
        } else {
            assert(entries[i].0@ != entries[j].0@);
        }
    }
    let left = entries_map(after);
    let right = entries_map(entries).insert(key@, value);
    assert forall|k: K::V| left.contains_key(k) <==> right.contains_key(k) by {
        if left.contains_key(k) {
            let at = choose|at: int| holds_at(after, k, at);
            if at != last {
                assert(holds_at(entries, k, at));
            }
        }
        if right.contains_key(k) {
            if k == key@ {
                assert(holds_at(after, k, last));
            } else {
                let at = choose|at: int| holds_at(entries, k, at);
                assert(holds_at(after, k, at));
            }
        }
    }
    assert forall|k: K::V| left.contains_key(k) implies left[k] == right[k] by {
        let at = choose|at: int| holds_at(after, k, at);
        assert(holds_at(after, k, at));
        lemma_entry_is_mapped(after, at);
        if at != last {
            lemma_entry_is_mapped(entries, at);
        }
    }
    assert(left =~= right);
}

} // verus!
