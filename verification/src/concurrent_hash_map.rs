use vstd::prelude::*;
use vstd::std_specs::hash::obeys_key_model;
use std::collections::HashMap;
use std::hash::Hash;

verus! {

/// A table from keys to values, to be shared behind one lock: every method
/// is one step on the table, and the contracts say what each step does to
/// it.
pub struct ConcurrentHashMap<K, V> {
    hash_map: HashMap<K, V>,
}

impl<K, V> View for ConcurrentHashMap<K, V> {
    type V = Map<K, V>;

    closed spec fn view(&self) -> Map<K, V> {
        self.hash_map@
    }
}

impl<K, V> ConcurrentHashMap<K, V> where K: Eq + Hash + Clone, V: Clone {
    /// A table that holds nothing.
    pub fn new() -> (table: Self)
        ensures
            table@ == Map::<K, V>::empty(),
    {
        Self { hash_map: HashMap::new() }
    }

    /// Whether the table has a value under a key.
    pub fn contains(&self, key: &K) -> (found: bool)
        requires
            obeys_key_model::<K>(),
        ensures
            found == self@.contains_key(*key),
    {
        self.hash_map.contains_key(key)
    }

    /// Whether the table holds nothing.
    pub fn is_empty(&self) -> (empty: bool)
        ensures
            empty == (self@ == Map::<K, V>::empty()),
    {
        let empty = self.hash_map.is_empty();
        proof {
            if empty {
                assert(self@ =~= Map::<K, V>::empty());
            }
        }
        empty
    }

    /// Puts a value under a key, in place of the one that was there.
    pub fn insert(&mut self, key: K, value: V)
        requires
            obeys_key_model::<K>(),
        ensures
            final(self)@ == old(self)@.insert(key, value),
    {
        self.hash_map.insert(key, value);
    }

    /// Takes a key out; a key that is not there is left alone.
    pub fn delete(&mut self, key: &K)
        requires
            obeys_key_model::<K>(),
        ensures
            final(self)@ == old(self)@.remove(*key),
    {
        self.hash_map.remove(key);
    }

    /// A second table with the entries of this one.
    pub fn clone_ref(&self) -> (other: Self)
        ensures
            other@ == self@,
    {
        Self { hash_map: self.hash_map.clone() }
    }

    /// A copy of the value under a key.
    pub fn get(&self, key: &K) -> (value: Option<V>)
        requires
            obeys_key_model::<K>(),
        ensures
            match value {
                Some(v) => self@.contains_key(*key) && cloned(self@[*key], v),
                None => !self@.contains_key(*key),
            },
    {
        match self.hash_map.get(key) {
            Some(v) => Some(v.clone()),
            None => None,
        }
    }
}

} // verus!
