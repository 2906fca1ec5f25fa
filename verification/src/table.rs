//! A table of values under integer keys.

use std::collections::HashMap;
use vstd::prelude::*;

verus! {

/// Values, each under its key.
pub struct Table<V> {
    map: HashMap<u64, V>,
}

impl<V> View for Table<V> {
    type V = Map<u64, V>;

    closed spec fn view(&self) -> Map<u64, V> {
        self.map@
    }
}

impl<V> Table<V> {
    /// An empty table.
    pub fn new() -> (table: Table<V>)
        ensures
            table@ == Map::<u64, V>::empty(),
    {
        Table { map: HashMap::new() }
    }

    /// The number of keys.
    pub fn len(&self) -> (n: usize)
        ensures
            n == self@.dom().len(),
            self@.dom().finite(),
    {
        broadcast use vstd::std_specs::hash::group_hash_axioms;

        self.map.len()
    }

    /// Whether there is no key.
    pub fn is_empty(&self) -> (res: bool)
        ensures
            res == (self@ == Map::<u64, V>::empty()),
    {
        let res: bool = self.len() == 0;
        proof {
            if res {
                self@.dom().lemma_len0_is_empty();
                assert(self@ =~= Map::<u64, V>::empty());
            } else {
                assert(self@.dom() != Set::<u64>::empty());
            }
        }
        res
    }

    /// The value under a key.
    pub fn get(&self, key: u64) -> (res: Option<&V>)
        ensures
            match res {
                Some(value) => self@.contains_key(key) && self@[key] == *value,
                None => !self@.contains_key(key),
            },
    {
        broadcast use vstd::std_specs::hash::group_hash_axioms;

        self.map.get(&key)
    }

    /// Whether there is a value under a key.
    pub fn contains(&self, key: u64) -> (res: bool)
        ensures
            res == self@.contains_key(key),
    {
        broadcast use vstd::std_specs::hash::group_hash_axioms;

        self.map.contains_key(&key)
    }

    /// Puts a value under a key.
    pub fn insert(&mut self, key: u64, value: V)
        ensures
            final(self)@ == old(self)@.insert(key, value),
    {
        broadcast use vstd::std_specs::hash::group_hash_axioms;

        let _ = self.map.insert(key, value);
    }

    /// Takes the value under a key out of the table.
    pub fn remove(&mut self, key: u64) -> (res: Option<V>)
        ensures
            final(self)@ == old(self)@.remove(key),
            match res {
                Some(value) => old(self)@.contains_key(key) && old(self)@[key] == value,
                None => !old(self)@.contains_key(key),
            },
    {
        broadcast use vstd::std_specs::hash::group_hash_axioms;

        let res: Option<V> = self.map.remove(&key);
        assert(self@ =~= old(self)@.remove(key));
        res
    }

    /// All keys, each once, in any order.
    pub fn keys(&self) -> (list: Vec<u64>)
        ensures
            list@.no_duplicates(),
            forall|key: u64| #[trigger] list@.contains(key) <==> self@.contains_key(key),
            list@.len() == self@.dom().len(),
    {
        broadcast use vstd::std_specs::hash::group_hash_axioms;

        let ghost all = vstd::std_specs::iter::IteratorSpec::remaining(
            &vstd::std_specs::hash::spec_keys_iter(&self.map),
        );
        let mut list: Vec<u64> = Vec::new();
        for key in iter: self.map.keys()
            invariant
                iter.seq() == all,
                list@ =~= all.take(iter.index() as int).unref(),
        {
            list.push(*key);
        }
        assert(list@ =~= all.unref());
        assert forall|key: u64| #[trigger] list@.contains(key) <==> self@.contains_key(key) by {
            assert(list@.to_set().contains(key) <==> list@.contains(key));
        }
        list
    }
}

} // verus!
