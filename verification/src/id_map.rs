//! What is kept for each of some numbered things.

use std::collections::HashMap;
use vstd::prelude::*;

verus! {

broadcast use vstd::std_specs::hash::group_hash_axioms;

/// A value for each of some numbers.
#[derive(Debug, PartialEq, Eq)]
pub struct IdMap<V> {
    pub values: HashMap<u64, V>,
}

impl<V> IdMap<V> {
    /// The value of a number, if it has one.
    pub open spec fn value_of(self, id: u64) -> Option<V> {
        if self.values@.contains_key(id) {
            Some(self.values@[id])
        } else {
            None
        }
    }

    /// Whether a list holds the numbers that have a value, each once.
    pub open spec fn is_listed(self, ids: Seq<u64>) -> bool {
        &&& ids.no_duplicates()
        &&& forall|id: u64| #[trigger] ids.contains(id) == self.value_of(id) is Some
    }

    /// No number has a value.
    pub fn new() -> (result: IdMap<V>)
        ensures
            result.values@ == Map::<u64, V>::empty(),
            forall|id: u64| result.value_of(id) is None,
    {
        IdMap { values: HashMap::new() }
    }

    /// The value of a number, if it has one.
    pub fn get(&self, id: u64) -> (result: Option<&V>)
        ensures
            match result {
                Some(value) => self.value_of(id) == Some(*value),
                None => self.value_of(id) is None,
            },
    {
        self.values.get(&id)
    }

    /// Takes out the value of a number.
    pub fn remove(&mut self, id: u64) -> (result: Option<V>)
        ensures
            result == old(self).value_of(id),
            final(self).values@ == old(self).values@.remove(id),
            forall|other: u64| #[trigger]
                final(self).value_of(other) == if other == id {
                    None
                } else {
                    old(self).value_of(other)
                },
    {
        self.values.remove(&id)
    }

    /// Gives a number a value, in place of any it had.
    pub fn insert(&mut self, id: u64, value: V)
        ensures
            final(self).values@ == old(self).values@.insert(id, value),
            forall|other: u64| #[trigger]
                final(self).value_of(other) == if other == id {
                    Some(value)
                } else {
                    old(self).value_of(other)
                },
    {
        self.values.insert(id, value);
    }

    /// The numbers that have a value, in any order.
    pub fn ids(&self) -> (result: Vec<u64>)
        ensures
            self.is_listed(result@),
    {
        let mut ids: Vec<u64> = Vec::new();
        for id in it: self.values.keys()
            invariant
                it.seq().unref().to_set() == self.values@.dom(),
                it.seq().no_duplicates(),
                ids@.len() == it.index(),
                forall|i: int| 0 <= i < ids@.len() ==> ids@[i] == *it.seq()[i],
                ids@.len() == it.seq().len() ==> ids@.to_set() == self.values@.dom(),
        {
            ids.push(*id);
            assert(ids@.len() == it.seq().len() ==> ids@ =~= it.seq().unref());
        }
        proof {
            assert forall|id: u64| #[trigger] ids@.contains(id) == self.value_of(id) is Some by {
                assert(ids@.to_set().contains(id) == self.values@.dom().contains(id));
            }
        }
        ids
    }
}

} // verus!
