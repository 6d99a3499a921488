//! The kernel-side hash maps of the probes: a key/value table created
//! with a fixed maximum number of entries. Updating a present key always
//! succeeds; adding a new key fails once the table is full.

use std::collections::HashMap;
use std::hash::Hash;

use vstd::prelude::*;
use vstd::std_specs::hash::obeys_key_model;

verus! {

broadcast use vstd::std_specs::hash::group_hash_axioms;

/// A bounded hash map with the update semantics of a kernel
/// `BPF_MAP_TYPE_HASH` map.
pub struct BpfHashMap<K, V> {
    entries: HashMap<K, V>,
    max_entries: usize,
}

impl<K, V> BpfHashMap<K, V> {
    /// Never more entries than the table was created for.
    #[verifier::type_invariant]
    spec fn within_capacity(self) -> bool {
        self.entries@.len() <= self.max_entries
    }
}

impl<K: Copy + Eq + Hash, V: Copy> BpfHashMap<K, V> {
    /// The key/value pairs held.
    pub closed spec fn contents(&self) -> Map<K, V> {
        self.entries@
    }

    /// The number of entries the table was created for.
    pub closed spec fn capacity(&self) -> nat {
        self.max_entries as nat
    }

    /// The table after an insert of `k -> v` attempted on `self`: updated
    /// when `k` is present or there is room, unchanged otherwise.
    pub open spec fn after_insert(&self, k: K, v: V) -> Map<K, V> {
        if self.contents().contains_key(k) || self.contents().len() < self.capacity() {
            self.contents().insert(k, v)
        } else {
            self.contents()
        }
    }

    /// An empty table holding at most `max_entries` entries.
    pub fn with_max_entries(max_entries: usize) -> (m: Self)
        ensures
            m.contents() == Map::<K, V>::empty(),
            m.capacity() == max_entries,
            m.contents().dom().finite(),
    {
        BpfHashMap { entries: HashMap::new(), max_entries }
    }

    /// The value stored under `k`.
    pub fn get(&self, k: K) -> (r: Option<V>)
        requires
            obeys_key_model::<K>(),
        ensures
            r == (if self.contents().contains_key(k) {
                Some(self.contents()[k])
            } else {
                None
            }),
            self.contents().dom().finite(),
            self.contents().len() <= self.capacity(),
    {
        proof {
            use_type_invariant(self);
        }
        match self.entries.get(&k) {
            Some(v) => Some(*v),
            None => None,
        }
    }

    /// Number of entries held.
    pub fn len(&self) -> (n: usize)
        requires
            obeys_key_model::<K>(),
        ensures
            n == self.contents().len(),
            self.contents().dom().finite(),
            n <= self.capacity(),
    {
        proof {
            use_type_invariant(self);
        }
        self.entries.len()
    }

    /// Store `v` under `k`. Fails, leaving the table unchanged, when `k`
    /// is absent and the table is full.
    pub fn insert(&mut self, k: K, v: V) -> (ok: bool)
        requires
            obeys_key_model::<K>(),
        ensures
            ok == (old(self).contents().contains_key(k) || old(self).contents().len()
                < old(self).capacity()),
            final(self).contents() == old(self).after_insert(k, v),
            final(self).capacity() == old(self).capacity(),
            old(self).contents().dom().finite(),
            final(self).contents().dom().finite(),
            final(self).contents().len() <= final(self).capacity(),
    {
        proof {
            use_type_invariant(&*self);
        }
        if self.entries.contains_key(&k) || self.entries.len() < self.max_entries {
            let mut entries: HashMap<K, V> = HashMap::new();
            std::mem::swap(&mut entries, &mut self.entries);
            entries.insert(k, v);
            self.entries = entries;
            true
        } else {
            false
        }
    }

    /// Remove the entry under `k`, if any.
    pub fn remove(&mut self, k: K)
        requires
            obeys_key_model::<K>(),
        ensures
            final(self).contents() == old(self).contents().remove(k),
            final(self).capacity() == old(self).capacity(),
            old(self).contents().dom().finite(),
            final(self).contents().dom().finite(),
            final(self).contents().len() == if old(self).contents().contains_key(k) {
                old(self).contents().len() - 1
            } else {
                old(self).contents().len() as int
            },
    {
        proof {
            use_type_invariant(&*self);
            if self.entries@.contains_key(k) {
                assert(self.entries@.remove(k).len() == self.entries@.len() - 1);
            } else {
                assert(self.entries@.remove(k) =~= self.entries@);
            }
        }
        let mut entries: HashMap<K, V> = HashMap::new();
        std::mem::swap(&mut entries, &mut self.entries);
        entries.remove(&k);
        self.entries = entries;
    }
}

} // verus!
