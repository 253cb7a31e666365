use vstd::prelude::*;

use std::collections::HashMap;
use std::hash::Hash;

verus! {

broadcast use vstd::std_specs::hash::group_hash_axioms;

/// A key of an `IdMap`: an integer id, which std's hash map keys as vstd
/// models it.
pub trait MapKey: Copy + Eq + Hash + Sized {
    /// The key type obeys the hash-table key model of vstd.
    proof fn lemma_key_model()
        ensures
            vstd::std_specs::hash::obeys_key_model::<Self>(),
    ;
}

impl MapKey for u32 {
    proof fn lemma_key_model() {
        broadcast use vstd::std_specs::hash::axiom_u32_obeys_hash_table_key_model;

    }
}

impl MapKey for u128 {
    proof fn lemma_key_model() {
        broadcast use vstd::std_specs::hash::axiom_u128_obeys_hash_table_key_model;

    }
}

/// A map from integer ids to values, held in std's `HashMap`.
pub struct IdMap<K, V> {
    map: HashMap<K, V>,
}

impl<K, V> View for IdMap<K, V> {
    type V = Map<K, V>;

    closed spec fn view(&self) -> Map<K, V> {
        self.map@
    }
}

impl<K: MapKey, V> IdMap<K, V> {
    pub fn new() -> (l: Self)
        ensures
            l@ == Map::<K, V>::empty(),
    {
        IdMap { map: HashMap::new() }
    }

    /// Stores `value` under `key`, replacing any earlier value.
    pub fn insert(&mut self, key: K, value: V)
        ensures
            final(self)@ == old(self)@.insert(key, value),
    {
        proof {
            K::lemma_key_model();
        }
        let _ = self.map.insert(key, value);
    }

    /// Forgets every entry.
    pub fn clear(&mut self)
        ensures
            final(self)@ == Map::<K, V>::empty(),
    {
        self.map.clear();
    }

    /// Whether `key` has a value.
    pub fn contains(&self, key: K) -> (r: bool)
        ensures
            r == self@.contains_key(key),
    {
        proof {
            K::lemma_key_model();
        }
        self.map.contains_key(&key)
    }

    /// The value of `key`, if any.
    pub fn get(&self, key: K) -> (r: Option<&V>)
        ensures
            r is Some <==> self@.contains_key(key),
            r matches Some(v) ==> *v == self@[key],
    {
        proof {
            K::lemma_key_model();
        }
        self.map.get(&key)
    }

    /// Replaces the value of a present `key` and returns the value it had.
    pub fn replace_with(&mut self, key: K, value: V) -> (old_value: V)
        requires
            old(self)@.contains_key(key),
        ensures
            old_value == old(self)@[key],
            final(self)@ == old(self)@.insert(key, value),
    {
        proof {
            K::lemma_key_model();
        }
        match self.map.insert(key, value) {
            Some(v) => v,
            None => vstd::pervasive::unreached(),
        }
    }

    /// Forgets `key` and hands back its value, if it had one.
    pub fn remove(&mut self, key: K) -> (r: Option<V>)
        ensures
            final(self)@ == old(self)@.remove(key),
            r is Some <==> old(self)@.contains_key(key),
            r matches Some(v) ==> v == old(self)@[key],
    {
        proof {
            K::lemma_key_model();
        }
        self.map.remove(&key)
    }

    /// Every key that has a value, each once, in no particular order.
    pub fn keys(&self) -> (r: Vec<K>)
        ensures
            r@.no_duplicates(),
            forall|k: K| #[trigger] self@.contains_key(k) <==> r@.contains(k),
    {
        proof {
            K::lemma_key_model();
        }
        let ghost keys = vstd::std_specs::iter::IteratorSpec::remaining(&vstd::std_specs::hash::spec_keys_iter(&self.map));
        let mut r: Vec<K> = Vec::new();
        for k in iter: self.map.keys()
            invariant
                iter.seq() == keys,
                r@ == keys.unref().take(iter.index()),
        {
            proof {
                assert(keys.unref().take(iter.index() + 1) =~= keys.unref().take(iter.index()).push(*k));
            }
            r.push(*k);
        }
        proof {
            assert(r@ =~= keys.unref());
        }
        r
    }
}

} // verus!
