//! A finite map from keys to values, stored in a hash map under the keys'
//! integer codes.

use crate::identity::TableKey;
use std::collections::HashMap;
use vstd::prelude::*;
use vstd::std_specs::hash::spec_hash_map_iter;
use vstd::std_specs::iter::IteratorSpec;

verus! {

broadcast use vstd::std_specs::hash::group_hash_axioms;

/// A table of values filed by key.
pub struct Registry<K: TableKey, V: Copy> {
    slots: HashMap<u128, (K, V)>,
}

/// `entries` lists `table`: every key of the table once, with its value, and
/// nothing else.
pub open spec fn lists<K, V>(entries: Seq<(K, V)>, table: Map<K, V>) -> bool {
    &&& forall|i: int, j: int|
        0 <= i < j < entries.len() ==> (#[trigger] entries[i]).0 != (#[trigger] entries[j]).0
    &&& forall|i: int|
        0 <= i < entries.len() ==> table.contains_key((#[trigger] entries[i]).0)
            && table[entries[i].0] == entries[i].1
    &&& forall|k: K| #[trigger]
        table.contains_key(k) ==> exists|i: int|
            0 <= i < entries.len() && (#[trigger] entries[i]).0 == k
}

/// What is filed under `key`, if anything.
pub open spec fn lookup<K, V>(table: Map<K, V>, key: K) -> Option<V> {
    if table.contains_key(key) {
        Some(table[key])
    } else {
        None
    }
}

/// A listing without its last entry lists the table without that entry's key.
pub proof fn lemma_lists_drop_last<K, V>(entries: Seq<(K, V)>, table: Map<K, V>)
    requires
        lists(entries, table),
        entries.len() > 0,
    ensures
        lists(entries.drop_last(), table.remove(entries.last().0)),
{
    let rest = entries.drop_last();
    let last = entries.last();
    let smaller = table.remove(last.0);
    assert forall|i: int| 0 <= i < rest.len() implies smaller.contains_key((#[trigger] rest[i]).0)
        && smaller[rest[i].0] == rest[i].1 by {
        assert(rest[i] == entries[i]);
        assert(entries[i].0 != entries[entries.len() - 1].0);
    }
    assert forall|k: K| #[trigger] smaller.contains_key(k) implies exists|i: int|
        0 <= i < rest.len() && (#[trigger] rest[i]).0 == k by {
        assert(table.contains_key(k));
        let i = choose|i: int| 0 <= i < entries.len() && (#[trigger] entries[i]).0 == k;
        assert(rest[i] == entries[i]);
    }
    assert forall|i: int, j: int| 0 <= i < j < rest.len() implies (#[trigger] rest[i]).0 != (
    #[trigger] rest[j]).0 by {
        assert(rest[i] == entries[i] && rest[j] == entries[j]);
    }
}

/// A table that has a listing is finite, and as long as the listing.
pub proof fn lemma_listed_is_finite<K, V>(entries: Seq<(K, V)>, table: Map<K, V>)
    requires
        lists(entries, table),
    ensures
        table.dom().finite(),
        table.dom().len() == entries.len(),
    decreases entries.len(),
{
    if entries.len() == 0 {
        assert(table.dom() =~= Set::<K>::empty());
    } else {
        let last = entries.last();
        lemma_lists_drop_last(entries, table);
        lemma_listed_is_finite(entries.drop_last(), table.remove(last.0));
        assert(table.contains_key(entries[entries.len() - 1].0));
        assert(table.dom() =~= table.remove(last.0).dom().insert(last.0));
    }
}

impl<K: TableKey, V: Copy> Registry<K, V> {
    /// Every slot is filed under the code of the key it holds.
    #[verifier::type_invariant]
    closed spec fn filed_by_code(&self) -> bool {
        forall|c: u128| #[trigger]
            self.slots@.contains_key(c) ==> self.slots@[c].0.code() == c
    }

    /// The table as a mathematical map.
    pub closed spec fn view(&self) -> Map<K, V> {
        Map::new(
            |k: K| self.slots@.contains_key(k.code()) && self.slots@[k.code()].0 == k,
            |k: K| self.slots@[k.code()].1,
        )
    }

    /// An empty table.
    pub fn new() -> (table: Self)
        ensures
            table@ == Map::<K, V>::empty(),
    {
        let table = Registry { slots: HashMap::new() };
        assert(table@ =~= Map::<K, V>::empty());
        table
    }

    /// The value filed under `key`, if there is one.
    pub fn get(&self, key: &K) -> (found: Option<V>)
        ensures
            found == lookup(self@, *key),
    {
        proof {
            use_type_invariant(self);
        }
        let c = key.encode();
        match self.slots.get(&c) {
            Some(slot) => {
                proof {
                    K::code_is_injective(slot.0, *key);
                }
                Some(slot.1)
            },
            None => None,
        }
    }

    /// Files `value` under `key`, in place of what was filed there.
    pub fn insert(&mut self, key: K, value: V)
        ensures
            final(self)@ == old(self)@.insert(key, value),
    {
        proof {
            use_type_invariant(&*self);
        }
        let c = key.encode();
        let mut slots: HashMap<u128, (K, V)> = HashMap::new();
        std::mem::swap(&mut slots, &mut self.slots);
        slots.insert(c, (key, value));
        self.slots = slots;
        proof {
            assert forall|k: K| #[trigger] self@.contains_key(k) <==> old(self)@.insert(
                key,
                value,
            ).contains_key(k) by {
                if k.code() == key.code() {
                    K::code_is_injective(k, key);
                }
            }
            assert(self@ =~= old(self)@.insert(key, value));
        }
    }

    /// The number of keys.
    pub fn len(&self) -> (len: usize)
        ensures
            self@.dom().finite(),
            len == self@.dom().len(),
    {
        proof {
            use_type_invariant(self);
            let slots = self.slots@;
            let key_of = |c: u128| slots[c].0;
            assert(slots.dom().map(key_of) =~= self@.dom()) by {
                assert forall|k: K| self@.dom().contains(k) implies slots.dom().map(
                    key_of,
                ).contains(k) by {
                    assert(slots.dom().contains(k.code()) && key_of(k.code()) == k);
                }
            }
            assert(vstd::relations::injective_on(key_of, slots.dom()));
            vstd::set_lib::lemma_map_size(slots.dom(), self@.dom(), key_of);
        }
        self.slots.len()
    }

    /// All keys with their values, each key once, in no particular order.
    pub fn entries(&self) -> (entries: Vec<(K, V)>)
        ensures
            lists(entries@, self@),
            self@.dom().finite(),
            entries@.len() == self@.dom().len(),
    {
        proof {
            use_type_invariant(self);
        }
        let mut entries: Vec<(K, V)> = Vec::new();
        let ghost walk = spec_hash_map_iter(&self.slots).remaining();
        for pair in it: self.slots.iter()
            invariant
                it.seq() == walk,
                it.seq().no_duplicates(),
                entries@.len() == it.index(),
                forall|i: int|
                    0 <= i < entries@.len() ==> (#[trigger] entries@[i]) == *walk[i].1,
        {
            entries.push(*pair.1);
        }
        proof {
            let slots = self.slots@;
            assert forall|i: int| 0 <= i < entries@.len() implies slots.contains_key(*walk[i].0)
                && #[trigger] entries@[i] == slots[*walk[i].0] by {
                assert(slots.contains_key(*walk[i].0));
            }
            assert forall|i: int, j: int| 0 <= i < j < entries@.len() implies (
            #[trigger] entries@[i]).0 != (#[trigger] entries@[j]).0 by {
                if entries@[i].0 == entries@[j].0 {
                    assert(*walk[i].0 == *walk[j].0);
                    assert(walk[i] == walk[j]);
                }
            }
            assert forall|k: K| #[trigger] self@.contains_key(k) implies exists|i: int|
                0 <= i < entries@.len() && (#[trigger] entries@[i]).0 == k by {
                let c = k.code();
                assert(slots.contains_key(c));
                assert(walk.contains((&c, &slots[c])));
                let i = choose|i: int| 0 <= i < walk.len() && walk[i] == (&c, &slots[c]);
                assert(entries@[i].0 == k);
            }
            lemma_listed_is_finite(entries@, self@);
        }
        entries
    }
}

} // verus!
