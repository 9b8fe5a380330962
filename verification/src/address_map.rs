//! A small map from addresses to values, kept as a list of entries.

use vstd::prelude::*;
use crate::address::Address;

verus! {

/// Whether no address occurs twice among the keys of `entries`.
pub open spec fn distinct_keys<V>(entries: Seq<(Address, V)>) -> bool {
    forall|i: int, j: int| 0 <= i < j < entries.len() ==> entries[i].0 != entries[j].0
}

/// Whether `key` occurs among the keys of `entries`.
pub open spec fn has_key<V>(entries: Seq<(Address, V)>, key: Address) -> bool {
    exists|i: int| 0 <= i < entries.len() && (#[trigger] entries[i]).0 == key
}

/// The map that a list of entries stands for.
pub open spec fn entries_to_map<V>(entries: Seq<(Address, V)>) -> Map<Address, V> {
    Map::new(
        |key: Address| has_key(entries, key),
        |key: Address|
            entries[choose|i: int| 0 <= i < entries.len() && (#[trigger] entries[i]).0 == key].1,
    )
}

/// With distinct keys, the entry at `i` is what the map holds for its key.
pub proof fn lemma_entry_is_mapped<V>(entries: Seq<(Address, V)>, i: int)
    requires
        distinct_keys(entries),
        0 <= i < entries.len(),
    ensures
        entries_to_map(entries).contains_key(entries[i].0),
        entries_to_map(entries)[entries[i].0] == entries[i].1,
{
    let key = entries[i].0;
    assert(has_key(entries, key));
    let j = choose|j: int| 0 <= j < entries.len() && (#[trigger] entries[j]).0 == key;
    assert(j == i);
}

/// A map from addresses to values. An address without an entry has no
/// value; the callers decide what that means (an empty pool, a count of
/// zero).
#[derive(Clone, Debug, PartialEq, Eq)]
pub struct AddressMap<V> {
    pub entries: Vec<(Address, V)>,
}

impl<V> View for AddressMap<V> {
    type V = Map<Address, V>;

    open spec fn view(&self) -> Map<Address, V> {
        entries_to_map(self.entries@)
    }
}

impl<V: Copy> AddressMap<V> {
    /// No address has two entries.
    pub open spec fn wf(&self) -> bool {
        distinct_keys(self.entries@)
    }

    /// The value held for `key`, or `default` where there is none.
    pub open spec fn spec_get_or(&self, key: Address, default: V) -> V {
        if self@.contains_key(key) {
            self@[key]
        } else {
            default
        }
    }

    /// The map without entries.
    pub fn new() -> (map: AddressMap<V>)
        ensures
            map.wf(),
            map@ == Map::<Address, V>::empty(),
    {
        let map = AddressMap { entries: Vec::new() };
        assert(map@ =~= Map::<Address, V>::empty());
        map
    }

    /// Whether no address has two entries.
    pub fn is_valid(&self) -> (valid: bool)
        ensures
            valid == self.wf(),
    {
        let mut i: usize = 0;
        while i < self.entries.len()
            invariant
                i <= self.entries@.len(),
                forall|a: int, b: int| 0 <= a < b < i ==> self.entries@[a].0 != self.entries@[b].0,
            decreases self.entries@.len() - i,
        {
            let mut j: usize = 0;
            while j < i
                invariant
                    i < self.entries@.len(),
                    j <= i,
                    forall|a: int| 0 <= a < j ==> self.entries@[a].0 != self.entries@[i as int].0,
                decreases i - j,
            {
                if self.entries[j].0 == self.entries[i].0 {
                    return false;
                }
                j += 1;
            }
            i += 1;
        }
        true
    }

    /// The index of the entry for `key`, if there is one.
    fn position(&self, key: Address) -> (at: Option<usize>)
        ensures
            match at {
                Some(i) => i < self.entries@.len() && self.entries@[i as int].0 == key,
                None => !has_key(self.entries@, key),
            },
    {
        let mut i: usize = 0;
        while i < self.entries.len()
            invariant
                i <= self.entries@.len(),
                forall|j: int| 0 <= j < i ==> (#[trigger] self.entries@[j]).0 != key,
            decreases self.entries@.len() - i,
        {
            if self.entries[i].0 == key {
                return Some(i);
            }
            i += 1;
        }
        None
    }

    /// The value held for `key`, if there is one.
    pub fn get(&self, key: Address) -> (value: Option<V>)
        requires
            self.wf(),
        ensures
            value == if self@.contains_key(key) {
                Some(self@[key])
            } else {
                None
            },
    {
        match self.position(key) {
            Some(i) => {
                proof {
                    lemma_entry_is_mapped(self.entries@, i as int);
                }
                Some(self.entries[i].1)
            },
            None => None,
        }
    }

    /// The value held for `key`, or `default` where there is none.
    #[verifier::when_used_as_spec(spec_get_or)]
    pub fn get_or(&self, key: Address, default: V) -> (value: V)
        requires
            self.wf(),
        ensures
            value == self.spec_get_or(key, default),
    {
        match self.get(key) {
            Some(v) => v,
            None => default,
        }
    }

    /// Sets the value for `key`, replacing the one it had.
    pub fn set(&mut self, key: Address, value: V)
        requires
            old(self).wf(),
        ensures
            final(self).wf(),
            final(self)@ == old(self)@.insert(key, value),
    {
        let ghost before = self.entries@;
        match self.position(key) {
            Some(i) => {
                self.entries[i] = (key, value);
                proof {
                    let after = self.entries@;
                    assert(after == before.update(i as int, (key, value)));
                    assert(distinct_keys(after));
                    assert forall|k: Address| #[trigger]
                        entries_to_map(after).contains_key(k) == entries_to_map(before).insert(
                            key,
                            value,
                        ).contains_key(k) by {
                        if has_key(after, k) {
                            let j = choose|j: int|
                                0 <= j < after.len() && (#[trigger] after[j]).0 == k;
                            assert(before[j].0 == k);
                        }
                        if has_key(before, k) {
                            let j = choose|j: int|
                                0 <= j < before.len() && (#[trigger] before[j]).0 == k;
                            assert(after[j].0 == k);
                        }
                        assert(after[i as int].0 == key);
                    }
                    assert forall|k: Address| #[trigger]
                        entries_to_map(after).contains_key(k) implies entries_to_map(after)[k]
                        == entries_to_map(before).insert(key, value)[k] by {
                        let j = choose|j: int| 0 <= j < after.len() && (#[trigger] after[j]).0 == k;
                        lemma_entry_is_mapped(after, j);
                        if k != key {
                            assert(j != i);
                            lemma_entry_is_mapped(before, j);
                        } else {
                            assert(j == i);
                        }
                    }
                    assert(entries_to_map(after) =~= entries_to_map(before).insert(key, value));
                }
            },
            None => {
                self.entries.push((key, value));
                proof {
                    let after = self.entries@;
                    assert(after == before.push((key, value)));
                    assert(distinct_keys(after)) by {
                        assert forall|i: int, j: int| 0 <= i < j < after.len() implies after[i].0
                            != after[j].0 by {
                            if j == before.len() {
                                assert(before[i].0 != key);
                            }
                        }
                    }
                    assert forall|k: Address| #[trigger]
                        entries_to_map(after).contains_key(k) == entries_to_map(before).insert(
                            key,
                            value,
                        ).contains_key(k) by {
                        if has_key(after, k) {
                            let j = choose|j: int|
                                0 <= j < after.len() && (#[trigger] after[j]).0 == k;
                            if j < before.len() {
                                assert(before[j].0 == k);
                            }
                        }
                        if has_key(before, k) {
                            let j = choose|j: int|
                                0 <= j < before.len() && (#[trigger] before[j]).0 == k;
                            assert(after[j].0 == k);
                        }
                        assert(after[before.len() as int].0 == key);
                    }
                    assert forall|k: Address| #[trigger]
                        entries_to_map(after).contains_key(k) implies entries_to_map(after)[k]
                        == entries_to_map(before).insert(key, value)[k] by {
                        let j = choose|j: int| 0 <= j < after.len() && (#[trigger] after[j]).0 == k;
                        lemma_entry_is_mapped(after, j);
                        if k != key {
                            assert(j < before.len());
                            lemma_entry_is_mapped(before, j);
                        } else {
                            assert(j == before.len()) by {
                                if j < before.len() {
                                    assert(before[j].0 == key);
                                }
                            }
                        }
                    }
                    assert(entries_to_map(after) =~= entries_to_map(before).insert(key, value));
                }
            },
        }
    }
}

} // verus!
