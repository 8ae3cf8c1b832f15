//! A map keyed by the identifier of a type.

use crate::erased::same_type;
use std::any::TypeId;
use vstd::prelude::*;

verus! {

/// One entry of the index.
pub struct Slot<V> {
    pub key: TypeId,
    pub value: V,
}

/// At most one value for each type identifier.
pub struct TypeIndex<V> {
    slots: Vec<Slot<V>>,
}

/// No two slots hold the same key.
pub open spec fn distinct_keys<V>(slots: Seq<Slot<V>>) -> bool {
    forall|i: int, j: int| 0 <= i < j < slots.len() ==> slots[i].key != slots[j].key
}

/// The slots as a map from key to value.
pub open spec fn slot_map<V>(slots: Seq<Slot<V>>) -> Map<TypeId, V> {
    Map::new(
        |key: TypeId| exists|i: int| 0 <= i < slots.len() && slots[i].key == key,
        |key: TypeId| slots[choose|i: int| 0 <= i < slots.len() && slots[i].key == key].value,
    )
}

/// In slots with distinct keys, the slot at place `i` is the one that the
/// map shows under its key.
proof fn lemma_slot_at<V>(slots: Seq<Slot<V>>, i: int)
    requires
        distinct_keys(slots),
        0 <= i < slots.len(),
    ensures
        slot_map(slots).contains_key(slots[i].key),
        slot_map(slots)[slots[i].key] == slots[i].value,
{
    let key = slots[i].key;
    let n = choose|n: int| 0 <= n < slots.len() && slots[n].key == key;
    assert(n == i);
}

impl<V> View for TypeIndex<V> {
    type V = Map<TypeId, V>;

    closed spec fn view(&self) -> Map<TypeId, V> {
        slot_map(self.slots@)
    }
}

impl<V> TypeIndex<V> {
    #[verifier::type_invariant]
    spec fn inv(&self) -> bool {
        distinct_keys(self.slots@)
    }

    /// An index that holds nothing.
    pub fn new() -> (r: Self)
        ensures
            r@ == Map::<TypeId, V>::empty(),
    {
        let r = Self { slots: Vec::new() };
        assert(r@ =~= Map::<TypeId, V>::empty());
        r
    }

    /// The place of the slot with the key `key`, if there is one.
    fn position(&self, key: &TypeId) -> (r: Option<usize>)
        ensures
            match r {
                Some(i) => i < self.slots@.len() && self.slots@[i as int].key == *key,
                None => forall|i: int| 0 <= i < self.slots@.len() ==> self.slots@[i].key != *key,
            },
    {
        let mut i: usize = 0;
        while i < self.slots.len()
            invariant
                0 <= i <= self.slots.len(),
                forall|j: int| 0 <= j < i ==> self.slots@[j].key != *key,
            decreases self.slots.len() - i,
        {
            if same_type(&self.slots[i].key, key) {
                return Some(i);
            }
            i += 1;
        }
        None
    }

    /// Whether there is a value under `key`.
    pub fn contains_key(&self, key: &TypeId) -> (r: bool)
        ensures
            r == self@.contains_key(*key),
    {
        self.position(key).is_some()
    }

    /// The value under `key`, if there is one.
    pub fn find(&self, key: &TypeId) -> (r: Option<&V>)
        ensures
            match r {
                Some(value) => self@.contains_key(*key) && *value == self@[*key],
                None => !self@.contains_key(*key),
            },
    {
        proof {
            use_type_invariant(self);
        }
        match self.position(key) {
            Some(i) => {
                proof {
                    lemma_slot_at(self.slots@, i as int);
                }
                Some(&self.slots[i].value)
            },
            None => None,
        }
    }

    /// Takes the value under `key` out of the index, if there is one.
    pub fn remove(&mut self, key: &TypeId) -> (r: Option<V>)
        ensures
            final(self)@ == old(self)@.remove(*key),
            match r {
                Some(value) => old(self)@.contains_key(*key) && value == old(self)@[*key],
                None => !old(self)@.contains_key(*key),
            },
    {
        proof {
            use_type_invariant(&*self);
        }
        let found = self.position(key);
        match found {
            Some(i) => {
                let mut slots: Vec<Slot<V>> = Vec::new();
                core::mem::swap(&mut self.slots, &mut slots);
                let ghost before = slots@;
                let slot = slots.remove(i);
                proof {
                    lemma_slot_at(before, i as int);
                    let after = slots@;
                    assert forall|a: int, b: int| 0 <= a < b < after.len() implies after[a].key != after[b].key by {
                        let x = if a < i {
                            a
                        } else {
                            a + 1
                        };
                        let y = if b < i {
                            b
                        } else {
                            b + 1
                        };
                        assert(after[a] == before[x]);
                        assert(after[b] == before[y]);
                    }
                    assert forall|k: TypeId| #[trigger]
                        slot_map(after).contains_key(k) <==> slot_map(before).remove(*key).contains_key(k) by {
                        if slot_map(after).contains_key(k) {
                            let n = choose|n: int| 0 <= n < after.len() && after[n].key == k;
                            let x = if n < i {
                                n
                            } else {
                                n + 1
                            };
                            assert(before[x].key == k);
                        }
                        if slot_map(before).contains_key(k) && k != *key {
                            let n = choose|n: int| 0 <= n < before.len() && before[n].key == k;
                            let x = if n < i {
                                n
                            } else {
                                n - 1
                            };
                            assert(after[x].key == k);
                        }
                    }
                    assert forall|k: TypeId| slot_map(after).contains_key(k) implies slot_map(after)[k]
                        == slot_map(before).remove(*key)[k] by {
                        let n = choose|n: int| 0 <= n < after.len() && after[n].key == k;
                        let x = if n < i {
                            n
                        } else {
                            n + 1
                        };
                        assert(before[x] == after[n]);
                        lemma_slot_at(before, x);
                        lemma_slot_at(after, n);
                    }
                    assert(slot_map(after) =~= slot_map(before).remove(*key));
                }
                self.slots = slots;
                Some(slot.value)
            },
            None => {
                assert(self@ =~= old(self)@.remove(*key));
                None
            },
        }
    }

    /// Puts `value` under `key`, in place of what was there.
    pub fn put(&mut self, key: TypeId, value: V)
        ensures
            final(self)@ == old(self)@.insert(key, value),
    {
        let _ = self.remove(&key);
        proof {
            use_type_invariant(&*self);
        }
        let mut slots: Vec<Slot<V>> = Vec::new();
        core::mem::swap(&mut self.slots, &mut slots);
        let ghost before = slots@;
        slots.push(Slot { key, value });
        proof {
            let after = slots@;
            assert(!slot_map(before).contains_key(key));
            assert forall|a: int, b: int| 0 <= a < b < after.len() implies after[a].key != after[b].key by {
                if b == after.len() - 1 {
                    assert(before[a].key == after[a].key);
                    if after[a].key == key {
                        assert(slot_map(before).contains_key(key));
                    }
                } else {
                    assert(before[a] == after[a]);
                    assert(before[b] == after[b]);
                }
            }
            assert forall|k: TypeId| #[trigger]
                slot_map(after).contains_key(k) <==> slot_map(before).insert(key, value).contains_key(k) by {
                if slot_map(after).contains_key(k) {
                    let n = choose|n: int| 0 <= n < after.len() && after[n].key == k;
                    if n < before.len() {
                        assert(before[n].key == k);
                    }
                }
                if slot_map(before).contains_key(k) {
                    let n = choose|n: int| 0 <= n < before.len() && before[n].key == k;
                    assert(after[n].key == k);
                }
                if k == key {
                    assert(after[after.len() - 1].key == k);
                }
            }
            assert forall|k: TypeId| slot_map(after).contains_key(k) implies slot_map(after)[k] == slot_map(
                before,
            ).insert(key, value)[k] by {
                let n = choose|n: int| 0 <= n < after.len() && after[n].key == k;
                lemma_slot_at(after, n);
                if n < before.len() {
                    assert(before[n] == after[n]);
                    lemma_slot_at(before, n);
                }
            }
            assert(slot_map(after) =~= slot_map(before).insert(key, value));
            assert(old(self)@.remove(key).insert(key, value) =~= old(self)@.insert(key, value));
        }
        self.slots = slots;
    }
}

} // verus!
