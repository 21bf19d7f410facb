//! A store of values by text key, over a concurrent hash map.
//!
//! The map holds, for every key, the number of the slot that holds the
//! key's value; the values themselves stand in a vector beside it. What the
//! store holds is the map from keys to values, `self@`.

use vstd::prelude::*;
use dashmap::DashMap;
use crate::text::owned;

verus! {

/// Makes `dashmap::DashMap` known to the verifier, as a type whose inside it
/// does not see.
#[verifier::external_type_specification]
#[verifier::external_body]
#[verifier::reject_recursive_types(K)]
#[verifier::reject_recursive_types(V)]
#[verifier::reject_recursive_types(S)]
pub struct ExDashMap<K, V, S>(DashMap<K, V, S>);

/// The slot numbers that a map holds, by key.
pub uninterp spec fn index_entries(index: DashMap<String, usize>) -> Map<Seq<char>, usize>;

/// A map without entries.
///
/// Trusted: `DashMap::new`, which creates an empty map.
#[verifier::external_body]
fn index_new() -> (fresh: DashMap<String, usize>)
    ensures
        forall|k: Seq<char>| !(#[trigger] index_entries(fresh).contains_key(k)),
{
    DashMap::new()
}

/// Puts a slot number under a key and hands back the one that stood there.
///
/// Trusted: `DashMap::insert`, which stores the value under the key,
/// replacing and returning a value that the key had, and leaves every other
/// key as it was.
#[verifier::external_body]
fn index_insert(index: &mut DashMap<String, usize>, key: String, slot: usize) -> (was: Option<usize>)
    ensures
        index_entries(*final(index)) == index_entries(*old(index)).insert(key@, slot),
        was == (if index_entries(*old(index)).contains_key(key@) {
            Some(index_entries(*old(index))[key@])
        } else {
            None
        }),
{
    index.insert(key, slot)
}

/// The slot number under a key.
///
/// Trusted: `DashMap::get`, which finds the value of a key that the map
/// holds and nothing for any other key.
#[verifier::external_body]
fn index_get(index: &DashMap<String, usize>, key: &str) -> (slot: Option<usize>)
    ensures
        slot == (if index_entries(*index).contains_key(key@) {
            Some(index_entries(*index)[key@])
        } else {
            None
        }),
{
    index.get(key).map(|entry| *entry.value())
}

/// Takes a key out and hands back its slot number.
///
/// Trusted: `DashMap::remove`, which removes the key with its value and
/// returns them if the map held the key, and leaves every other key as it
/// was.
#[verifier::external_body]
fn index_remove(index: &mut DashMap<String, usize>, key: &str) -> (was: Option<usize>)
    ensures
        index_entries(*final(index)) == index_entries(*old(index)).remove(key@),
        was == (if index_entries(*old(index)).contains_key(key@) {
            Some(index_entries(*old(index))[key@])
        } else {
            None
        }),
{
    index.remove(key).map(|entry| entry.1)
}

/// A key with its value.
pub struct Slot<V> {
    pub key: String,
    pub value: V,
}

/// Values by text key.
pub struct KeyedStore<V> {
    index: DashMap<String, usize>,
    slots: Vec<Option<Slot<V>>>,
    free: Vec<usize>,
}

impl<V> KeyedStore<V> {
    /// Every key's slot exists and holds the key, and every slot that is
    /// listed as free is within the vector.
    pub closed spec fn wf(&self) -> bool {
        &&& forall|k: Seq<char>| #[trigger]
            index_entries(self.index).contains_key(k) ==> {
                &&& index_entries(self.index)[k] < self.slots@.len()
                &&& self.slots@[index_entries(self.index)[k] as int] is Some
                &&& self.slots@[index_entries(self.index)[k] as int]->0.key@ == k
            }
        &&& forall|i: int| 0 <= i < self.free@.len() ==> #[trigger] self.free@[i] < self.slots@.len()
        &&& forall|i: int|
            0 <= i < self.slots@.len() && (#[trigger] self.slots@[i]) is Some ==> {
                &&& index_entries(self.index).contains_key(self.slots@[i]->0.key@)
                &&& index_entries(self.index)[self.slots@[i]->0.key@] == i
            }
    }

    /// What the store holds: the value of every key.
    pub closed spec fn view(&self) -> Map<Seq<char>, V> {
        Map::new(
            |k: Seq<char>| index_entries(self.index).contains_key(k),
            |k: Seq<char>| self.slots@[index_entries(self.index)[k] as int]->0.value,
        )
    }

    /// The slots in the order they were taken; a slot that was given up is
    /// `None`.
    pub closed spec fn slots(&self) -> Seq<Option<Slot<V>>> {
        self.slots@
    }

    /// Every key stands in a slot, and every slot that is taken holds a key
    /// of the store with its value.
    pub proof fn lemma_slots(&self)
        requires
            self.wf(),
        ensures
            forall|k: Seq<char>| #[trigger]
                self@.contains_key(k) ==> exists|i: int|
                    0 <= i < self.slots().len() && (#[trigger] self.slots()[i]) is Some
                        && self.slots()[i]->0.key@ == k,
            forall|i: int|
                0 <= i < self.slots().len() && (#[trigger] self.slots()[i]) is Some ==> {
                    &&& self@.contains_key(self.slots()[i]->0.key@)
                    &&& self@[self.slots()[i]->0.key@] == self.slots()[i]->0.value
                },
    {
        assert forall|k: Seq<char>| #[trigger] self@.contains_key(k) implies exists|i: int|
            0 <= i < self.slots().len() && (#[trigger] self.slots()[i]) is Some
                && self.slots()[i]->0.key@ == k by {
            let at = index_entries(self.index)[k] as int;
            assert(self.slots()[at] is Some);
        }
    }

    /// The number of slots.
    pub fn slot_count(&self) -> (n: usize)
        ensures
            n == self.slots().len(),
    {
        self.slots.len()
    }

    /// What stands in a slot.
    pub fn slot(&self, i: usize) -> (entry: &Option<Slot<V>>)
        requires
            i < self.slots().len(),
        ensures
            *entry == self.slots()[i as int],
    {
        &self.slots[i]
    }

    /// A store without entries.
    pub fn new() -> (store: Self)
        ensures
            store.wf(),
            store@ == Map::<Seq<char>, V>::empty(),
    {
        let store = KeyedStore { index: index_new(), slots: Vec::new(), free: Vec::new() };
        proof {
            assert(store@ =~= Map::<Seq<char>, V>::empty());
        }
        store
    }

    /// Whether the store holds `key`.
    pub fn contains_key(&self, key: &str) -> (found: bool)
        requires
            self.wf(),
        ensures
            found == self@.contains_key(key@),
    {
        index_get(&self.index, key).is_some()
    }

    /// The value of `key`.
    pub fn get(&self, key: &str) -> (value: Option<&V>)
        requires
            self.wf(),
        ensures
            match value {
                Some(v) => self@.contains_key(key@) && *v == self@[key@],
                None => !self@.contains_key(key@),
            },
    {
        match index_get(&self.index, key) {
            Some(at) => match &self.slots[at] {
                Some(slot) => Some(&slot.value),
                None => None,
            },
            None => None,
        }
    }

    /// A slot to put a value in: one that was given up, or a new one.
    fn take_slot(&mut self) -> (at: usize)
        requires
            old(self).wf(),
        ensures
            final(self).wf(),
            final(self)@ == old(self)@,
            final(self).index == old(self).index,
            at < final(self).slots@.len(),
            final(self).slots@[at as int] is None,
            forall|i: int|
                0 <= i < old(self).slots@.len() && i != at ==> final(self).slots@[i] == old(
                    self,
                ).slots@[i],
            old(self).slots@.len() <= final(self).slots@.len(),
    {
        loop
            invariant
                self.wf(),
                self@ == old(self)@,
                self.index == old(self).index,
                self.slots == old(self).slots,
            decreases self.free@.len(),
        {
            match self.free.pop() {
                Some(at) => {
                    if self.slots[at].is_none() {
                        return at;
                    }
                },
                None => {
                    self.slots.push(None);
                    proof {
                        assert(self@ =~= old(self)@);
                    }
                    return self.slots.len() - 1;
                },
            }
        }
    }

    /// Puts `value` under `key` and hands back the value that stood there.
    pub fn insert(&mut self, key: &str, value: V) -> (was: Option<V>)
        requires
            old(self).wf(),
        ensures
            final(self).wf(),
            final(self)@ == old(self)@.insert(key@, value),
            was == (if old(self)@.contains_key(key@) {
                Some(old(self)@[key@])
            } else {
                None
            }),
    {
        match index_get(&self.index, key) {
            Some(at) => {
                let mut taken: Option<Slot<V>> = Some(Slot { key: owned(key), value });
                let ghost before = self.slots@;
                std::mem::swap(&mut self.slots[at], &mut taken);
                proof {
                    assert(self@ =~= old(self)@.insert(key@, value));
                }
                match taken {
                    Some(slot) => Some(slot.value),
                    None => None,
                }
            },
            None => {
                let at = self.take_slot();
                self.slots[at] = Some(Slot { key: owned(key), value });
                let _ = index_insert(&mut self.index, owned(key), at);
                proof {
                    assert(self@ =~= old(self)@.insert(key@, value));
                }
                None
            },
        }
    }

    /// Takes `key` out and hands back its value.
    pub fn remove(&mut self, key: &str) -> (was: Option<V>)
        requires
            old(self).wf(),
        ensures
            final(self).wf(),
            final(self)@ == old(self)@.remove(key@),
            was == (if old(self)@.contains_key(key@) {
                Some(old(self)@[key@])
            } else {
                None
            }),
    {
        match index_remove(&mut self.index, key) {
            Some(at) => {
                let mut taken: Option<Slot<V>> = None;
                std::mem::swap(&mut self.slots[at], &mut taken);
                self.free.push(at);
                proof {
                    assert(self@ =~= old(self)@.remove(key@));
                }
                match taken {
                    Some(slot) => Some(slot.value),
                    None => None,
                }
            },
            None => {
                proof {
                    assert(self@ =~= old(self)@.remove(key@));
                }
                None
            },
        }
    }
}

} // verus!
