//! A map keyed by values that reduce to one 32-bit word.
//!
//! A key is known to the map by its identity hash alone, which is the word
//! itself: two keys with the same word are the same key.

use std::collections::HashMap;
use vstd::prelude::*;
use vstd::std_specs::hash::spec_hash_map_iter;
use vstd::std_specs::iter::IteratorSpec;
use crate::identity_hash::PrimitiveIdHasher;
use crate::ids::{FaceID, HalfEdgeID, VertexID};

verus! {

/// A key that one 32-bit word stands for. The key hands that word to the
/// identity hasher, which takes nothing else.
pub trait PrimitiveKey {
    /// The word that stands for the key.
    spec fn word(&self) -> u32;

    /// Feeds the key to the hasher, whose digest is then the key's word.
    fn hash_word(&self, state: &mut PrimitiveIdHasher)
        ensures
            final(state)@ == self.word(),
    ;
}

/// The identity hash of a key: its word.
pub fn word_of<K: PrimitiveKey>(key: &K) -> (w: u32)
    ensures
        w == key.word(),
{
    let mut state = PrimitiveIdHasher::default();
    key.hash_word(&mut state);
    state.finish() as u32
}

impl PrimitiveKey for VertexID {
    open spec fn word(&self) -> u32 {
        self@
    }

    fn hash_word(&self, state: &mut PrimitiveIdHasher) {
        state.write_u32(self.get());
    }
}

impl PrimitiveKey for HalfEdgeID {
    open spec fn word(&self) -> u32 {
        self@
    }

    fn hash_word(&self, state: &mut PrimitiveIdHasher) {
        state.write_u32(self.get());
    }
}

impl PrimitiveKey for FaceID {
    open spec fn word(&self) -> u32 {
        self@
    }

    fn hash_word(&self, state: &mut PrimitiveIdHasher) {
        state.write_u32(self.get());
    }
}

/// A map from keys to values. Its view maps each stored key's word to the
/// key and its value.
#[derive(Debug, Clone)]
pub struct PrimitiveMap<K, V> {
    map: HashMap<u32, (K, V)>,
}

impl<K, V> View for PrimitiveMap<K, V> {
    type V = Map<u32, (K, V)>;

    closed spec fn view(&self) -> Map<u32, (K, V)> {
        self.map@
    }
}

/// Every entry sits under the word of its own key, and there are finitely
/// many entries.
pub open spec fn entries_wf<K: PrimitiveKey, V>(entries: Map<u32, (K, V)>) -> bool {
    &&& entries.dom().finite()
    &&& forall|w: u32| entries.contains_key(w) ==> (#[trigger] entries[w]).0.word() == w
}

/// The entries after storing `value` under `key`: a key already present
/// stays and gets the new value.
pub open spec fn entries_insert<K: PrimitiveKey, V>(
    entries: Map<u32, (K, V)>,
    key: K,
    value: V,
) -> Map<u32, (K, V)> {
    let w = key.word();
    if entries.contains_key(w) {
        entries.insert(w, (entries[w].0, value))
    } else {
        entries.insert(w, (key, value))
    }
}

/// The value stored under `key`, if any.
pub open spec fn entries_get<K: PrimitiveKey, V>(entries: Map<u32, (K, V)>, key: K) -> Option<V> {
    if entries.contains_key(key.word()) {
        Some(entries[key.word()].1)
    } else {
        None
    }
}

/// `HashMap::get_mut` of std, on a table keyed by `u32`. Taken on trust from
/// std's documentation, not proved here: where the table has an entry under
/// `word` the call hands out that entry, and what the caller leaves in it is
/// what the table then holds there, every other entry staying as it was;
/// where it has none, nothing is handed out and nothing changes.
#[verifier::external_body]
fn table_get_mut<E>(table: &mut HashMap<u32, E>, word: u32) -> (r: Option<&mut E>)
    ensures
        match r {
            Some(entry) => {
                &&& old(table)@.contains_key(word)
                &&& *entry == old(table)@[word]
                &&& final(table)@ == old(table)@.insert(word, *final(entry))
            },
            None => !old(table)@.contains_key(word) && final(table)@ == old(table)@,
        },
{
    table.get_mut(&word)
}

impl<K: PrimitiveKey, V> PrimitiveMap<K, V> {
    /// Every entry sits under the word of its own key.
    pub open spec fn wf(&self) -> bool {
        entries_wf(self@)
    }

    /// An empty map.
    pub fn new() -> (m: Self)
        ensures
            m@ == Map::<u32, (K, V)>::empty(),
            m.wf(),
    {
        PrimitiveMap { map: HashMap::new() }
    }

    /// An empty map with room for `capacity` entries.
    pub fn with_capacity(capacity: usize) -> (m: Self)
        ensures
            m@ == Map::<u32, (K, V)>::empty(),
            m.wf(),
    {
        PrimitiveMap { map: HashMap::with_capacity(capacity) }
    }

    /// Stores `value` under `id`, in place of the value that the key had.
    pub fn insert(&mut self, id: K, value: V)
        requires
            old(self).wf(),
        ensures
            final(self)@ == entries_insert(old(self)@, id, value),
            final(self).wf(),
            entries_get(final(self)@, id) == Some(value),
    {
        let w: u32 = word_of(&id);
        match self.map.remove(&w) {
            Some(entry) => {
                let (key, _) = entry;
                self.map.insert(w, (key, value));
            },
            None => {
                self.map.insert(w, (id, value));
            },
        }
        assert(final(self)@ =~= entries_insert(old(self)@, id, value));
    }

    /// Takes out the entry under `id` and returns its value, if there was one.
    pub fn remove(&mut self, id: &K) -> (r: Option<V>)
        requires
            old(self).wf(),
        ensures
            final(self)@ == old(self)@.remove(id.word()),
            r == entries_get(old(self)@, *id),
            final(self).wf(),
    {
        let w: u32 = word_of(id);
        match self.map.remove(&w) {
            Some(entry) => Some(entry.1),
            None => None,
        }
    }

    /// The number of entries.
    pub fn len(&self) -> (n: usize)
        ensures
            n == self@.len(),
    {
        self.map.len()
    }

    /// The value stored under `id`, if any.
    pub fn get(&self, id: &K) -> (r: Option<&V>)
        ensures
            r == match entries_get(self@, *id) {
                Some(v) => Some(&v),
                None => None,
            },
    {
        let w: u32 = word_of(id);
        match self.map.get(&w) {
            Some(entry) => Some(&entry.1),
            None => None,
        }
    }

    /// The value stored under `id`, for writing, if there is one. Whatever
    /// the caller leaves there becomes the key's value.
    pub fn get_mut(&mut self, id: &K) -> (r: Option<&mut V>)
        ensures
            match r {
                Some(slot) => {
                    &&& entries_get(old(self)@, *id) == Some(*slot)
                    &&& final(self)@ == old(self)@.insert(
                        id.word(),
                        (old(self)@[id.word()].0, *final(slot)),
                    )
                },
                None => entries_get(old(self)@, *id) is None && final(self)@ == old(self)@,
            },
            old(self).wf() ==> final(self).wf(),
    {
        let w: u32 = word_of(id);
        match table_get_mut(&mut self.map, w) {
            Some(entry) => Some(&mut entry.1),
            None => None,
        }
    }

    /// Whether a value is stored under `id`.
    pub fn contains_key(&self, id: &K) -> (b: bool)
        ensures
            b == self@.contains_key(id.word()),
    {
        let w: u32 = word_of(id);
        self.map.contains_key(&w)
    }

    /// The stored entries, each key with its value, in no particular order:
    /// every entry once, and nothing else.
    pub fn iter(&self) -> (pairs: Vec<(&K, &V)>)
        requires
            self.wf(),
        ensures
            pairs@.len() == self@.len(),
            forall|j: int|
                0 <= j < pairs@.len() ==> {
                    let w = (#[trigger] pairs@[j]).0.word();
                    self@.contains_key(w) && self@[w] == (*pairs@[j].0, *pairs@[j].1)
                },
            forall|i: int, j: int|
                0 <= i < j < pairs@.len() ==> pairs@[i].0.word() != pairs@[j].0.word(),
            forall|w: u32|
                self@.contains_key(w) ==> exists|j: int|
                    0 <= j < pairs@.len() && (#[trigger] pairs@[j]).0.word() == w,
    {
        let mut pairs: Vec<(&K, &V)> = Vec::new();
        let ghost walk = spec_hash_map_iter(&self.map).remaining();
        for item in it: self.map.iter()
            invariant
                it.seq() == walk,
                pairs@.len() == it.index(),
                forall|j: int|
                    0 <= j < it.index() ==> {
                        &&& *(#[trigger] pairs@[j]).0 == (*walk[j].1).0
                        &&& *pairs@[j].1 == (*walk[j].1).1
                    },
        {
            let (_, entry) = item;
            pairs.push((&entry.0, &entry.1));
        }
        proof {
            assert(pairs@.len() == walk.len());
            assert forall|j: int| 0 <= j < pairs@.len() implies {
                let w = (#[trigger] pairs@[j]).0.word();
                *walk[j].0 == w && self@.contains_key(w) && self@[w] == (
                    *pairs@[j].0,
                    *pairs@[j].1,
                )
            } by {
                let w = *walk[j].0;
                assert(self.map@.contains_key(w) && self.map@[w] == *walk[j].1);
                assert(self@[w].0.word() == w);
            }
            assert forall|i: int, j: int| 0 <= i < j < pairs@.len() implies pairs@[i].0.word()
                != pairs@[j].0.word() by {
                let wi = (#[trigger] pairs@[i]).0.word();
                let wj = (#[trigger] pairs@[j]).0.word();
                if wi == wj {
                    assert(self.map@[*walk[i].0] == *walk[i].1);
                    assert(self.map@[*walk[j].0] == *walk[j].1);
                    assert(walk[i] == walk[j]);
                }
            }
            assert forall|w: u32| self@.contains_key(w) implies exists|j: int|
                0 <= j < pairs@.len() && (#[trigger] pairs@[j]).0.word() == w by {
                assert(walk.contains((&w, &self.map@[w])));
                let j = choose|j: int| 0 <= j < walk.len() && walk[j] == (&w, &self.map@[w]);
                assert(pairs@[j].0.word() == w);
            }
        }
        pairs
    }
}

/// Storing under a key keeps the entries well formed, and a read under that
/// key then gives the stored value.
pub proof fn law_insert_then_get<K: PrimitiveKey, V>(entries: Map<u32, (K, V)>, key: K, value: V)
    requires
        entries_wf(entries),
    ensures
        entries_wf(entries_insert(entries, key, value)),
        entries_get(entries_insert(entries, key, value), key) == Some(value),
        entries_insert(entries, key, value).dom() == entries.dom().insert(key.word()),
{
    assert(entries_insert(entries, key, value).dom() =~= entries.dom().insert(key.word()));
}

/// Keys with the same word are one key: storing under the second replaces
/// the value stored under the first, and the map holds one entry for both.
pub proof fn law_same_word_same_entry<K: PrimitiveKey, V>(
    entries: Map<u32, (K, V)>,
    first: K,
    a: V,
    second: K,
    b: V,
)
    requires
        entries_wf(entries),
        first.word() == second.word(),
    ensures
        ({
            let once = entries_insert(entries, first, a);
            let twice = entries_insert(once, second, b);
            &&& twice == entries_insert(entries, first, b)
            &&& twice.dom() == once.dom()
            &&& twice.len() == once.len()
            &&& entries_get(twice, first) == Some(b)
            &&& entries_get(twice, second) == Some(b)
        }),
{
    let once = entries_insert(entries, first, a);
    let twice = entries_insert(once, second, b);
    assert(twice =~= entries_insert(entries, first, b));
    assert(twice.dom() =~= once.dom());
}

/// Keys with different words do not touch each other's entries.
pub proof fn law_other_words_untouched<K: PrimitiveKey, V>(
    entries: Map<u32, (K, V)>,
    key: K,
    value: V,
    other: K,
)
    requires
        key.word() != other.word(),
    ensures
        entries_get(entries_insert(entries, key, value), other) == entries_get(entries, other),
        entries_get(entries.remove(key.word()), other) == entries_get(entries, other),
        entries_get(entries.remove(key.word()), key) is None,
{
}

} // verus!
