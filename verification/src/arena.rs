//! The element store: a dense vector of slots with a stack of freed indices.

use vstd::prelude::*;
use crate::model::{ArenaModel, lemma_distinct_bounded, max_slots};

verus! {

/// A dense store of values addressed by 32-bit indices. Freed indices are
/// reused, most recently freed first; a freed slot keeps its contents.
#[derive(Debug, Clone)]
pub struct Arena<V> {
    values: Vec<V>,
    free: Vec<u32>,
}

impl<V> View for Arena<V> {
    type V = ArenaModel<V>;

    closed spec fn view(&self) -> ArenaModel<V> {
        ArenaModel { slots: self.values@, free: self.free@ }
    }
}

impl<V> Arena<V> {
    /// An empty store.
    pub fn new() -> (a: Self)
        ensures
            a@ == ArenaModel::<V>::empty(),
    {
        Arena { values: Vec::new(), free: Vec::new() }
    }

    /// An empty store with room for `capacity` slots.
    pub fn with_capacity(capacity: usize) -> (a: Self)
        ensures
            a@ == ArenaModel::<V>::empty(),
    {
        Arena { values: Vec::with_capacity(capacity), free: Vec::new() }
    }

    /// Stores `value` in the most recently freed slot, or in a new last slot
    /// when none is free, and returns that slot's index.
    pub fn insert_new(&mut self, value: V) -> (i: u32)
        requires
            old(self)@.wf(),
            old(self)@.can_insert(),
        ensures
            i == old(self)@.next_index(),
            final(self)@ == old(self)@.insert_new(value),
            final(self)@.wf(),
    {
        match self.free.pop() {
            Some(i) => {
                assert(old(self).free@[old(self).free@.len() - 1] == i);
                self.values[i as usize] = value;
                i
            },
            None => {
                let n: usize = self.values.len();
                self.values.push(value);
                n as u32
            },
        }
    }

    /// Frees the slot at `i`. The slot's contents stay as they are.
    pub fn remove(&mut self, i: u32)
        requires
            old(self)@.wf(),
            old(self)@.is_live(i),
        ensures
            final(self)@ == old(self)@.remove(i),
            final(self)@.wf(),
    {
        self.free.push(i);
    }

    /// The number of live elements.
    pub fn len(&self) -> (n: usize)
        requires
            self@.wf(),
        ensures
            n == self@.len(),
    {
        proof {
            lemma_distinct_bounded(self.free@, self.values@.len());
        }
        self.values.len() - self.free.len()
    }

    /// The contents of the slot at `i`, absent only when `i` names no slot.
    pub fn get(&self, i: u32) -> (r: Option<&V>)
        ensures
            r == match self@.get(i) {
                Some(v) => Some(&v),
                None => None,
            },
    {
        if (i as usize) < self.values.len() {
            Some(&self.values[i as usize])
        } else {
            None
        }
    }

    /// The slot at `i`, for writing; absent only when `i` names no slot.
    /// Whatever the caller leaves in the slot becomes its contents.
    pub fn get_mut(&mut self, i: u32) -> (r: Option<&mut V>)
        ensures
            match r {
                Some(slot) => {
                    &&& old(self)@.get(i) == Some(*slot)
                    &&& final(self)@ == old(self)@.with_slot(i, *final(slot))
                },
                None => old(self)@.get(i) is None && final(self)@ == old(self)@,
            },
    {
        if (i as usize) < self.values.len() {
            Some(&mut self.values[i as usize])
        } else {
            None
        }
    }

    /// Whether `i` is on the free stack.
    pub fn is_free(&self, i: u32) -> (b: bool)
        ensures
            b == self@.free.contains(i),
    {
        let mut k: usize = 0;
        while k < self.free.len()
            invariant
                k <= self.free@.len(),
                forall|j: int| 0 <= j < k ==> self.free@[j] != i,
            decreases self.free@.len() - k,
        {
            if self.free[k] == i {
                return true;
            }
            k += 1;
        }
        false
    }

    /// The indices of the live elements, in ascending order.
    pub fn iter(&self) -> (ids: Vec<u32>)
        requires
            self@.wf(),
        ensures
            ids@ == self@.live_ids(),
    {
        let mut ids: Vec<u32> = Vec::new();
        let n: usize = self.values.len();
        let mut k: usize = 0;
        while k < n
            invariant
                n == self.values@.len(),
                n <= max_slots(),
                k <= n,
                ids@ == self@.live_below(k as nat),
            decreases n - k,
        {
            let i: u32 = k as u32;
            if !self.is_free(i) {
                ids.push(i);
            }
            k += 1;
        }
        ids
    }
}

} // verus!
