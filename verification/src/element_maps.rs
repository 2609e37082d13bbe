//! The three element stores of a mesh: vertices, half-edges and faces.
//!
//! Each is the same store under its own kind of identifier, so that an
//! identifier of one kind cannot address a store of another.

use vstd::prelude::*;
use crate::arena::Arena;
use crate::ids::{FaceID, HalfEdgeID, VertexID};
use crate::model::{
    ArenaModel, law_insert_then_get, law_len_steps, law_live_ids_exact, law_remove_keeps_contents,
};

verus! {

/// The store of vertex values, addressed by [`VertexID`].
#[derive(Debug, Clone)]
pub struct VertexMap<V> {
    arena: Arena<V>,
}

impl<V> View for VertexMap<V> {
    type V = ArenaModel<V>;

    closed spec fn view(&self) -> ArenaModel<V> {
        self.arena@
    }
}

impl<V> VertexMap<V> {
    /// An empty store.
    pub fn new() -> (m: Self)
        ensures
            m@ == ArenaModel::<V>::empty(),
            m@.wf(),
    {
        VertexMap { arena: Arena::new() }
    }

    /// An empty store with room for `capacity` elements.
    pub fn with_capacity(capacity: usize) -> (m: Self)
        ensures
            m@ == ArenaModel::<V>::empty(),
            m@.wf(),
    {
        VertexMap { arena: Arena::with_capacity(capacity) }
    }

    /// Stores `value` and returns its identifier: that of the most recently
    /// removed element if any index is free, else a new one. Reading at the
    /// identifier right afterwards gives `value`.
    pub fn insert_new(&mut self, value: V) -> (r: Option<VertexID>)
        requires
            old(self)@.wf(),
            old(self)@.can_insert(),
        ensures
            r is Some,
            r.unwrap()@ == old(self)@.next_index(),
            final(self)@ == old(self)@.insert_new(value),
            final(self)@.wf(),
            final(self)@.get(r.unwrap()@) == Some(value),
            final(self)@.is_live(r.unwrap()@),
            final(self)@.len() == old(self)@.len() + 1,
    {
        proof {
            law_insert_then_get(self@, value);
            law_len_steps(self@, value, 0);
        }
        let i: u32 = self.arena.insert_new(value);
        Some(VertexID::new(i))
    }

    /// Removes the element at `id`. Its index becomes the next one to be
    /// handed out; its slot keeps its contents until then.
    pub fn remove(&mut self, id: &VertexID)
        requires
            old(self)@.wf(),
            old(self)@.is_live(id@),
        ensures
            final(self)@ == old(self)@.remove(id@),
            final(self)@.wf(),
            final(self)@.next_index() == id@,
            final(self)@.get(id@) == old(self)@.get(id@),
            !final(self)@.is_live(id@),
            final(self)@.len() == old(self)@.len() - 1,
    {
        proof {
            law_remove_keeps_contents(self@, id@, id@);
        }
        self.arena.remove(id.get());
    }

    /// The number of live elements.
    pub fn len(&self) -> (n: usize)
        requires
            self@.wf(),
        ensures
            n == self@.len(),
    {
        self.arena.len()
    }

    /// The contents of the slot at `id`, absent only when `id` names no
    /// slot. A removed element is still read until its slot is reused.
    pub fn get(&self, id: &VertexID) -> (r: Option<&V>)
        ensures
            r == match self@.get(id@) {
                Some(v) => Some(&v),
                None => None,
            },
    {
        self.arena.get(id.get())
    }

    /// The slot at `id`, for writing; absent only when `id` names no slot.
    /// Whatever the caller leaves in the slot becomes its contents.
    pub fn get_mut(&mut self, id: &VertexID) -> (r: Option<&mut V>)
        ensures
            match r {
                Some(slot) => {
                    &&& old(self)@.get(id@) == Some(*slot)
                    &&& final(self)@ == old(self)@.with_slot(id@, *final(slot))
                },
                None => old(self)@.get(id@) is None && final(self)@ == old(self)@,
            },
    {
        self.arena.get_mut(id.get())
    }

    /// The identifiers of the live elements, in ascending order of index:
    /// each live element once, and nothing else.
    pub fn iter(&self) -> (ids: Vec<VertexID>)
        requires
            self@.wf(),
        ensures
            ids@.map_values(|id: VertexID| id@) == self@.live_ids(),
            ids@.len() == self@.len(),
            ids@.no_duplicates(),
            forall|id: VertexID| ids@.contains(id) <==> self@.is_live(id@),
    {
        let raw: Vec<u32> = self.arena.iter();
        let mut ids: Vec<VertexID> = Vec::new();
        let mut k: usize = 0;
        while k < raw.len()
            invariant
                k <= raw@.len(),
                ids@.len() == k,
                forall|j: int| 0 <= j < k ==> (#[trigger] ids@[j])@ == raw@[j],
            decreases raw@.len() - k,
        {
            ids.push(VertexID::new(raw[k]));
            k += 1;
        }
        proof {
            law_live_ids_exact(self@);
            assert(ids@.map_values(|id: VertexID| id@) =~= raw@);
            assert forall|id: VertexID| ids@.contains(id) <==> self@.is_live(id@) by {
                if ids@.contains(id) {
                    let j = choose|j: int| 0 <= j < ids@.len() && ids@[j] == id;
                    assert(raw@[j] == id@);
                }
                if self@.is_live(id@) {
                    let j = choose|j: int| 0 <= j < raw@.len() && raw@[j] == id@;
                    VertexID::lemma_eq_by_index(ids@[j], id);
                }
            }
        }
        ids
    }
}

/// The store of half-edge values, addressed by [`HalfEdgeID`].
#[derive(Debug, Clone)]
pub struct HalfEdgeMap<V> {
    arena: Arena<V>,
}

impl<V> View for HalfEdgeMap<V> {
    type V = ArenaModel<V>;

    closed spec fn view(&self) -> ArenaModel<V> {
        self.arena@
    }
}

impl<V> HalfEdgeMap<V> {
    /// An empty store.
    pub fn new() -> (m: Self)
        ensures
            m@ == ArenaModel::<V>::empty(),
            m@.wf(),
    {
        HalfEdgeMap { arena: Arena::new() }
    }

    /// An empty store with room for `capacity` elements.
    pub fn with_capacity(capacity: usize) -> (m: Self)
        ensures
            m@ == ArenaModel::<V>::empty(),
            m@.wf(),
    {
        HalfEdgeMap { arena: Arena::with_capacity(capacity) }
    }

    /// Stores `value` and returns its identifier: that of the most recently
    /// removed element if any index is free, else a new one. Reading at the
    /// identifier right afterwards gives `value`.
    pub fn insert_new(&mut self, value: V) -> (r: Option<HalfEdgeID>)
        requires
            old(self)@.wf(),
            old(self)@.can_insert(),
        ensures
            r is Some,
            r.unwrap()@ == old(self)@.next_index(),
            final(self)@ == old(self)@.insert_new(value),
            final(self)@.wf(),
            final(self)@.get(r.unwrap()@) == Some(value),
            final(self)@.is_live(r.unwrap()@),
            final(self)@.len() == old(self)@.len() + 1,
    {
        proof {
            law_insert_then_get(self@, value);
            law_len_steps(self@, value, 0);
        }
        let i: u32 = self.arena.insert_new(value);
        Some(HalfEdgeID::new(i))
    }

    /// Removes the element at `id`. Its index becomes the next one to be
    /// handed out; its slot keeps its contents until then.
    pub fn remove(&mut self, id: &HalfEdgeID)
        requires
            old(self)@.wf(),
            old(self)@.is_live(id@),
        ensures
            final(self)@ == old(self)@.remove(id@),
            final(self)@.wf(),
            final(self)@.next_index() == id@,
            final(self)@.get(id@) == old(self)@.get(id@),
            !final(self)@.is_live(id@),
            final(self)@.len() == old(self)@.len() - 1,
    {
        proof {
            law_remove_keeps_contents(self@, id@, id@);
        }
        self.arena.remove(id.get());
    }

    /// The number of live elements.
    pub fn len(&self) -> (n: usize)
        requires
            self@.wf(),
        ensures
            n == self@.len(),
    {
        self.arena.len()
    }

    /// The contents of the slot at `id`, absent only when `id` names no
    /// slot. A removed element is still read until its slot is reused.
    pub fn get(&self, id: &HalfEdgeID) -> (r: Option<&V>)
        ensures
            r == match self@.get(id@) {
                Some(v) => Some(&v),
                None => None,
            },
    {
        self.arena.get(id.get())
    }

    /// The slot at `id`, for writing; absent only when `id` names no slot.
    /// Whatever the caller leaves in the slot becomes its contents.
    pub fn get_mut(&mut self, id: &HalfEdgeID) -> (r: Option<&mut V>)
        ensures
            match r {
                Some(slot) => {
                    &&& old(self)@.get(id@) == Some(*slot)
                    &&& final(self)@ == old(self)@.with_slot(id@, *final(slot))
                },
                None => old(self)@.get(id@) is None && final(self)@ == old(self)@,
            },
    {
        self.arena.get_mut(id.get())
    }

    /// The identifiers of the live elements, in ascending order of index:
    /// each live element once, and nothing else.
    pub fn iter(&self) -> (ids: Vec<HalfEdgeID>)
        requires
            self@.wf(),
        ensures
            ids@.map_values(|id: HalfEdgeID| id@) == self@.live_ids(),
            ids@.len() == self@.len(),
            ids@.no_duplicates(),
            forall|id: HalfEdgeID| ids@.contains(id) <==> self@.is_live(id@),
    {
        let raw: Vec<u32> = self.arena.iter();
        let mut ids: Vec<HalfEdgeID> = Vec::new();
        let mut k: usize = 0;
        while k < raw.len()
            invariant
                k <= raw@.len(),
                ids@.len() == k,
                forall|j: int| 0 <= j < k ==> (#[trigger] ids@[j])@ == raw@[j],
            decreases raw@.len() - k,
        {
            ids.push(HalfEdgeID::new(raw[k]));
            k += 1;
        }
        proof {
            law_live_ids_exact(self@);
            assert(ids@.map_values(|id: HalfEdgeID| id@) =~= raw@);
            assert forall|id: HalfEdgeID| ids@.contains(id) <==> self@.is_live(id@) by {
                if ids@.contains(id) {
                    let j = choose|j: int| 0 <= j < ids@.len() && ids@[j] == id;
                    assert(raw@[j] == id@);
                }
                if self@.is_live(id@) {
                    let j = choose|j: int| 0 <= j < raw@.len() && raw@[j] == id@;
                    HalfEdgeID::lemma_eq_by_index(ids@[j], id);
                }
            }
        }
        ids
    }
}

/// The store of face values, addressed by [`FaceID`].
#[derive(Debug, Clone)]
pub struct FaceMap<V> {
    arena: Arena<V>,
}

impl<V> View for FaceMap<V> {
    type V = ArenaModel<V>;

    closed spec fn view(&self) -> ArenaModel<V> {
        self.arena@
    }
}

impl<V> FaceMap<V> {
    /// An empty store.
    pub fn new() -> (m: Self)
        ensures
            m@ == ArenaModel::<V>::empty(),
            m@.wf(),
    {
        FaceMap { arena: Arena::new() }
    }

    /// An empty store with room for `capacity` elements.
    pub fn with_capacity(capacity: usize) -> (m: Self)
        ensures
            m@ == ArenaModel::<V>::empty(),
            m@.wf(),
    {
        FaceMap { arena: Arena::with_capacity(capacity) }
    }

    /// Stores `value` and returns its identifier: that of the most recently
    /// removed element if any index is free, else a new one. Reading at the
    /// identifier right afterwards gives `value`.
    pub fn insert_new(&mut self, value: V) -> (r: Option<FaceID>)
        requires
            old(self)@.wf(),
            old(self)@.can_insert(),
        ensures
            r is Some,
            r.unwrap()@ == old(self)@.next_index(),
            final(self)@ == old(self)@.insert_new(value),
            final(self)@.wf(),
            final(self)@.get(r.unwrap()@) == Some(value),
            final(self)@.is_live(r.unwrap()@),
            final(self)@.len() == old(self)@.len() + 1,
    {
        proof {
            law_insert_then_get(self@, value);
            law_len_steps(self@, value, 0);
        }
        let i: u32 = self.arena.insert_new(value);
        Some(FaceID::new(i))
    }

    /// Removes the element at `id`. Its index becomes the next one to be
    /// handed out; its slot keeps its contents until then.
    pub fn remove(&mut self, id: &FaceID)
        requires
            old(self)@.wf(),
            old(self)@.is_live(id@),
        ensures
            final(self)@ == old(self)@.remove(id@),
            final(self)@.wf(),
            final(self)@.next_index() == id@,
            final(self)@.get(id@) == old(self)@.get(id@),
            !final(self)@.is_live(id@),
            final(self)@.len() == old(self)@.len() - 1,
    {
        proof {
            law_remove_keeps_contents(self@, id@, id@);
        }
        self.arena.remove(id.get());
    }

    /// The number of live elements.
    pub fn len(&self) -> (n: usize)
        requires
            self@.wf(),
        ensures
            n == self@.len(),
    {
        self.arena.len()
    }

    /// The contents of the slot at `id`, absent only when `id` names no
    /// slot. A removed element is still read until its slot is reused.
    pub fn get(&self, id: &FaceID) -> (r: Option<&V>)
        ensures
            r == match self@.get(id@) {
                Some(v) => Some(&v),
                None => None,
            },
    {
        self.arena.get(id.get())
    }

    /// The slot at `id`, for writing; absent only when `id` names no slot.
    /// Whatever the caller leaves in the slot becomes its contents.
    pub fn get_mut(&mut self, id: &FaceID) -> (r: Option<&mut V>)
        ensures
            match r {
                Some(slot) => {
                    &&& old(self)@.get(id@) == Some(*slot)
                    &&& final(self)@ == old(self)@.with_slot(id@, *final(slot))
                },
                None => old(self)@.get(id@) is None && final(self)@ == old(self)@,
            },
    {
        self.arena.get_mut(id.get())
    }

    /// The identifiers of the live elements, in ascending order of index:
    /// each live element once, and nothing else.
    pub fn iter(&self) -> (ids: Vec<FaceID>)
        requires
            self@.wf(),
        ensures
            ids@.map_values(|id: FaceID| id@) == self@.live_ids(),
            ids@.len() == self@.len(),
            ids@.no_duplicates(),
            forall|id: FaceID| ids@.contains(id) <==> self@.is_live(id@),
    {
        let raw: Vec<u32> = self.arena.iter();
        let mut ids: Vec<FaceID> = Vec::new();
        let mut k: usize = 0;
        while k < raw.len()
            invariant
                k <= raw@.len(),
                ids@.len() == k,
                forall|j: int| 0 <= j < k ==> (#[trigger] ids@[j])@ == raw@[j],
            decreases raw@.len() - k,
        {
            ids.push(FaceID::new(raw[k]));
            k += 1;
        }
        proof {
            law_live_ids_exact(self@);
            assert(ids@.map_values(|id: FaceID| id@) =~= raw@);
            assert forall|id: FaceID| ids@.contains(id) <==> self@.is_live(id@) by {
                if ids@.contains(id) {
                    let j = choose|j: int| 0 <= j < ids@.len() && ids@[j] == id;
                    assert(raw@[j] == id@);
                }
                if self@.is_live(id@) {
                    let j = choose|j: int| 0 <= j < raw@.len() && raw@[j] == id@;
                    FaceID::lemma_eq_by_index(ids@[j], id);
                }
            }
        }
        ids
    }
}

} // verus!
