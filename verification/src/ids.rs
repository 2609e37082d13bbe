//! Identifiers of the three kinds of mesh element.
//!
//! An identifier wraps a 32-bit index and nothing else: two identifiers of
//! one kind are equal exactly when their indices are.

use vstd::prelude::*;

verus! {

/// Identifier of a vertex.
#[derive(Clone, Copy, Debug, PartialEq, Eq, Hash, Structural)]
pub struct VertexID {
    val: u32,
}

/// Identifier of a half-edge.
#[derive(Clone, Copy, Debug, PartialEq, Eq, Hash, Structural)]
pub struct HalfEdgeID {
    val: u32,
}

/// Identifier of a face.
#[derive(Clone, Copy, Debug, PartialEq, Eq, Hash, Structural)]
pub struct FaceID {
    val: u32,
}

impl View for VertexID {
    type V = u32;

    /// The wrapped index.
    closed spec fn view(&self) -> u32 {
        self.val
    }
}

impl View for HalfEdgeID {
    type V = u32;

    /// The wrapped index.
    closed spec fn view(&self) -> u32 {
        self.val
    }
}

impl View for FaceID {
    type V = u32;

    /// The wrapped index.
    closed spec fn view(&self) -> u32 {
        self.val
    }
}

impl VertexID {
    /// Wraps a raw index.
    pub fn new(val: u32) -> (id: Self)
        ensures
            id@ == val,
    {
        VertexID { val }
    }

    /// The raw index.
    pub fn get(&self) -> (val: u32)
        ensures
            val == self@,
    {
        self.val
    }

    /// Identifiers are equal exactly when their indices are.
    pub proof fn lemma_eq_by_index(a: Self, b: Self)
        ensures
            a == b <==> a@ == b@,
    {
    }
}

impl HalfEdgeID {
    /// Wraps a raw index.
    pub fn new(val: u32) -> (id: Self)
        ensures
            id@ == val,
    {
        HalfEdgeID { val }
    }

    /// The raw index.
    pub fn get(&self) -> (val: u32)
        ensures
            val == self@,
    {
        self.val
    }

    /// Identifiers are equal exactly when their indices are.
    pub proof fn lemma_eq_by_index(a: Self, b: Self)
        ensures
            a == b <==> a@ == b@,
    {
    }
}

impl FaceID {
    /// Wraps a raw index.
    pub fn new(val: u32) -> (id: Self)
        ensures
            id@ == val,
    {
        FaceID { val }
    }

    /// The raw index.
    pub fn get(&self) -> (val: u32)
        ensures
            val == self@,
    {
        self.val
    }

    /// Identifiers are equal exactly when their indices are.
    pub proof fn lemma_eq_by_index(a: Self, b: Self)
        ensures
            a == b <==> a@ == b@,
    {
    }
}

} // verus!
