//! The identity hash: the digest of a key is its 32-bit word, unmixed.
//!
//! The hasher takes one kind of input, a single 32-bit word, and has no
//! path for general bytes.

use vstd::prelude::*;

verus! {

/// A hasher whose digest is the last 32-bit word written to it.
#[derive(Clone)]
pub struct PrimitiveIdHasher {
    value: u64,
}

impl View for PrimitiveIdHasher {
    type V = u64;

    /// The digest that the hasher would give now.
    closed spec fn view(&self) -> u64 {
        self.value
    }
}

impl Default for PrimitiveIdHasher {
    /// A hasher that nothing was written to; its digest is zero.
    fn default() -> (h: Self)
        ensures
            h@ == 0,
    {
        PrimitiveIdHasher { value: 0 }
    }
}

impl PrimitiveIdHasher {
    /// The digest: the last word written, or zero if none was.
    pub fn finish(&self) -> (digest: u64)
        ensures
            digest == self@,
    {
        self.value
    }

    /// Takes `i`, verbatim, as the whole digest.
    pub fn write_u32(&mut self, i: u32)
        ensures
            final(self)@ == i,
    {
        self.value = i as u64;
    }
}

} // verus!
