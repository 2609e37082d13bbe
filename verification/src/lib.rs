//! Index-addressed element stores for a half-edge mesh, and a map keyed by
//! values that reduce to one 32-bit word.
//!
//! Every store is a dense sequence of slots addressed by small identifiers;
//! a removed slot keeps its contents and is handed out again, most recently
//! freed first.

pub mod ids;
pub mod model;
pub mod arena;
pub mod trace;
pub mod element_maps;
pub mod keyed_map;
pub mod identity_hash;
