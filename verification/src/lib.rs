//! An ordered key-value container that keeps entries in exact insertion
//! order and allows several entries to share one key.
//!
//! Lookup and removal scan linearly from the front and act on the first
//! entry whose key compares equal; iteration and encoding reflect the
//! insertion sequence verbatim, duplicates included.

pub mod laws;
pub mod map;

pub use crate::map::FakeMap;
