//! The storage layer of a compilation cache.
//!
//! An artifact bundle is written as one self-describing archive of named
//! streams and stored under an opaque key. The embedded transactional store is
//! driven by small protocols: each one says which engine call to make next and,
//! from what the engine answered, how the operation ends. The caller performs
//! the calls; the decisions are made, and proved, here.

pub mod errors;
pub mod cache;
