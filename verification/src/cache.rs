//! Cache entries, their archive format, and the backends that store them.

pub mod archive;
pub mod engine;
pub mod entry;
pub mod lmdb;
pub mod model;

pub use self::entry::{Cache, CacheRead, CacheWrite};
