//! The errors that cache operations return.

use vstd::prelude::*;

verus! {

/// Why bytes are not an archive, or why a bundle has no archive.
#[derive(Debug, Clone, Copy, PartialEq, Eq, Structural)]
pub enum CodecError {
    /// The buffer does not start with the archive tag.
    BadMagic,
    /// The buffer ends inside the header or inside a stream.
    Truncated,
    /// Bytes are left after the last stream.
    TrailingBytes,
    /// A stream's name is not UTF-8.
    InvalidName,
    /// Two streams have the same name.
    DuplicateName,
    /// The bundle has no stream of the name asked for.
    NoSuchStream,
    /// The archive would be longer than a buffer can be.
    TooLarge,
}

/// A failure that the storage engine reported, by the engine's own code.
#[derive(Debug, Clone, Copy, PartialEq, Eq, Structural)]
pub struct EngineError {
    pub code: i32,
}

/// The one error type of every cache operation.
#[derive(Debug, Clone, Copy, PartialEq, Eq, Structural)]
pub enum Error {
    /// The store could not be opened.
    Open(EngineError),
    /// A read or a write could not complete.
    Transaction(EngineError),
    /// An entry could not be encoded, or stored bytes are not an entry.
    Codec(CodecError),
}

} // verus!
