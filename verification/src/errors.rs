//! Error kinds of the counting engine.

use vstd::prelude::*;

verus! {

/// A durable-store write could not be carried out. The in-memory store only
/// runs out of identifiers, mirroring a storage layer whose key space is
/// exhausted; nothing is mutated when this is returned.
#[derive(Clone, Copy, PartialEq, Eq, Structural, Debug)]
pub struct StorageError;

/// A numeric amount did not fit a 32-bit signed integer, either while parsing
/// a digit run or while accumulating a total.
#[derive(Clone, Copy, PartialEq, Eq, Structural, Debug)]
pub struct FormatError;

/// A celebration reply could not be composed because a fragment set of the
/// template provider is empty.
#[derive(Clone, Copy, PartialEq, Eq, Structural, Debug)]
pub struct ConfigError;

/// The process-internal error kinds of one message's handling, as the engine
/// surfaces them. Usage mistakes are not here: they are ordinary replies.
#[derive(Clone, Copy, PartialEq, Eq, Structural, Debug)]
pub enum EngineError {
    /// A store write failed; processing of the message stops.
    Storage,
    /// A numeric parse or accumulation overflowed; processing stops.
    Format,
    /// The celebration templates are unusable; only the milestone reply
    /// is lost, the count update before it stands.
    Config,
}

} // verus!
