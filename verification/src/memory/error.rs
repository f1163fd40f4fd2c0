//! Errors of the memory store.

use vstd::prelude::*;

verus! {

/// What can go wrong in the memory store.
#[derive(Debug)]
pub enum MemoryError {
    /// No episode has this id (the id's UUID text).
    EpisodeNotFound(String),
    /// No procedural pattern has this id (the id's UUID text).
    ProceduralPatternNotFound(String),
    /// Stored data could not be read back.
    Malformed(String),
    /// A record with the same primary key already exists.
    Constraint(String),
}

} // verus!
