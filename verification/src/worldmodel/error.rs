//! Errors of the concept graph.

use vstd::prelude::*;

verus! {

/// What can go wrong in the concept graph.
#[derive(Debug)]
pub enum WorldModelError {
    /// No node has this id (the id's UUID text).
    NodeNotFound(String),
    /// No edge has this id (the id's UUID text).
    EdgeNotFound(String),
    /// A key or reference rule of the tables was broken (duplicate id, or an
    /// edge whose endpoint is not a stored node).
    Constraint(String),
    /// Stored data could not be read back (for example an id that does not
    /// parse).
    Ingestion(String),
}

} // verus!
