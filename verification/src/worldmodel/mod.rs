//! The concept graph: nodes, reified relations, the coarse category index,
//! and the concept-generalization ingestion rule.

pub mod edge;
pub mod error;
pub mod index;
pub mod ingestion;
pub mod laws;
pub mod node;
pub mod storage;
pub mod worldmodel;
