//! Episodic, procedural and cold memory behind one facade.

pub mod episode;
pub mod laws;
pub mod error;
pub mod memory_store;
pub mod procedural;
pub mod storage;
pub mod tiers;
