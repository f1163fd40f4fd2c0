//! Alynxis: the verified core of a brain-inspired concept graph, its
//! episodic/procedural memory tiers, the seeded value kinds, the admin
//! session rules and the configuration defaults.

pub mod clock;
pub mod ids;
pub mod memory;
pub mod text;
pub mod worldmodel;
pub mod config;
pub mod values;
pub mod admin;

pub use admin::{AdminCredentialStore, AdminIdentity, AdminSession, AlynxisError, StoredCredential};
pub use config::Config;
pub use ids::AlynxisId;
pub use memory::episode::{Episode, MemoryTier};
pub use memory::error::MemoryError;
pub use memory::memory_store::MemoryStore;
pub use memory::procedural::ProceduralPattern;
pub use values::{check_ceiling_lift, check_ceiling_lift_at, parse_value_kind, ValueKind, ValuesError};
pub use worldmodel::edge::Edge;
pub use worldmodel::error::WorldModelError;
pub use worldmodel::node::Node;
pub use worldmodel::worldmodel::WorldModel;
