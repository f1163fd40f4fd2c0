//! Procedural memory: the record that repeated episodes were consolidated
//! into a generalized pattern.

use vstd::prelude::*;
use crate::ids::{AlynxisId, is_random_uuid};
use crate::clock::now_unix;
use crate::memory::episode::copy_ids;

verus! {

/// A procedural pattern.
#[derive(Debug)]
pub struct ProceduralPattern {
    pub id: AlynxisId,
    /// The concept-graph node standing for this pattern, once one exists.
    pub schema_node_id: Option<AlynxisId>,
    /// The episodes consolidated into this pattern.
    pub source_episode_ids: Vec<AlynxisId>,
    pub created_at_unix: u64,
    pub last_touched_unix: u64,
}

/// The mathematical content of a `ProceduralPattern`.
pub struct PatternView {
    pub id: AlynxisId,
    pub schema_node_id: Option<AlynxisId>,
    pub source_episode_ids: Seq<AlynxisId>,
    pub created_at_unix: u64,
    pub last_touched_unix: u64,
}

impl View for ProceduralPattern {
    type V = PatternView;

    open spec fn view(&self) -> PatternView {
        PatternView {
            id: self.id,
            schema_node_id: self.schema_node_id,
            source_episode_ids: self.source_episode_ids@,
            created_at_unix: self.created_at_unix,
            last_touched_unix: self.last_touched_unix,
        }
    }
}

impl Clone for ProceduralPattern {
    fn clone(&self) -> (r: Self)
        ensures
            r@ == self@,
    {
        ProceduralPattern {
            id: self.id,
            schema_node_id: self.schema_node_id,
            source_episode_ids: copy_ids(&self.source_episode_ids),
            created_at_unix: self.created_at_unix,
            last_touched_unix: self.last_touched_unix,
        }
    }
}

impl ProceduralPattern {
    /// A new pattern with a fresh random id (a version-4 UUID), no schema
    /// node and no source episodes; created and last-touched at the same
    /// current time.
    pub fn new() -> (r: Self)
        ensures
            is_random_uuid(r.id.0),
            r.schema_node_id is None,
            r.source_episode_ids@.len() == 0,
            r.created_at_unix == r.last_touched_unix,
    {
        let now = now_unix();
        ProceduralPattern {
            id: AlynxisId::new(),
            schema_node_id: None,
            source_episode_ids: Vec::new(),
            created_at_unix: now,
            last_touched_unix: now,
        }
    }

    /// Sets the last-touched time to the current time; nothing else changes.
    pub fn touch(&mut self)
        ensures
            final(self)@ == (PatternView { last_touched_unix: final(self).last_touched_unix, ..old(self)@ }),
    {
        self.last_touched_unix = now_unix();
    }
}

impl Default for ProceduralPattern {
    fn default() -> (r: Self)
        ensures
            r.schema_node_id is None,
            r.source_episode_ids@.len() == 0,
            r.created_at_unix == r.last_touched_unix,
    {
        ProceduralPattern::new()
    }
}

} // verus!
