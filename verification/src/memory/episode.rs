//! Episodic memory records: "this happened to me", with an objective
//! machine timestamp and the concept-graph nodes and edges involved.

use vstd::prelude::*;
use crate::ids::AlynxisId;
use crate::clock::{now_millis, now_unix};

verus! {

/// Which storage tier currently holds an episode.
#[derive(Debug, Clone, Copy, PartialEq, Eq, Hash, Structural)]
pub enum MemoryTier {
    /// Recently formed, actively relevant.
    Episodic,
    /// Demoted: low retention priority.
    Cold,
}

/// The nodes an ingestion touched, as an episode refers to them: the
/// subject, the object, then the relation node if there is one.
pub fn ingestion_node_refs(subject: AlynxisId, relation: Option<AlynxisId>, object: AlynxisId) -> (r: Vec<AlynxisId>)
    ensures
        r@ == (match relation {
            None => seq![subject, object],
            Some(x) => seq![subject, object, x],
        }),
{
    let mut v: Vec<AlynxisId> = Vec::new();
    v.push(subject);
    v.push(object);
    if let Some(x) = relation {
        v.push(x);
    }
    v
}

/// A copy of a list of identifiers.
pub fn copy_ids(v: &Vec<AlynxisId>) -> (r: Vec<AlynxisId>)
    ensures
        r@ == v@,
{
    let mut r: Vec<AlynxisId> = Vec::new();
    let mut i: usize = 0;
    while i < v.len()
        invariant
            i <= v.len(),
            r@ == v@.take(i as int),
        decreases v.len() - i,
    {
        r.push(v[i]);
        i = i + 1;
        assert(r@ =~= v@.take(i as int));
    }
    assert(v@.take(v.len() as int) =~= v@);
    r
}

/// An episode.
#[derive(Debug)]
pub struct Episode {
    pub id: AlynxisId,
    pub experiencer: AlynxisId,
    pub timestamp_ms: u64,
    pub node_refs: Vec<AlynxisId>,
    pub edge_refs: Vec<AlynxisId>,
    pub tier: MemoryTier,
    pub last_touched_unix: u64,
}

/// The mathematical content of an `Episode`.
pub struct EpisodeView {
    pub id: AlynxisId,
    pub experiencer: AlynxisId,
    pub timestamp_ms: u64,
    pub node_refs: Seq<AlynxisId>,
    pub edge_refs: Seq<AlynxisId>,
    pub tier: MemoryTier,
    pub last_touched_unix: u64,
}

impl View for Episode {
    type V = EpisodeView;

    open spec fn view(&self) -> EpisodeView {
        EpisodeView {
            id: self.id,
            experiencer: self.experiencer,
            timestamp_ms: self.timestamp_ms,
            node_refs: self.node_refs@,
            edge_refs: self.edge_refs@,
            tier: self.tier,
            last_touched_unix: self.last_touched_unix,
        }
    }
}

impl Clone for Episode {
    fn clone(&self) -> (r: Self)
        ensures
            r@ == self@,
    {
        Episode {
            id: self.id,
            experiencer: self.experiencer,
            timestamp_ms: self.timestamp_ms,
            node_refs: copy_ids(&self.node_refs),
            edge_refs: copy_ids(&self.edge_refs),
            tier: self.tier,
            last_touched_unix: self.last_touched_unix,
        }
    }
}

impl Episode {
    /// A new episode in the episodic tier, with a fresh random id, the
    /// current time in milliseconds as its timestamp, and the current
    /// time in seconds as its last-touched time.
    pub fn new(experiencer: AlynxisId, node_refs: Vec<AlynxisId>, edge_refs: Vec<AlynxisId>) -> (r: Self)
        ensures
            r.experiencer == experiencer,
            r.node_refs@ == node_refs@,
            r.edge_refs@ == edge_refs@,
            r.tier == MemoryTier::Episodic,
    {
        Episode {
            id: AlynxisId::new(),
            experiencer,
            timestamp_ms: now_millis(),
            node_refs,
            edge_refs,
            tier: MemoryTier::Episodic,
            last_touched_unix: now_unix(),
        }
    }

    /// Sets the last-touched time to the current time; nothing else changes.
    pub fn touch(&mut self)
        ensures
            final(self)@ == (EpisodeView { last_touched_unix: final(self).last_touched_unix, ..old(self)@ }),
    {
        self.last_touched_unix = now_unix();
    }
}

} // verus!
