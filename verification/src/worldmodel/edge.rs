//! Concept-graph edges. A relation is itself a node (`Some(id)`); `None`
//! is a raw, untyped association.

use vstd::prelude::*;
use crate::ids::{AlynxisId, uuid_parsed, parsed_id, parse_stored_id, is_random_uuid};
use crate::worldmodel::error::WorldModelError;
use crate::clock::now_unix;

verus! {

/// An edge from `source` to `target`, typed by the relation node, with a
/// strength that counts how often the association was observed.
#[derive(Debug, Clone, Copy, PartialEq, Eq, Structural)]
pub struct Edge {
    pub id: AlynxisId,
    pub source: AlynxisId,
    pub target: AlynxisId,
    /// `Some(node)`: the relation reified as a concept node. `None`: untyped.
    pub relation: Option<AlynxisId>,
    /// Strength: 1 on creation, one more per reinforcement.
    pub weight: u64,
    pub created_at_unix: u64,
    pub last_touched_unix: u64,
}

impl Edge {
    /// A new edge with a fresh random (version-4 UUID) id and strength 1, created and last
    /// touched at the same current time.
    pub fn new(source: AlynxisId, target: AlynxisId, relation: Option<AlynxisId>) -> (r: Self)
        ensures
            is_random_uuid(r.id.0),
            r.source == source,
            r.target == target,
            r.relation == relation,
            r.weight == 1,
            r.created_at_unix == r.last_touched_unix,
    {
        let now = now_unix();
        Edge { id: AlynxisId::new(), source, target, relation, weight: 1, created_at_unix: now, last_touched_unix: now }
    }

    /// The same association observed again: one more unit of strength
    /// (saturating at the largest `u64`) and a fresh last-touched time.
    pub fn reinforce(&mut self)
        ensures
            *final(self) == (Edge {
                weight: if old(self).weight < u64::MAX { (old(self).weight + 1) as u64 } else { u64::MAX },
                last_touched_unix: final(self).last_touched_unix,
                ..*old(self)
            }),
    {
        self.weight = self.weight.saturating_add(1);
        self.last_touched_unix = now_unix();
    }

    /// The edge that a stored row holds: each id text parsed, the integers
    /// as they are. `Ingestion` (with the parse message) when an id does
    /// not parse.
    pub fn from_columns(
        id: &str,
        source: &str,
        target: &str,
        relation: Option<&str>,
        weight: u64,
        created_at_unix: u64,
        last_touched_unix: u64,
    ) -> (r: Result<Edge, WorldModelError>)
        ensures
            r is Ok <==> uuid_parsed(id@) is Ok && uuid_parsed(source@) is Ok && uuid_parsed(target@) is Ok
                && (relation matches Some(t) ==> uuid_parsed(t@) is Ok),
            r matches Ok(e) ==> e == (Edge {
                id: parsed_id(id@),
                source: parsed_id(source@),
                target: parsed_id(target@),
                relation: match relation {
                    Some(t) => Some(parsed_id(t@)),
                    None => None,
                },
                weight: weight,
                created_at_unix: created_at_unix,
                last_touched_unix: last_touched_unix,
            }),
            r matches Err(e) ==> e is Ingestion,
    {
        let id = match parse_stored_id(id) {
            Ok(x) => x,
            Err(m) => {
                return Err(WorldModelError::Ingestion(m));
            },
        };
        let source = match parse_stored_id(source) {
            Ok(x) => x,
            Err(m) => {
                return Err(WorldModelError::Ingestion(m));
            },
        };
        let target = match parse_stored_id(target) {
            Ok(x) => x,
            Err(m) => {
                return Err(WorldModelError::Ingestion(m));
            },
        };
        let relation = match relation {
            Some(t) => match parse_stored_id(t) {
                Ok(x) => Some(x),
                Err(m) => {
                    return Err(WorldModelError::Ingestion(m));
                },
            },
            None => None,
        };
        Ok(Edge { id, source, target, relation, weight, created_at_unix, last_touched_unix })
    }

    /// Sets the last-touched time to the current time; nothing else changes.
    pub fn touch(&mut self)
        ensures
            *final(self) == (Edge { last_touched_unix: final(self).last_touched_unix, ..*old(self) }),
    {
        self.last_touched_unix = now_unix();
    }
}

} // verus!
