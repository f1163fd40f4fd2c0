//! Concept-graph nodes. A node has no "kind": its role comes from learned
//! structure and from reserved identity bindings only.

use vstd::prelude::*;
use crate::ids::{AlynxisId, uuid_parsed, parsed_id, parse_stored_id, is_random_uuid};
use crate::worldmodel::error::WorldModelError;
use crate::clock::now_unix;
use crate::text::{ascii_ci_eq, eq_ignore_ascii_case, copy_strings};

verus! {

/// The characters of each string of a list.
pub open spec fn label_views(v: Seq<String>) -> Seq<Seq<char>> {
    v.map_values(|s: String| s@)
}

/// The views of a list of nodes.
pub open spec fn node_views(v: Seq<Node>) -> Seq<NodeView> {
    v.map_values(|n: Node| n@)
}

/// A concept node.
#[derive(Debug)]
pub struct Node {
    pub id: AlynxisId,
    /// Zero or more textual labels / synonyms.
    pub labels: Vec<String>,
    /// An external identity this node stands for (such as the admin's).
    pub external_identity: Option<AlynxisId>,
    pub created_at_unix: u64,
    pub last_touched_unix: u64,
}

/// The mathematical content of a `Node`.
pub struct NodeView {
    pub id: AlynxisId,
    pub labels: Seq<Seq<char>>,
    pub external_identity: Option<AlynxisId>,
    pub created_at_unix: u64,
    pub last_touched_unix: u64,
}

impl View for Node {
    type V = NodeView;

    open spec fn view(&self) -> NodeView {
        NodeView {
            id: self.id,
            labels: label_views(self.labels@),
            external_identity: self.external_identity,
            created_at_unix: self.created_at_unix,
            last_touched_unix: self.last_touched_unix,
        }
    }
}

impl Clone for Node {
    fn clone(&self) -> (r: Self)
        ensures
            r@ == self@,
    {
        Node {
            id: self.id,
            labels: copy_strings(&self.labels),
            external_identity: self.external_identity,
            created_at_unix: self.created_at_unix,
            last_touched_unix: self.last_touched_unix,
        }
    }
}

impl Node {
    /// A new node with a fresh random (version-4 UUID) id, these labels, no external
    /// identity, created and last touched at the same current time.
    pub fn new(labels: Vec<String>) -> (r: Self)
        ensures
            is_random_uuid(r.id.0),
            r.labels@ == labels@,
            r.external_identity is None,
            r.created_at_unix == r.last_touched_unix,
    {
        let now = now_unix();
        Node { id: AlynxisId::new(), labels, external_identity: None, created_at_unix: now, last_touched_unix: now }
    }

    /// A new node with the given id and labels, no external identity,
    /// created and last touched at the same current time.
    pub fn with_id(id: AlynxisId, labels: Vec<String>) -> (r: Self)
        ensures
            r.id == id,
            r.labels@ == labels@,
            r.external_identity is None,
            r.created_at_unix == r.last_touched_unix,
    {
        let now = now_unix();
        Node { id, labels, external_identity: None, created_at_unix: now, last_touched_unix: now }
    }

    /// The node that a stored row and its labels hold: each id text
    /// parsed, the labels and integers as they are. `Ingestion` (with the
    /// parse message) when an id does not parse.
    pub fn from_columns(
        id: &str,
        labels: Vec<String>,
        external_identity: Option<&str>,
        created_at_unix: u64,
        last_touched_unix: u64,
    ) -> (r: Result<Node, WorldModelError>)
        ensures
            r is Ok <==> uuid_parsed(id@) is Ok && (external_identity matches Some(t) ==> uuid_parsed(t@) is Ok),
            r matches Ok(n) ==> {
                &&& n.id == parsed_id(id@)
                &&& n.labels@ == labels@
                &&& n.external_identity == (match external_identity {
                    Some(t) => Some(parsed_id(t@)),
                    None => None,
                })
                &&& n.created_at_unix == created_at_unix
                &&& n.last_touched_unix == last_touched_unix
            },
            r matches Err(e) ==> e is Ingestion,
    {
        let id = match parse_stored_id(id) {
            Ok(x) => x,
            Err(m) => {
                return Err(WorldModelError::Ingestion(m));
            },
        };
        let external_identity = match external_identity {
            Some(t) => match parse_stored_id(t) {
                Ok(x) => Some(x),
                Err(m) => {
                    return Err(WorldModelError::Ingestion(m));
                },
            },
            None => None,
        };
        Ok(Node { id, labels, external_identity, created_at_unix, last_touched_unix })
    }

    /// Sets the last-touched time to the current time; nothing else changes.
    pub fn touch(&mut self)
        ensures
            final(self)@ == (NodeView { last_touched_unix: final(self).last_touched_unix, ..old(self)@ }),
    {
        self.last_touched_unix = now_unix();
    }

    /// Whether one of the labels equals `label` up to ASCII case.
    pub fn has_label(&self, label: &str) -> (r: bool)
        ensures
            r == exists|i: int| 0 <= i < self.labels@.len() && ascii_ci_eq(#[trigger] self.labels@[i]@, label@),
    {
        let mut i: usize = 0;
        while i < self.labels.len()
            invariant
                i <= self.labels.len(),
                forall|k: int| 0 <= k < i ==> !ascii_ci_eq(#[trigger] self.labels@[k]@, label@),
            decreases self.labels.len() - i,
        {
            if eq_ignore_ascii_case(self.labels[i].as_str(), label) {
                assert(ascii_ci_eq(self.labels@[i as int]@, label@));
                return true;
            }
            i = i + 1;
        }
        false
    }
}

} // verus!
