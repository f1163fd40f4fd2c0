//! The concept-graph facade. It bootstraps the self-concept node (found by
//! a reserved, deterministic id, never by a type tag) and binds the admin's
//! external identity to an agent node.

use vstd::prelude::*;
use crate::ids::{AlynxisId, uuid_new_v5, uuid_v5_bits};
use crate::worldmodel::node::{Node, NodeView};
use crate::worldmodel::edge::Edge;
use crate::worldmodel::error::WorldModelError;
use crate::worldmodel::storage::{
    Storage, GraphView, has_node, node_with_id, edge_with_id, opt_node_view, ids_with_label, norm,
    first_with_identity, first_identity_at, add_labels,
};
use crate::worldmodel::ingestion::{self, ingestion_of, opt_label, ingestion_stopped, statement_known};
use crate::worldmodel::laws::labels_in_normal_form;
use crate::worldmodel::index::{self, same_category, category_of};

verus! {

/// The reserved id of the self-concept node: the version-5 UUID of the name
/// `alynxis-self-concept-node` in the namespace UUID whose bits are 1.
pub open spec fn self_node_spec_id() -> AlynxisId {
    AlynxisId(uuid_v5_bits(1, "alynxis-self-concept-node"@))
}

/// The reserved id of the self-concept node.
pub fn self_node_reserved_id() -> (r: AlynxisId)
    ensures
        r == self_node_spec_id(),
{
    AlynxisId(uuid_new_v5(1, "alynxis-self-concept-node"))
}

/// `g1` is `g0` with the self-concept node present: unchanged if it was
/// already there, else with a bare self node (no labels, no external
/// identity) appended.
pub open spec fn self_bootstrapped(g0: GraphView, g1: GraphView) -> bool {
    if has_node(g0.nodes, self_node_spec_id()) {
        g1 == g0
    } else {
        &&& g1.edges == g0.edges
        &&& g1.nodes.len() == g0.nodes.len() + 1
        &&& g1.nodes == g0.nodes.push(NodeView {
            id: self_node_spec_id(),
            labels: Seq::empty(),
            external_identity: None,
            created_at_unix: g1.nodes.last().created_at_unix,
            last_touched_unix: g1.nodes.last().created_at_unix,
        })
    }
}

/// The concept graph.
pub struct WorldModel {
    storage: Storage,
}

impl View for WorldModel {
    type V = GraphView;

    closed spec fn view(&self) -> GraphView {
        self.storage@
    }
}

impl WorldModel {
    /// Well-formedness of the tables (see `GraphView::wf`).
    pub open spec fn wf(&self) -> bool {
        self@.wf()
    }

    /// A concept graph over existing tables, with the self-concept node
    /// bootstrapped. Never fails.
    pub fn from_storage(storage: Storage) -> (r: Result<WorldModel, WorldModelError>)
        requires
            storage.wf(),
        ensures
            r matches Ok(w) && w.wf() && self_bootstrapped(storage@, w@),
    {
        let mut wm = WorldModel { storage };
        match wm.bootstrap_self_node() {
            Ok(()) => Ok(wm),
            Err(e) => Err(e),
        }
    }

    /// An empty in-memory concept graph holding only the bare self-concept
    /// node. Never fails.
    pub fn open_in_memory() -> (r: Result<WorldModel, WorldModelError>)
        ensures
            r matches Ok(w) && w.wf() && w@.edges.len() == 0 && w@.nodes.len() == 1
                && w@.nodes[0].id == self_node_spec_id() && w@.nodes[0].labels.len() == 0
                && w@.nodes[0].external_identity is None,
    {
        let storage = match Storage::open_in_memory() {
            Ok(s) => s,
            Err(e) => {
                return Err(e);
            },
        };
        let r = WorldModel::from_storage(storage);
        proof {
            if r is Ok {
                let w = r->Ok_0;
                assert(!has_node(Seq::<NodeView>::empty(), self_node_spec_id()));
                assert(w@.nodes[0] == w@.nodes.last());
            }
        }
        r
    }

    /// Makes sure the self-concept node exists: adds a bare one (no labels,
    /// no external identity) if absent, else changes nothing. Never fails.
    pub fn bootstrap_self_node(&mut self) -> (r: Result<(), WorldModelError>)
        requires
            old(self).wf(),
        ensures
            final(self).wf(),
            r is Ok,
            self_bootstrapped(old(self)@, final(self)@),
    {
        let id = self_node_reserved_id();
        let existing = self.storage.get_node(id);
        match existing {
            Ok(Some(_)) => Ok(()),
            _ => {
                let node = Node::with_id(id, Vec::new());
                let r = self.storage.insert_node(&node);
                proof {
                    reveal_with_fuel(add_labels, 1);
                    assert(node@.labels =~= Seq::<Seq<char>>::empty());
                    assert(add_labels(Seq::empty(), node@.labels) =~= Seq::<Seq<char>>::empty());
                }
                r
            },
        }
    }

    /// The self-concept node's reserved id: the same for every graph.
    pub fn self_node_id(&self) -> (r: AlynxisId)
        ensures
            r == self_node_spec_id(),
    {
        self_node_reserved_id()
    }

    /// The agent node bound to `admin_identity_id`: the first node already
    /// bound to it, or else a new node without labels bound to it. Fails,
    /// changing nothing, only when the new node's random id is taken.
    pub fn bind_admin_identity(&mut self, admin_identity_id: AlynxisId) -> (r: Result<AlynxisId, WorldModelError>)
        requires
            old(self).wf(),
        ensures
            final(self).wf(),
            first_with_identity(old(self)@.nodes, admin_identity_id) matches Some(x) ==> r == Ok::<AlynxisId, WorldModelError>(x)
                && final(self)@ == old(self)@,
            first_with_identity(old(self)@.nodes, admin_identity_id) is None ==> (r matches Ok(id) ==> {
                &&& !has_node(old(self)@.nodes, id)
                &&& final(self)@.edges == old(self)@.edges
                &&& final(self)@.nodes.len() == old(self)@.nodes.len() + 1
                &&& final(self)@.nodes == old(self)@.nodes.push(NodeView {
                    id: id,
                    labels: Seq::empty(),
                    external_identity: Some(admin_identity_id),
                    created_at_unix: final(self)@.nodes.last().created_at_unix,
                    last_touched_unix: final(self)@.nodes.last().created_at_unix,
                })
            }),
            r matches Err(e) ==> e is Constraint && final(self)@ == old(self)@,
    {
        match self.storage.find_node_id_by_external_identity(admin_identity_id) {
            Ok(Some(existing)) => {
                return Ok(existing);
            },
            Ok(None) => {},
            Err(e) => {
                return Err(e);
            },
        }
        let mut node = Node::new(Vec::new());
        node.external_identity = Some(admin_identity_id);
        match self.storage.insert_node(&node) {
            Ok(()) => {
                proof {
                    assert(node@.labels =~= Seq::<Seq<char>>::empty());
                    assert(add_labels(Seq::empty(), node@.labels) =~= Seq::<Seq<char>>::empty());
                }
                Ok(node.id)
            },
            Err(e) => Err(e),
        }
    }

    /// Ingests "subject [relation] object" (see
    /// `ingestion::ingest_relation`): a statement already known, over
    /// tables whose labels are in normal form, is always ingested; an error
    /// comes only where a fresh id was drawn and taken.
    pub fn ingest_relation(&mut self, subject_label: &str, relation_label: Option<&str>, object_label: &str)
        -> (r: Result<(AlynxisId, Option<AlynxisId>, AlynxisId, AlynxisId), WorldModelError>)
        requires
            old(self).wf(),
        ensures
            final(self).wf(),
            r matches Ok((s, rel, o, e)) ==> ingestion_of(old(self)@, subject_label@, opt_label(relation_label),
                object_label@, s, rel, o, e, final(self)@),
            r matches Err(e) ==> e is Constraint && ingestion_stopped(old(self)@, subject_label@,
                opt_label(relation_label), object_label@, final(self)@),
            labels_in_normal_form(old(self)@.nodes) && statement_known(old(self)@, subject_label@,
                opt_label(relation_label), object_label@) ==> r is Ok,
    {
        ingestion::ingest_relation(&mut self.storage, subject_label, relation_label, object_label)
    }

    /// The node with this id, if any. Never fails.
    pub fn get_node(&self, id: AlynxisId) -> (r: Result<Option<Node>, WorldModelError>)
        requires
            self.wf(),
        ensures
            r matches Ok(o) && opt_node_view(o) == node_with_id(self@.nodes, id),
    {
        self.storage.get_node(id)
    }

    /// The edge with this id, if any. Never fails.
    pub fn get_edge(&self, id: AlynxisId) -> (r: Result<Option<Edge>, WorldModelError>)
        requires
            self.wf(),
        ensures
            r matches Ok(o) && o == edge_with_id(self@.edges, id),
    {
        self.storage.get_edge(id)
    }

    /// The nodes carrying `token` as a label (in normal form). Never fails.
    pub fn seed_nodes_for_token(&self, token: &str) -> (r: Result<Vec<AlynxisId>, WorldModelError>)
        ensures
            r matches Ok(v) && v@ == ids_with_label(self@.nodes, norm(token@)),
    {
        index::seed_nodes_for_token(&self.storage, token)
    }

    /// The other nodes sharing `node_id`'s dominant category: exactly the
    /// sources, other than `node_id`, of the edges carrying the category's
    /// relation into its target. Never fails.
    pub fn nodes_in_same_category(&self, node_id: AlynxisId) -> (r: Result<Vec<AlynxisId>, WorldModelError>)
        ensures
            r matches Ok(v) && v@ == same_category(self@, node_id),
            r matches Ok(v) && match category_of(self@, node_id) {
                None => v@.len() == 0,
                Some((rel, t)) => forall|x: AlynxisId| #[trigger] v@.contains(x) <==> exists|i: int|
                    0 <= i < self@.edges.len() && self@.edges[i].target == t && self@.edges[i].relation == Some(rel)
                        && self@.edges[i].source == x && x != node_id,
            },
    {
        index::nodes_in_same_category(&self.storage, node_id)
    }

    /// How many nodes there are. Never fails.
    pub fn node_count(&self) -> (r: Result<u64, WorldModelError>)
        ensures
            r matches Ok(n) && n == self@.nodes.len(),
    {
        self.storage.node_count()
    }

    /// How many edges there are. Never fails.
    pub fn edge_count(&self) -> (r: Result<u64, WorldModelError>)
        ensures
            r matches Ok(n) && n == self@.edges.len(),
    {
        self.storage.edge_count()
    }

    /// The tables behind this graph.
    pub fn storage(&self) -> (r: &Storage)
        ensures
            r@ == self@,
    {
        &self.storage
    }
}

} // verus!

verus! {

/// Bootstrapping the self-concept node is idempotent: afterwards the node
/// is there, and bootstrapping again changes nothing.
pub proof fn law_bootstrap_is_idempotent(g0: GraphView, g1: GraphView, g2: GraphView)
    requires
        self_bootstrapped(g0, g1),
        self_bootstrapped(g1, g2),
    ensures
        has_node(g1.nodes, self_node_spec_id()),
        g2 == g1,
{
    if !has_node(g0.nodes, self_node_spec_id()) {
        assert(g1.nodes[g0.nodes.len() as int].id == self_node_spec_id());
    }
}

} // verus!
