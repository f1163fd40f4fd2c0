//! The tables of the concept graph: nodes (with their normalized label
//! sets) and edges, each keyed by a unique id, every edge pointing at
//! stored nodes.

use vstd::prelude::*;
use crate::ids::{AlynxisId, uuid_text};
use crate::text::{owned, trim, to_lowercase, trimmed, lowercased};
use crate::worldmodel::node::{Node, NodeView, label_views, node_views};
use crate::worldmodel::edge::Edge;
use crate::worldmodel::error::WorldModelError;

verus! {

/// The normal form under which labels are stored and looked up: trimmed,
/// then lowercased.
pub open spec fn norm(s: Seq<char>) -> Seq<char> {
    lowercased(trimmed(s))
}

/// `acc` extended by the normal form of each label of `ls` in turn, each
/// added only if not already present.
pub open spec fn add_labels(acc: Seq<Seq<char>>, ls: Seq<Seq<char>>) -> Seq<Seq<char>>
    decreases ls.len(),
{
    if ls.len() == 0 {
        acc
    } else {
        let a = add_labels(acc, ls.drop_last());
        let n = norm(ls.last());
        if a.contains(n) { a } else { a.push(n) }
    }
}

/// Whether some node of `s` has id `id`.
pub open spec fn has_node(s: Seq<NodeView>, id: AlynxisId) -> bool {
    exists|i: int| 0 <= i < s.len() && s[i].id == id
}

/// The node of `s` with id `id`, if any.
pub open spec fn node_with_id(s: Seq<NodeView>, id: AlynxisId) -> Option<NodeView> {
    if has_node(s, id) {
        Some(s[choose|i: int| 0 <= i < s.len() && s[i].id == id])
    } else {
        None
    }
}

/// Whether some edge of `s` has id `id`.
pub open spec fn has_edge(s: Seq<Edge>, id: AlynxisId) -> bool {
    exists|i: int| 0 <= i < s.len() && s[i].id == id
}

/// The edge of `s` with id `id`, if any.
pub open spec fn edge_with_id(s: Seq<Edge>, id: AlynxisId) -> Option<Edge> {
    if has_edge(s, id) {
        Some(s[choose|i: int| 0 <= i < s.len() && s[i].id == id])
    } else {
        None
    }
}

/// The ids of the nodes of `s` whose label set holds `n`, in table order.
pub open spec fn ids_with_label(s: Seq<NodeView>, n: Seq<char>) -> Seq<AlynxisId>
    decreases s.len(),
{
    if s.len() == 0 {
        Seq::empty()
    } else if s.last().labels.contains(n) {
        ids_with_label(s.drop_last(), n).push(s.last().id)
    } else {
        ids_with_label(s.drop_last(), n)
    }
}

/// Index `i` is the first node of `s` bound to external identity `x`.
pub open spec fn first_identity_at(s: Seq<NodeView>, x: AlynxisId, i: int) -> bool {
    &&& 0 <= i < s.len()
    &&& s[i].external_identity == Some(x)
    &&& forall|k: int| 0 <= k < i ==> s[k].external_identity != Some(x)
}

/// The id of the first node of `s` bound to external identity `x`, if any.
pub open spec fn first_with_identity(s: Seq<NodeView>, x: AlynxisId) -> Option<AlynxisId> {
    if exists|i: int| first_identity_at(s, x, i) {
        Some(s[choose|i: int| first_identity_at(s, x, i)].id)
    } else {
        None
    }
}

/// Which column an edge query matches on.
pub enum EdgeKey {
    Source,
    Target,
    Relation,
}

/// Whether edge `e` has `x` in the column `k`.
pub open spec fn key_matches(e: Edge, k: EdgeKey, x: AlynxisId) -> bool {
    match k {
        EdgeKey::Source => e.source == x,
        EdgeKey::Target => e.target == x,
        EdgeKey::Relation => e.relation == Some(x),
    }
}

/// The edges of `s` with `x` in column `k`, in table order.
pub open spec fn edges_with_key(s: Seq<Edge>, k: EdgeKey, x: AlynxisId) -> Seq<Edge>
    decreases s.len(),
{
    if s.len() == 0 {
        Seq::empty()
    } else if key_matches(s.last(), k, x) {
        edges_with_key(s.drop_last(), k, x).push(s.last())
    } else {
        edges_with_key(s.drop_last(), k, x)
    }
}

/// Whether edge `e` joins `source` to `target` with relation `relation`.
pub open spec fn is_triple(e: Edge, source: AlynxisId, target: AlynxisId, relation: Option<AlynxisId>) -> bool {
    e.source == source && e.target == target && e.relation == relation
}

/// Index `i` is the first edge of `s` with this triple.
pub open spec fn first_triple_at(s: Seq<Edge>, source: AlynxisId, target: AlynxisId, relation: Option<AlynxisId>, i: int) -> bool {
    &&& 0 <= i < s.len()
    &&& is_triple(s[i], source, target, relation)
    &&& forall|k: int| 0 <= k < i ==> !is_triple(s[k], source, target, relation)
}

/// The first edge of `s` with this triple, if any.
pub open spec fn first_triple(s: Seq<Edge>, source: AlynxisId, target: AlynxisId, relation: Option<AlynxisId>) -> Option<Edge> {
    if exists|i: int| first_triple_at(s, source, target, relation, i) {
        Some(s[choose|i: int| first_triple_at(s, source, target, relation, i)])
    } else {
        None
    }
}

/// The view of an optional node.
pub open spec fn opt_node_view(o: Option<Node>) -> Option<NodeView> {
    match o {
        Some(n) => Some(n@),
        None => None,
    }
}

/// The contents of the concept-graph tables.
pub struct GraphView {
    pub nodes: Seq<NodeView>,
    pub edges: Seq<Edge>,
}

impl GraphView {
    /// Unique node ids, unique edge ids, every edge's endpoints stored, and
    /// no label twice on a node.
    pub open spec fn wf(self) -> bool {
        &&& forall|i: int, j: int| 0 <= i < self.nodes.len() && 0 <= j < self.nodes.len() && i != j
            ==> self.nodes[i].id != self.nodes[j].id
        &&& forall|i: int, j: int| 0 <= i < self.edges.len() && 0 <= j < self.edges.len() && i != j
            ==> self.edges[i].id != self.edges[j].id
        &&& forall|i: int| 0 <= i < self.edges.len() ==> has_node(self.nodes, #[trigger] self.edges[i].source)
            && has_node(self.nodes, self.edges[i].target)
        &&& forall|i: int| 0 <= i < self.nodes.len() ==> (#[trigger] self.nodes[i]).labels.no_duplicates()
    }
}

/// Adding labels keeps a duplicate-free label list duplicate-free and
/// keeps every label already there.
pub proof fn lemma_add_labels(acc: Seq<Seq<char>>, ls: Seq<Seq<char>>)
    ensures
        acc.no_duplicates() ==> add_labels(acc, ls).no_duplicates(),
        forall|l: Seq<char>| acc.contains(l) ==> add_labels(acc, ls).contains(l),
        add_labels(acc, ls).len() >= acc.len(),
        forall|k: int| 0 <= k < acc.len() ==> add_labels(acc, ls)[k] == acc[k],
    decreases ls.len(),
{
    if ls.len() > 0 {
        lemma_add_labels(acc, ls.drop_last());
        let a = add_labels(acc, ls.drop_last());
        let n = norm(ls.last());
        if !a.contains(n) {
            assert forall|l: Seq<char>| a.contains(l) implies a.push(n).contains(l) by {
                let i = choose|i: int| 0 <= i < a.len() && a[i] == l;
                assert(a.push(n)[i] == l);
            }
        }
    }
}

/// The text of `label` in the form labels are stored and looked up in:
/// trimmed, then lowercased.
pub fn normalize_label(label: &str) -> (r: String)
    ensures
        r@ == norm(label@),
{
    let t = trim(label);
    to_lowercase(t.as_str())
}

fn labels_contain(ls: &Vec<String>, n: &String) -> (r: bool)
    ensures
        r == label_views(ls@).contains(n@),
{
    let mut i: usize = 0;
    while i < ls.len()
        invariant
            i <= ls.len(),
            forall|k: int| 0 <= k < i ==> ls@[k]@ != n@,
        decreases ls.len() - i,
    {
        if ls[i] == *n {
            assert(label_views(ls@)[i as int] == n@);
            return true;
        }
        i = i + 1;
    }
    proof {
        if label_views(ls@).contains(n@) {
            let k = choose|k: int| 0 <= k < label_views(ls@).len() && label_views(ls@)[k] == n@;
            assert(ls@[k]@ == n@);
        }
    }
    false
}

fn add_labels_exec(acc: &mut Vec<String>, ls: &Vec<String>)
    ensures
        label_views(final(acc)@) == add_labels(label_views(old(acc)@), label_views(ls@)),
{
    let ghost a0 = label_views(acc@);
    let mut i: usize = 0;
    proof { assert(label_views(ls@).take(0) =~= Seq::<Seq<char>>::empty()); }
    while i < ls.len()
        invariant
            i <= ls.len(),
            label_views(acc@) == add_labels(a0, label_views(ls@).take(i as int)),
        decreases ls.len() - i,
    {
        let n = normalize_label(ls[i].as_str());
        let ghost before = label_views(acc@);
        proof {
            let t = label_views(ls@).take(i as int + 1);
            assert(t.drop_last() =~= label_views(ls@).take(i as int));
            assert(t.last() == ls@[i as int]@);
        }
        if !labels_contain(acc, &n) {
            acc.push(n);
            proof { assert(label_views(acc@) =~= before.push(norm(ls@[i as int]@))); }
        }
        i = i + 1;
    }
    proof { assert(label_views(ls@).take(ls.len() as int) =~= label_views(ls@)); }
}

/// The concept-graph tables.
pub struct Storage {
    nodes: Vec<Node>,
    edges: Vec<Edge>,
}

impl View for Storage {
    type V = GraphView;

    closed spec fn view(&self) -> GraphView {
        GraphView { nodes: node_views(self.nodes@), edges: self.edges@ }
    }
}

impl Storage {
    /// Well-formedness: see `GraphView::wf`.
    pub open spec fn wf(&self) -> bool {
        self@.wf()
    }

    /// Empty tables. Never fails.
    pub fn open_in_memory() -> (r: Result<Storage, WorldModelError>)
        ensures
            r matches Ok(s) && s.wf() && s@.nodes.len() == 0 && s@.edges.len() == 0,
    {
        let s = Storage { nodes: Vec::new(), edges: Vec::new() };
        assert(s@.nodes =~= Seq::<NodeView>::empty());
        Ok(s)
    }

    fn find_node(&self, id: AlynxisId) -> (r: Option<usize>)
        ensures
            match r {
                Some(i) => i < self@.nodes.len() && self@.nodes[i as int].id == id,
                None => !has_node(self@.nodes, id),
            },
    {
        let mut i: usize = 0;
        while i < self.nodes.len()
            invariant
                i <= self.nodes.len(),
                self@.nodes.len() == self.nodes.len(),
                forall|k: int| 0 <= k < i ==> self@.nodes[k].id != id,
            decreases self.nodes.len() - i,
        {
            proof { assert(self@.nodes[i as int] == self.nodes@[i as int]@); }
            if self.nodes[i].id == id {
                return Some(i);
            }
            i = i + 1;
        }
        None
    }

    fn find_edge(&self, id: AlynxisId) -> (r: Option<usize>)
        ensures
            match r {
                Some(i) => i < self@.edges.len() && self@.edges[i as int].id == id,
                None => !has_edge(self@.edges, id),
            },
    {
        let mut i: usize = 0;
        while i < self.edges.len()
            invariant
                i <= self.edges.len(),
                forall|k: int| 0 <= k < i ==> self@.edges[k].id != id,
            decreases self.edges.len() - i,
        {
            if self.edges[i].id == id {
                return Some(i);
            }
            i = i + 1;
        }
        None
    }

    /// Stores a copy of `node` with its labels normalized and without
    /// repeats. Fails, changing nothing, when a node with the same id exists.
    pub fn insert_node(&mut self, node: &Node) -> (r: Result<(), WorldModelError>)
        requires
            old(self).wf(),
        ensures
            final(self).wf(),
            final(self)@.edges == old(self)@.edges,
            r is Ok <==> !has_node(old(self)@.nodes, node.id),
            r is Ok ==> final(self)@.nodes == old(self)@.nodes.push(
                NodeView { labels: add_labels(Seq::empty(), node@.labels), ..node@ }),
            r matches Err(e) ==> e is Constraint && final(self)@ == old(self)@,
    {
        if self.find_node(node.id).is_some() {
            return Err(WorldModelError::Constraint(owned("UNIQUE constraint failed: nodes.id")));
        }
        let mut labels: Vec<String> = Vec::new();
        add_labels_exec(&mut labels, &node.labels);
        proof {
            assert(label_views(Seq::<String>::empty()) =~= Seq::<Seq<char>>::empty());
            lemma_add_labels(Seq::empty(), node@.labels);
        }
        let stored = Node {
            id: node.id,
            labels,
            external_identity: node.external_identity,
            created_at_unix: node.created_at_unix,
            last_touched_unix: node.last_touched_unix,
        };
        let ghost s = self@.nodes;
        self.nodes.push(stored);
        proof {
            let t = self@.nodes;
            assert(t =~= s.push(stored@));
            assert forall|i: int, j: int| 0 <= i < t.len() && 0 <= j < t.len() && i != j implies t[i].id != t[j].id by {
                if i < s.len() && j < s.len() {
                    assert(t[i] == s[i] && t[j] == s[j]);
                } else if i < s.len() {
                    assert(t[i] == s[i]);
                } else {
                    assert(t[j] == s[j]);
                }
            }
            assert forall|i: int| 0 <= i < self@.edges.len() implies has_node(t, #[trigger] self@.edges[i].source)
                && has_node(t, self@.edges[i].target) by {
                let a = choose|k: int| 0 <= k < s.len() && s[k].id == self@.edges[i].source;
                let b = choose|k: int| 0 <= k < s.len() && s[k].id == self@.edges[i].target;
                assert(t[a] == s[a] && t[b] == s[b]);
            }
            assert forall|i: int| 0 <= i < t.len() implies (#[trigger] t[i]).labels.no_duplicates() by {
                if i < s.len() {
                    assert(t[i] == s[i]);
                }
            }
        }
        Ok(())
    }

    /// Writes `node`'s external identity and last-touched time into the
    /// stored node with its id (creation time kept) and adds those of its
    /// labels (normalized) that the node lacks; no label is removed. Fails
    /// with `NodeNotFound` (carrying the id's text), changing nothing, when
    /// no node has that id.
    pub fn update_node(&mut self, node: &Node) -> (r: Result<(), WorldModelError>)
        requires
            old(self).wf(),
        ensures
            final(self).wf(),
            final(self)@.edges == old(self)@.edges,
            r is Ok <==> has_node(old(self)@.nodes, node.id),
            r matches Err(e) ==> e matches WorldModelError::NodeNotFound(s) && s@ == uuid_text(node.id.0)
                && final(self)@ == old(self)@,
            r is Ok ==> final(self)@.nodes.len() == old(self)@.nodes.len(),
            r is Ok ==> forall|k: int| 0 <= k < old(self)@.nodes.len() ==> #[trigger] final(self)@.nodes[k] == (
                if old(self)@.nodes[k].id == node.id {
                    NodeView {
                        labels: add_labels(old(self)@.nodes[k].labels, node@.labels),
                        external_identity: node.external_identity,
                        last_touched_unix: node.last_touched_unix,
                        ..old(self)@.nodes[k]
                    }
                } else {
                    old(self)@.nodes[k]
                }),
    {
        match self.find_node(node.id) {
            None => Err(WorldModelError::NodeNotFound(node.id.to_string())),
            Some(i) => {
                let ghost s = self@.nodes;
                let mut stored = self.nodes[i].clone();
                proof { assert(stored@ == s[i as int]); }
                add_labels_exec(&mut stored.labels, &node.labels);
                stored.external_identity = node.external_identity;
                stored.last_touched_unix = node.last_touched_unix;
                proof { lemma_add_labels(s[i as int].labels, node@.labels); }
                self.nodes.set(i, stored);
                proof {
                    let t = self@.nodes;
                    assert forall|k: int| 0 <= k < s.len() implies #[trigger] t[k] == (
                        if s[k].id == node.id {
                            NodeView {
                                labels: add_labels(s[k].labels, node@.labels),
                                external_identity: node.external_identity,
                                last_touched_unix: node.last_touched_unix,
                                ..s[k]
                            }
                        } else {
                            s[k]
                        }) by {
                        if k != i {
                            assert(s[k].id != s[i as int].id);
                        }
                    }
                    assert forall|a: int, b: int| 0 <= a < t.len() && 0 <= b < t.len() && a != b implies t[a].id != t[b].id by {
                        assert(s[a].id != s[b].id);
                    }
                    assert forall|e: int| 0 <= e < self@.edges.len() implies has_node(t, #[trigger] self@.edges[e].source)
                        && has_node(t, self@.edges[e].target) by {
                        let a = choose|k: int| 0 <= k < s.len() && s[k].id == self@.edges[e].source;
                        let b = choose|k: int| 0 <= k < s.len() && s[k].id == self@.edges[e].target;
                        assert(t[a].id == s[a].id && t[b].id == s[b].id);
                    }
                    assert forall|a: int| 0 <= a < t.len() implies (#[trigger] t[a]).labels.no_duplicates() by {
                        if a != i {
                            assert(t[a] == s[a]);
                        }
                    }
                }
                Ok(())
            },
        }
    }

    /// A copy of the node with this id (labels as stored), if any. Never
    /// fails.
    pub fn get_node(&self, id: AlynxisId) -> (r: Result<Option<Node>, WorldModelError>)
        requires
            self.wf(),
        ensures
            r matches Ok(o) && opt_node_view(o) == node_with_id(self@.nodes, id),
    {
        match self.find_node(id) {
            None => Ok(None),
            Some(i) => {
                let n = self.nodes[i].clone();
                proof {
                    let s = self@.nodes;
                    assert(has_node(s, id));
                    let c = choose|j: int| 0 <= j < s.len() && s[j].id == id;
                    assert(c == i);
                }
                Ok(Some(n))
            },
        }
    }

    /// The ids of the nodes carrying `label` (compared in normal form), in
    /// table order. Never fails.
    pub fn find_node_ids_by_label(&self, label: &str) -> (r: Result<Vec<AlynxisId>, WorldModelError>)
        ensures
            r matches Ok(v) && v@ == ids_with_label(self@.nodes, norm(label@)),
    {
        let n = normalize_label(label);
        let ghost s = self@.nodes;
        let mut ids: Vec<AlynxisId> = Vec::new();
        let mut i: usize = 0;
        while i < self.nodes.len()
            invariant
                i <= self.nodes.len(),
                s == self@.nodes,
                s.len() == self.nodes.len(),
                n@ == norm(label@),
                ids@ == ids_with_label(s.take(i as int), n@),
            decreases self.nodes.len() - i,
        {
            proof {
                let t = s.take(i as int + 1);
                assert(t.drop_last() =~= s.take(i as int));
                assert(t.last() == s[i as int]);
                assert(s[i as int] == self.nodes@[i as int]@);
            }
            if labels_contain(&self.nodes[i].labels, &n) {
                ids.push(self.nodes[i].id);
            }
            i = i + 1;
        }
        proof { assert(s.take(s.len() as int) =~= s); }
        Ok(ids)
    }

    /// The id of the first node bound to `external_identity`, if any. Never
    /// fails.
    pub fn find_node_id_by_external_identity(&self, external_identity: AlynxisId) -> (r: Result<Option<AlynxisId>, WorldModelError>)
        ensures
            r matches Ok(o) && o == first_with_identity(self@.nodes, external_identity),
    {
        let ghost s = self@.nodes;
        let mut i: usize = 0;
        while i < self.nodes.len()
            invariant
                i <= self.nodes.len(),
                s == self@.nodes,
                s.len() == self.nodes.len(),
                forall|k: int| 0 <= k < i ==> s[k].external_identity != Some(external_identity),
            decreases self.nodes.len() - i,
        {
            proof { assert(s[i as int] == self.nodes@[i as int]@); }
            if self.nodes[i].external_identity == Some(external_identity) {
                proof {
                    assert(first_identity_at(s, external_identity, i as int));
                    let c = choose|j: int| first_identity_at(s, external_identity, j);
                    if c < i {
                    } else if c > i {
                        assert(s[i as int].external_identity != Some(external_identity));
                    }
                }
                return Ok(Some(self.nodes[i].id));
            }
            i = i + 1;
        }
        Ok(None)
    }

    /// How many nodes are stored. Never fails.
    pub fn node_count(&self) -> (r: Result<u64, WorldModelError>)
        ensures
            r matches Ok(n) && n == self@.nodes.len(),
    {
        Ok(self.nodes.len() as u64)
    }

    /// How many edges are stored. Never fails.
    pub fn edge_count(&self) -> (r: Result<u64, WorldModelError>)
        ensures
            r matches Ok(n) && n == self@.edges.len(),
    {
        Ok(self.edges.len() as u64)
    }

    /// Stores `edge`. Fails, changing nothing, when an edge with the same id
    /// exists, or when its source or target is not a stored node.
    pub fn insert_edge(&mut self, edge: &Edge) -> (r: Result<(), WorldModelError>)
        requires
            old(self).wf(),
        ensures
            final(self).wf(),
            final(self)@.nodes == old(self)@.nodes,
            r is Ok <==> !has_edge(old(self)@.edges, edge.id) && has_node(old(self)@.nodes, edge.source)
                && has_node(old(self)@.nodes, edge.target),
            r is Ok ==> final(self)@.edges == old(self)@.edges.push(*edge),
            r matches Err(e) ==> e is Constraint && final(self)@ == old(self)@,
    {
        if self.find_edge(edge.id).is_some() {
            return Err(WorldModelError::Constraint(owned("UNIQUE constraint failed: edges.id")));
        }
        if self.find_node(edge.source).is_none() || self.find_node(edge.target).is_none() {
            return Err(WorldModelError::Constraint(owned("FOREIGN KEY constraint failed")));
        }
        let ghost s = self@.edges;
        self.edges.push(*edge);
        proof {
            let t = self@.edges;
            assert(t =~= s.push(*edge));
            assert forall|i: int, j: int| 0 <= i < t.len() && 0 <= j < t.len() && i != j implies t[i].id != t[j].id by {
                if i < s.len() && j < s.len() {
                } else if i < s.len() {
                    assert(t[i] == s[i]);
                } else {
                    assert(t[j] == s[j]);
                }
            }
            assert forall|i: int| 0 <= i < t.len() implies has_node(self@.nodes, #[trigger] t[i].source)
                && has_node(self@.nodes, t[i].target) by {
                if i < s.len() {
                    assert(t[i] == s[i]);
                }
            }
        }
        Ok(())
    }

    /// Writes `edge`'s strength and last-touched time into the stored edge
    /// with its id (endpoints, relation and creation time kept). Fails with
    /// `EdgeNotFound` (carrying the id's text), changing nothing, when no
    /// edge has that id.
    pub fn update_edge(&mut self, edge: &Edge) -> (r: Result<(), WorldModelError>)
        requires
            old(self).wf(),
        ensures
            final(self).wf(),
            final(self)@.nodes == old(self)@.nodes,
            r is Ok <==> has_edge(old(self)@.edges, edge.id),
            r matches Err(e) ==> e matches WorldModelError::EdgeNotFound(s) && s@ == uuid_text(edge.id.0)
                && final(self)@ == old(self)@,
            r is Ok ==> final(self)@.edges.len() == old(self)@.edges.len(),
            r is Ok ==> forall|k: int| 0 <= k < old(self)@.edges.len() ==> #[trigger] final(self)@.edges[k] == (
                if old(self)@.edges[k].id == edge.id {
                    Edge { weight: edge.weight, last_touched_unix: edge.last_touched_unix, ..old(self)@.edges[k] }
                } else {
                    old(self)@.edges[k]
                }),
    {
        match self.find_edge(edge.id) {
            None => Err(WorldModelError::EdgeNotFound(edge.id.to_string())),
            Some(i) => {
                let ghost s = self@.edges;
                let mut stored = self.edges[i];
                stored.weight = edge.weight;
                stored.last_touched_unix = edge.last_touched_unix;
                self.edges.set(i, stored);
                proof {
                    let t = self@.edges;
                    assert forall|k: int| 0 <= k < s.len() implies #[trigger] t[k] == (
                        if s[k].id == edge.id {
                            Edge { weight: edge.weight, last_touched_unix: edge.last_touched_unix, ..s[k] }
                        } else {
                            s[k]
                        }) by {
                        if k != i {
                            assert(s[k].id != s[i as int].id);
                        }
                    }
                    assert forall|a: int, b: int| 0 <= a < t.len() && 0 <= b < t.len() && a != b implies t[a].id != t[b].id by {
                        assert(s[a].id != s[b].id);
                    }
                    assert forall|a: int| 0 <= a < t.len() implies has_node(self@.nodes, #[trigger] t[a].source)
                        && has_node(self@.nodes, t[a].target) by {
                        assert(t[a].source == s[a].source && t[a].target == s[a].target);
                    }
                }
                Ok(())
            },
        }
    }

    /// The edge with this id, if any. Never fails.
    pub fn get_edge(&self, id: AlynxisId) -> (r: Result<Option<Edge>, WorldModelError>)
        requires
            self.wf(),
        ensures
            r matches Ok(o) && o == edge_with_id(self@.edges, id),
    {
        match self.find_edge(id) {
            None => Ok(None),
            Some(i) => {
                proof {
                    let s = self@.edges;
                    assert(has_edge(s, id));
                    let c = choose|j: int| 0 <= j < s.len() && s[j].id == id;
                    assert(c == i);
                }
                Ok(Some(self.edges[i]))
            },
        }
    }

    fn collect_edges(&self, k: EdgeKey, x: AlynxisId) -> (r: Vec<Edge>)
        ensures
            r@ == edges_with_key(self@.edges, k, x),
    {
        let ghost s = self@.edges;
        let mut res: Vec<Edge> = Vec::new();
        let mut i: usize = 0;
        while i < self.edges.len()
            invariant
                i <= self.edges.len(),
                s == self@.edges,
                res@ == edges_with_key(s.take(i as int), k, x),
            decreases self.edges.len() - i,
        {
            proof {
                let t = s.take(i as int + 1);
                assert(t.drop_last() =~= s.take(i as int));
                assert(t.last() == s[i as int]);
            }
            let e = self.edges[i];
            let m = match k {
                EdgeKey::Source => e.source == x,
                EdgeKey::Target => e.target == x,
                EdgeKey::Relation => e.relation == Some(x),
            };
            if m {
                res.push(e);
            }
            i = i + 1;
        }
        proof { assert(s.take(s.len() as int) =~= s); }
        res
    }

    /// The edges leaving `source`, in table order. Never fails.
    pub fn find_edges_by_source(&self, source: AlynxisId) -> (r: Result<Vec<Edge>, WorldModelError>)
        ensures
            r matches Ok(v) && v@ == edges_with_key(self@.edges, EdgeKey::Source, source),
    {
        Ok(self.collect_edges(EdgeKey::Source, source))
    }

    /// The edges arriving at `target`, in table order. Never fails.
    pub fn find_edges_by_target(&self, target: AlynxisId) -> (r: Result<Vec<Edge>, WorldModelError>)
        ensures
            r matches Ok(v) && v@ == edges_with_key(self@.edges, EdgeKey::Target, target),
    {
        Ok(self.collect_edges(EdgeKey::Target, target))
    }

    /// The edges typed by the relation node `relation`, in table order.
    /// Never fails.
    pub fn find_edges_by_relation(&self, relation: AlynxisId) -> (r: Result<Vec<Edge>, WorldModelError>)
        ensures
            r matches Ok(v) && v@ == edges_with_key(self@.edges, EdgeKey::Relation, relation),
    {
        Ok(self.collect_edges(EdgeKey::Relation, relation))
    }

    /// The first edge joining `source` to `target` with exactly this
    /// relation (`None` matches only untyped edges). Never fails.
    pub fn find_edge_by_triple(&self, source: AlynxisId, target: AlynxisId, relation: Option<AlynxisId>)
        -> (r: Result<Option<Edge>, WorldModelError>)
        ensures
            r matches Ok(o) && o == first_triple(self@.edges, source, target, relation),
    {
        let ghost s = self@.edges;
        let mut i: usize = 0;
        while i < self.edges.len()
            invariant
                i <= self.edges.len(),
                s == self@.edges,
                forall|k: int| 0 <= k < i ==> !is_triple(s[k], source, target, relation),
            decreases self.edges.len() - i,
        {
            let e = self.edges[i];
            if e.source == source && e.target == target && e.relation == relation {
                proof {
                    assert(first_triple_at(s, source, target, relation, i as int));
                    let c = choose|j: int| first_triple_at(s, source, target, relation, j);
                    if c > i {
                        assert(!is_triple(s[i as int], source, target, relation));
                    }
                }
                return Ok(Some(e));
            }
            i = i + 1;
        }
        Ok(None)
    }

    /// Copies of all stored nodes, in table order.
    pub fn nodes(&self) -> (r: Vec<Node>)
        ensures
            node_views(r@) == self@.nodes,
    {
        let mut res: Vec<Node> = Vec::new();
        let mut i: usize = 0;
        while i < self.nodes.len()
            invariant
                i <= self.nodes.len(),
                node_views(res@) == self@.nodes.take(i as int),
            decreases self.nodes.len() - i,
        {
            let ghost prev = res@;
            assert(node_views(prev).len() == prev.len());
            proof { assert(self@.nodes[i as int] == self.nodes@[i as int]@); }
            let n = self.nodes[i].clone();
            res.push(n);
            i = i + 1;
            assert forall|k: int| 0 <= k < i implies #[trigger] node_views(res@)[k] == self@.nodes.take(i as int)[k] by {
                if k < i - 1 {
                    assert(res@[k] == prev[k]);
                    assert(node_views(prev)[k] == self@.nodes.take(i - 1)[k]);
                }
            }
            assert(node_views(res@) =~= self@.nodes.take(i as int));
        }
        assert(self@.nodes.take(self.nodes.len() as int) =~= self@.nodes);
        res
    }

    /// All stored edges, in table order.
    pub fn edges(&self) -> (r: Vec<Edge>)
        ensures
            r@ == self@.edges,
    {
        let mut res: Vec<Edge> = Vec::new();
        let mut i: usize = 0;
        while i < self.edges.len()
            invariant
                i <= self.edges.len(),
                res@ == self@.edges.take(i as int),
            decreases self.edges.len() - i,
        {
            res.push(self.edges[i]);
            i = i + 1;
            assert(res@ =~= self@.edges.take(i as int));
        }
        assert(self@.edges.take(self.edges.len() as int) =~= self@.edges);
        res
    }
}

} // verus!
