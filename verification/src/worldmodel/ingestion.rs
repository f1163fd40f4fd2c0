//! The concept-generalization ingestion rule: a label never seen before
//! always gets a new concept node before anything is linked to it; a known
//! label reuses its node; a triple seen again reinforces its edge.

use vstd::prelude::*;
use crate::ids::{AlynxisId, is_random_uuid};
use crate::text::owned;
use crate::worldmodel::node::{Node, NodeView};
use crate::worldmodel::edge::Edge;
use crate::worldmodel::error::WorldModelError;
use crate::worldmodel::storage::{
    Storage, GraphView, norm, add_labels, has_node, has_edge, ids_with_label, node_with_id, first_triple,
    first_triple_at, is_triple, lemma_add_labels,
};
use crate::worldmodel::laws::{labels_in_normal_form, first_with_label_is, lemma_resolved_keeps_first_carriers};

verus! {

/// The characters of an optional label.
pub open spec fn opt_label(o: Option<&str>) -> Option<Seq<char>> {
    match o {
        Some(s) => Some(s@),
        None => None,
    }
}

/// One more unit of strength, saturating at the largest `u64`.
pub open spec fn bumped(w: u64) -> u64 {
    if w < u64::MAX { (w + 1) as u64 } else { u64::MAX }
}

/// `g1` is `g0` after resolving `label` to the node `id`: if some node
/// carries the label's normal form, `id` is the first such node and only
/// that node changes (its own labels re-added in normal form and a new
/// last-touched time); otherwise `id` is a fresh node, appended with the
/// label's normal form as its only label and no external identity.
pub open spec fn resolved(g0: GraphView, label: Seq<char>, id: AlynxisId, g1: GraphView) -> bool {
    let n = norm(label);
    let ids = ids_with_label(g0.nodes, n);
    &&& g1.edges == g0.edges
    &&& if ids.len() > 0 {
        &&& id == ids[0]
        &&& g1.nodes.len() == g0.nodes.len()
        &&& forall|k: int| 0 <= k < g0.nodes.len() ==> #[trigger] g1.nodes[k] == (
            if g0.nodes[k].id == id {
                NodeView {
                    labels: add_labels(g0.nodes[k].labels, g0.nodes[k].labels),
                    last_touched_unix: g1.nodes[k].last_touched_unix,
                    ..g0.nodes[k]
                }
            } else {
                g0.nodes[k]
            })
    } else {
        &&& !has_node(g0.nodes, id)
        &&& g1.nodes.len() == g0.nodes.len() + 1
        &&& g1.nodes == g0.nodes.push(NodeView {
            id: id,
            labels: seq![n],
            external_identity: None,
            created_at_unix: g1.nodes.last().created_at_unix,
            last_touched_unix: g1.nodes.last().created_at_unix,
        })
    }
}

/// `g1` is `g0` after recording the triple (`source`, `target`,
/// `relation`) as the edge `e`: the first edge with that triple is
/// reinforced (one more unit of strength, new last-touched time), or, when
/// there is none, a fresh edge `e` of strength 1 is appended.
pub open spec fn edge_recorded(
    g0: GraphView,
    source: AlynxisId,
    target: AlynxisId,
    relation: Option<AlynxisId>,
    e: AlynxisId,
    g1: GraphView,
) -> bool {
    &&& g1.nodes == g0.nodes
    &&& match first_triple(g0.edges, source, target, relation) {
        Some(x) => {
            &&& e == x.id
            &&& g1.edges.len() == g0.edges.len()
            &&& forall|k: int| 0 <= k < g0.edges.len() ==> #[trigger] g1.edges[k] == (
                if g0.edges[k].id == e {
                    Edge { weight: bumped(g0.edges[k].weight), last_touched_unix: g1.edges[k].last_touched_unix, ..g0.edges[k] }
                } else {
                    g0.edges[k]
                })
        },
        None => {
            &&& !has_edge(g0.edges, e)
            &&& g1.edges.len() == g0.edges.len() + 1
            &&& g1.edges == g0.edges.push(Edge {
                id: e,
                source: source,
                target: target,
                relation: relation,
                weight: 1,
                created_at_unix: g1.edges.last().created_at_unix,
                last_touched_unix: g1.edges.last().created_at_unix,
            })
        },
    }
}

/// The whole ingestion of "subject [relation] object", through the
/// intermediate tables `g1` (subject resolved), `g2` (object resolved) and
/// `g3` (relation resolved, if one was given).
pub open spec fn ingested(
    g0: GraphView,
    subject: Seq<char>,
    relation: Option<Seq<char>>,
    object: Seq<char>,
    s: AlynxisId,
    rel: Option<AlynxisId>,
    o: AlynxisId,
    e: AlynxisId,
    g1: GraphView,
    g2: GraphView,
    g3: GraphView,
    g4: GraphView,
) -> bool {
    &&& resolved(g0, subject, s, g1)
    &&& resolved(g1, object, o, g2)
    &&& match relation {
        None => rel is None && g3 == g2,
        Some(rl) => rel matches Some(rid) && resolved(g2, rl, rid, g3),
    }
    &&& edge_recorded(g3, s, o, rel, e, g4)
}

/// `g4` is `g0` after ingesting "subject [relation] object" as the
/// (subject, relation, object, edge) ids `s`, `rel`, `o`, `e`, through
/// some intermediate tables (see `ingested`).
pub open spec fn ingestion_of(
    g0: GraphView,
    subject: Seq<char>,
    relation: Option<Seq<char>>,
    object: Seq<char>,
    s: AlynxisId,
    rel: Option<AlynxisId>,
    o: AlynxisId,
    e: AlynxisId,
    g4: GraphView,
) -> bool {
    exists|g1: GraphView, g2: GraphView, g3: GraphView|
        #[trigger] ingested(g0, subject, relation, object, s, rel, o, e, g1, g2, g3, g4)
}

/// Some node of `g` carries the normal form of `label`.
pub open spec fn known_label(g: GraphView, label: Seq<char>) -> bool {
    ids_with_label(g.nodes, norm(label)).len() > 0
}

/// The first node of `g` carrying the normal form of `label`.
pub open spec fn first_carrier(g: GraphView, label: Seq<char>) -> AlynxisId {
    ids_with_label(g.nodes, norm(label))[0]
}

/// Some node of `g` has a random (version-4 UUID) id: a freshly drawn node
/// id can only collide with one of these.
pub open spec fn random_node_id_taken(g: GraphView) -> bool {
    exists|x: AlynxisId| has_node(g.nodes, x) && is_random_uuid(x.0)
}

/// Some edge of `g` has a random (version-4 UUID) id: a freshly drawn edge
/// id can only collide with one of these.
pub open spec fn random_edge_id_taken(g: GraphView) -> bool {
    exists|x: AlynxisId| has_edge(g.edges, x) && is_random_uuid(x.0)
}

/// The outcome of finding or creating the node for `label` on tables `g0`,
/// leaving `g1`: either the label resolved to node `id` (`resolved`), or a
/// `Constraint` error with the tables unchanged, which comes only for a
/// label no node carries whose freshly drawn random id was already taken.
pub open spec fn label_resolution(
    g0: GraphView,
    label: Seq<char>,
    r: Result<AlynxisId, WorldModelError>,
    g1: GraphView,
) -> bool {
    match r {
        Ok(id) => resolved(g0, label, id, g1),
        Err(e) => e is Constraint && g1 == g0 && !known_label(g0, label) && random_node_id_taken(g0),
    }
}

/// Every label of "subject [relation] object" is carried by some node of
/// `g`, and an edge records the triple of their first carriers: ingesting
/// the statement draws no fresh id.
pub open spec fn statement_known(g: GraphView, subject: Seq<char>, relation: Option<Seq<char>>, object: Seq<char>) -> bool {
    &&& known_label(g, subject)
    &&& known_label(g, object)
    &&& match relation {
        None => first_triple(g.edges, first_carrier(g, subject), first_carrier(g, object), None) is Some,
        Some(rl) => known_label(g, rl) && first_triple(
            g.edges,
            first_carrier(g, subject),
            first_carrier(g, object),
            Some(first_carrier(g, rl)),
        ) is Some,
    }
}

/// After subject `s` and object `o` were resolved into `g2`: the ingestion
/// stopped at the relation label, which no node carried, or at the triple,
/// which no edge recorded; `g` is the tables as they were then.
pub open spec fn stopped_after_object(
    g2: GraphView,
    s: AlynxisId,
    o: AlynxisId,
    relation: Option<Seq<char>>,
    g: GraphView,
) -> bool {
    match relation {
        None => first_triple(g2.edges, s, o, None) is None && g == g2 && random_edge_id_taken(g2),
        Some(rl) => (!known_label(g2, rl) && g == g2 && random_node_id_taken(g2)) || exists|rid: AlynxisId, g3: GraphView|
            #[trigger] resolved(g2, rl, rid, g3) && first_triple(g3.edges, s, o, Some(rid)) is None && g == g3
                && random_edge_id_taken(g3),
    }
}

/// After subject `s` was resolved into `g1`: the ingestion stopped at the
/// object label, which no node carried, or later (`stopped_after_object`).
pub open spec fn stopped_after_subject(
    g1: GraphView,
    s: AlynxisId,
    relation: Option<Seq<char>>,
    object: Seq<char>,
    g: GraphView,
) -> bool {
    (!known_label(g1, object) && g == g1 && random_node_id_taken(g1)) || exists|o: AlynxisId, g2: GraphView|
        #[trigger] resolved(g1, object, o, g2) && stopped_after_object(g2, s, o, relation, g)
}

/// The ingestion of "subject [relation] object" from `g0` stopped where a
/// fresh id had to be drawn (at a label no node carried at that point, or
/// at a triple no edge recorded), leaving the tables `g` as the steps
/// before it had made them.
pub open spec fn ingestion_stopped(
    g0: GraphView,
    subject: Seq<char>,
    relation: Option<Seq<char>>,
    object: Seq<char>,
    g: GraphView,
) -> bool {
    (!known_label(g0, subject) && g == g0 && random_node_id_taken(g0)) || exists|s: AlynxisId, g1: GraphView|
        #[trigger] resolved(g0, subject, s, g1) && stopped_after_subject(g1, s, relation, object, g)
}

/// A label known in tables whose labels are in normal form has a stable
/// normal form.
pub proof fn lemma_known_norm_stable(g: GraphView, label: Seq<char>)
    requires
        labels_in_normal_form(g.nodes),
        known_label(g, label),
    ensures
        norm(norm(label)) == norm(label),
{
    let n = norm(label);
    lemma_ids_with_label(g.nodes, n);
    let k = choose|k: int| 0 <= k < g.nodes.len() && g.nodes[k].id == ids_with_label(g.nodes, n)[0]
        && g.nodes[k].labels.contains(n) && forall|j: int| 0 <= j < k ==> !g.nodes[j].labels.contains(n);
    let j = choose|j: int| 0 <= j < g.nodes[k].labels.len() && g.nodes[k].labels[j] == n;
    assert(norm(g.nodes[k].labels[j]) == g.nodes[k].labels[j]);
}

/// Resolving a known label over tables in normal form resolves it to its
/// first carrier, changes no id, label or edge, keeps the tables in normal
/// form and keeps every first carrier.
pub proof fn lemma_resolve_known(g0: GraphView, label: Seq<char>, id: AlynxisId, g1: GraphView)
    requires
        g0.wf(),
        labels_in_normal_form(g0.nodes),
        known_label(g0, label),
        resolved(g0, label, id, g1),
    ensures
        id == first_carrier(g0, label),
        labels_in_normal_form(g1.nodes),
        g1.edges == g0.edges,
        forall|n: Seq<char>, x: AlynxisId| #[trigger] first_with_label_is(g0.nodes, n, x) ==> first_with_label_is(g1.nodes, n, x),
        forall|k: int| 0 <= k < g1.nodes.len() ==> (#[trigger] g1.nodes[k]).labels.no_duplicates(),
{
    lemma_known_norm_stable(g0, label);
    lemma_resolved_keeps_first_carriers(g0, label, id, g1);
}

/// Over tables in normal form, an ingestion of a statement that is already
/// known never stops: it needs no fresh id.
pub proof fn lemma_known_statement_never_stops(
    g0: GraphView,
    subject: Seq<char>,
    relation: Option<Seq<char>>,
    object: Seq<char>,
    g: GraphView,
)
    requires
        g0.wf(),
        labels_in_normal_form(g0.nodes),
        statement_known(g0, subject, relation, object),
    ensures
        !ingestion_stopped(g0, subject, relation, object, g),
{
    if ingestion_stopped(g0, subject, relation, object, g) {
        let fs = first_carrier(g0, subject);
        let fo = first_carrier(g0, object);
        assert(first_with_label_is(g0.nodes, norm(subject), fs));
        assert(first_with_label_is(g0.nodes, norm(object), fo));
        let (s, g1) = choose|s: AlynxisId, g1: GraphView|
            #[trigger] resolved(g0, subject, s, g1) && stopped_after_subject(g1, s, relation, object, g);
        lemma_resolve_known(g0, subject, s, g1);
        assert(first_with_label_is(g1.nodes, norm(object), fo));
        assert(known_label(g1, object));
        assert(first_carrier(g1, object) == fo);
        let (o, g2) = choose|o: AlynxisId, g2: GraphView|
            #[trigger] resolved(g1, object, o, g2) && stopped_after_object(g2, s, o, relation, g);
        assert(labels_in_normal_form(g1.nodes));
        lemma_known_norm_stable(g1, object);
        lemma_resolved_keeps_first_carriers(g1, object, o, g2);
        assert(o == fo);
        assert(g2.edges == g0.edges);
        match relation {
            None => {},
            Some(rl) => {
                let fr = first_carrier(g0, rl);
                assert(first_with_label_is(g0.nodes, norm(rl), fr));
                assert(first_with_label_is(g1.nodes, norm(rl), fr));
                assert(first_with_label_is(g2.nodes, norm(rl), fr));
                assert(known_label(g2, rl));
                let (rid, g3) = choose|rid: AlynxisId, g3: GraphView|
                    #[trigger] resolved(g2, rl, rid, g3) && first_triple(g3.edges, s, o, Some(rid)) is None && g == g3;
                lemma_known_norm_stable(g2, rl);
                lemma_resolved_keeps_first_carriers(g2, rl, rid, g3);
                assert(rid == fr);
            },
        }
        assert(false);
    }
}

/// Every id of `ids_with_label` is the id of a node carrying the label, and
/// the first one is the first such node in table order.
pub proof fn lemma_ids_with_label(s: Seq<NodeView>, n: Seq<char>)
    ensures
        forall|i: int| 0 <= i < ids_with_label(s, n).len() ==> exists|k: int| 0 <= k < s.len()
            && s[k].id == #[trigger] ids_with_label(s, n)[i] && s[k].labels.contains(n),
        ids_with_label(s, n).len() == 0 <==> forall|k: int| 0 <= k < s.len() ==> !s[k].labels.contains(n),
        ids_with_label(s, n).len() > 0 ==> exists|k: int| 0 <= k < s.len() && s[k].id == ids_with_label(s, n)[0]
            && s[k].labels.contains(n) && forall|j: int| 0 <= j < k ==> !s[j].labels.contains(n),
    decreases s.len(),
{
    if s.len() > 0 {
        let d = s.drop_last();
        lemma_ids_with_label(d, n);
        let r = ids_with_label(d, n);
        assert forall|i: int| 0 <= i < ids_with_label(s, n).len() implies exists|k: int| 0 <= k < s.len()
            && s[k].id == #[trigger] ids_with_label(s, n)[i] && s[k].labels.contains(n) by {
            if i < r.len() {
                let k = choose|k: int| 0 <= k < d.len() && d[k].id == r[i] && d[k].labels.contains(n);
                assert(s[k] == d[k]);
            } else {
                assert(s[s.len() - 1] == s.last());
            }
        }
        if ids_with_label(s, n).len() == 0 {
            assert forall|k: int| 0 <= k < s.len() implies !s[k].labels.contains(n) by {
                if k < d.len() {
                    assert(s[k] == d[k]);
                }
            }
        } else {
            if r.len() > 0 {
                let k = choose|k: int| 0 <= k < d.len() && d[k].id == r[0] && d[k].labels.contains(n)
                    && forall|j: int| 0 <= j < k ==> !d[j].labels.contains(n);
                assert(s[k] == d[k]);
                assert(ids_with_label(s, n)[0] == r[0]);
                assert forall|j: int| 0 <= j < k implies !s[j].labels.contains(n) by {
                    assert(s[j] == d[j]);
                }
            } else {
                let k = s.len() - 1;
                assert(ids_with_label(s, n)[0] == s.last().id);
                assert forall|j: int| 0 <= j < k implies !s[j].labels.contains(n) by {
                    assert(s[j] == d[j]);
                }
            }
        }
    }
}

/// Finds the node for `label` (compared in normal form), touching it, or
/// creates a new node carrying the label when none does. Fails, changing
/// nothing, only when the new node's random id is already taken.
pub fn find_or_create_node_for_label(storage: &mut Storage, label: &str) -> (r: Result<AlynxisId, WorldModelError>)
    requires
        old(storage).wf(),
    ensures
        final(storage).wf(),
        r matches Ok(id) ==> resolved(old(storage)@, label@, id, final(storage)@),
        r matches Err(e) ==> e is Constraint && final(storage)@ == old(storage)@
            && ids_with_label(old(storage)@.nodes, norm(label@)).len() == 0,
        label_resolution(old(storage)@, label@, r, final(storage)@),
{
    let ghost g0 = storage@;
    let existing = match storage.find_node_ids_by_label(label) {
        Ok(v) => v,
        Err(e) => {
            return Err(e);
        },
    };
    proof { lemma_ids_with_label(g0.nodes, norm(label@)); }
    if existing.len() > 0 {
        let id = existing[0];
        let ghost k = choose|k: int| 0 <= k < g0.nodes.len() && g0.nodes[k].id == id
            && g0.nodes[k].labels.contains(norm(label@)) && forall|j: int| 0 <= j < k ==> !g0.nodes[j].labels.contains(norm(label@));
        let mut node = match storage.get_node(id) {
            Ok(Some(n)) => n,
            _ => {
                proof { assert(has_node(g0.nodes, id)); }
                return Err(WorldModelError::Constraint(owned("node index out of step with node table")));
            },
        };
        proof {
            assert(has_node(g0.nodes, id));
            let c = choose|j: int| 0 <= j < g0.nodes.len() && g0.nodes[j].id == id;
            assert(c == k);
            assert(node@ == g0.nodes[k]);
        }
        node.touch();
        let u = storage.update_node(&node);
        proof {
            assert(u is Ok);
            let g1 = storage@;
            assert forall|j: int| 0 <= j < g0.nodes.len() implies #[trigger] g1.nodes[j] == (
                if g0.nodes[j].id == id {
                    NodeView {
                        labels: add_labels(g0.nodes[j].labels, g0.nodes[j].labels),
                        last_touched_unix: g1.nodes[j].last_touched_unix,
                        ..g0.nodes[j]
                    }
                } else {
                    g0.nodes[j]
                }) by {
                if g0.nodes[j].id == id {
                    assert(j == k);
                }
            }
        }
        return Ok(id);
    }
    let mut labels: Vec<String> = Vec::new();
    labels.push(owned(label));
    let node = Node::new(labels);
    let ins = storage.insert_node(&node);
    match ins {
        Ok(()) => {
            proof {
                reveal_with_fuel(add_labels, 2);
                let ls = node@.labels;
                assert(ls.drop_last() =~= Seq::<Seq<char>>::empty());
                assert(add_labels(Seq::empty(), ls) =~= seq![norm(label@)]);
                assert(storage@.nodes.last() == (NodeView { labels: add_labels(Seq::empty(), node@.labels), ..node@ }));
            }
            Ok(node.id)
        },
        Err(e) => Err(e),
    }
}

/// Ingests "subject [relation] object": subject, object and (if given)
/// relation labels are each resolved to a concept node, in that order, by
/// `find_or_create_node_for_label`; then the edge with that exact triple
/// is reinforced, or created with strength 1 when there is none. Returns
/// (subject, relation, object, edge) ids. Fails only where a fresh id had
/// to be drawn and was already taken: at a label no node carried, or at a
/// triple no edge recorded; the tables are then as the steps before left
/// them. So a statement already known, over tables whose labels are in
/// normal form, is always ingested.
pub fn ingest_relation(
    storage: &mut Storage,
    subject_label: &str,
    relation_label: Option<&str>,
    object_label: &str,
) -> (r: Result<(AlynxisId, Option<AlynxisId>, AlynxisId, AlynxisId), WorldModelError>)
    requires
        old(storage).wf(),
    ensures
        final(storage).wf(),
        r matches Ok((s, rel, o, e)) ==> ingestion_of(old(storage)@, subject_label@, opt_label(relation_label),
            object_label@, s, rel, o, e, final(storage)@),
        r matches Err(e) ==> e is Constraint && ingestion_stopped(old(storage)@, subject_label@,
            opt_label(relation_label), object_label@, final(storage)@),
        labels_in_normal_form(old(storage)@.nodes) && statement_known(old(storage)@, subject_label@,
            opt_label(relation_label), object_label@) ==> r is Ok,
{
    let ghost g0 = storage@;
    let r = ingest_steps(storage, subject_label, relation_label, object_label);
    proof {
        if labels_in_normal_form(g0.nodes) && statement_known(g0, subject_label@, opt_label(relation_label), object_label@) {
            lemma_known_statement_never_stops(g0, subject_label@, opt_label(relation_label), object_label@, storage@);
        }
    }
    r
}

fn ingest_steps(
    storage: &mut Storage,
    subject_label: &str,
    relation_label: Option<&str>,
    object_label: &str,
) -> (r: Result<(AlynxisId, Option<AlynxisId>, AlynxisId, AlynxisId), WorldModelError>)
    requires
        old(storage).wf(),
    ensures
        final(storage).wf(),
        r matches Ok((s, rel, o, e)) ==> ingestion_of(old(storage)@, subject_label@, opt_label(relation_label),
            object_label@, s, rel, o, e, final(storage)@),
        r matches Err(e) ==> e is Constraint && ingestion_stopped(old(storage)@, subject_label@,
            opt_label(relation_label), object_label@, final(storage)@),
{
    let ghost g0 = storage@;
    let subject_id = match find_or_create_node_for_label(storage, subject_label) {
        Ok(id) => id,
        Err(e) => {
            return Err(e);
        },
    };
    let ghost g1 = storage@;
    let object_id = match find_or_create_node_for_label(storage, object_label) {
        Ok(id) => id,
        Err(e) => {
            return Err(e);
        },
    };
    let ghost g2 = storage@;
    let relation_id = match relation_label {
        Some(rl) => match find_or_create_node_for_label(storage, rl) {
            Ok(id) => Some(id),
            Err(e) => {
                return Err(e);
            },
        },
        None => None,
    };
    let ghost g3 = storage@;
    proof {
        lemma_resolved_keeps_node(g0, subject_label@, subject_id, g1, subject_id);
        lemma_resolved_keeps_node(g1, object_label@, object_id, g2, subject_id);
        lemma_resolved_keeps_node(g1, object_label@, object_id, g2, object_id);
        if let Some(rl) = relation_label {
            lemma_resolved_keeps_node(g2, rl@, relation_id.unwrap(), g3, subject_id);
            lemma_resolved_keeps_node(g2, rl@, relation_id.unwrap(), g3, object_id);
        }
    }
    let found = match storage.find_edge_by_triple(subject_id, object_id, relation_id) {
        Ok(f) => f,
        Err(e) => {
            return Err(e);
        },
    };
    let edge_id = match found {
        Some(existing) => {
            let mut e = existing;
            e.reinforce();
            let u = storage.update_edge(&e);
            proof {
                let k = choose|i: int| first_triple_at(g3.edges, subject_id, object_id, relation_id, i);
                assert(g3.edges[k] == existing);
                assert(has_edge(g3.edges, existing.id));
                assert(u is Ok);
            }
            existing.id
        },
        None => {
            let edge = Edge::new(subject_id, object_id, relation_id);
            match storage.insert_edge(&edge) {
                Ok(()) => {},
                Err(e) => {
                    return Err(e);
                },
            }
            edge.id
        },
    };
    proof {
        assert(ingested(g0, subject_label@, opt_label(relation_label), object_label@,
            subject_id, relation_id, object_id, edge_id, g1, g2, g3, storage@));
        assert(ingestion_of(g0, subject_label@, opt_label(relation_label), object_label@,
            subject_id, relation_id, object_id, edge_id, storage@));
    }
    Ok((subject_id, relation_id, object_id, edge_id))
}

/// Resolving a label never removes a node: a node of the old tables is
/// still a node, and the resolved node is a node afterwards.
pub proof fn lemma_resolved_keeps_node(g0: GraphView, label: Seq<char>, id: AlynxisId, g1: GraphView, x: AlynxisId)
    requires
        resolved(g0, label, id, g1),
        has_node(g0.nodes, x) || x == id,
    ensures
        has_node(g1.nodes, x),
{
    let n = norm(label);
    lemma_ids_with_label(g0.nodes, n);
    if ids_with_label(g0.nodes, n).len() > 0 {
        if x == id {
            let k = choose|k: int| 0 <= k < g0.nodes.len() && g0.nodes[k].id == ids_with_label(g0.nodes, n)[0]
                && g0.nodes[k].labels.contains(n) && forall|j: int| 0 <= j < k ==> !g0.nodes[j].labels.contains(n);
            assert(g1.nodes[k].id == g0.nodes[k].id);
        } else {
            let k = choose|k: int| 0 <= k < g0.nodes.len() && g0.nodes[k].id == x;
            assert(g1.nodes[k].id == g0.nodes[k].id);
        }
    } else {
        if x == id {
            assert(g1.nodes[g0.nodes.len() as int].id == id);
        } else {
            let k = choose|k: int| 0 <= k < g0.nodes.len() && g0.nodes[k].id == x;
            assert(g1.nodes[k] == g0.nodes[k]);
        }
    }
}

} // verus!
