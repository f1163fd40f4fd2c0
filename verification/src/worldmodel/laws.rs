//! Properties of the concept graph that span its operations.

use vstd::prelude::*;
use crate::ids::{AlynxisId, is_random_uuid};
use crate::worldmodel::error::WorldModelError;
use crate::text::{ascii_text, lemma_ascii_trim_lower_stable};
use crate::worldmodel::node::NodeView;
use crate::worldmodel::edge::Edge;
use crate::worldmodel::storage::{
    GraphView, norm, add_labels, has_node, node_with_id, ids_with_label, lemma_add_labels, first_with_identity, first_identity_at,
    first_triple, first_triple_at, is_triple,
};
use crate::worldmodel::ingestion::{resolved, edge_recorded, ingested, ingestion_of, bumped, lemma_ids_with_label,
    statement_known, first_carrier, label_resolution, ingestion_stopped, stopped_after_subject, stopped_after_object,
    known_label, random_node_id_taken, random_edge_id_taken};

verus! {

/// Every stored label is its own normal form.
pub open spec fn labels_in_normal_form(nodes: Seq<NodeView>) -> bool {
    forall|k: int, j: int| 0 <= k < nodes.len() && 0 <= j < nodes[k].labels.len()
        ==> norm(#[trigger] nodes[k].labels[j]) == nodes[k].labels[j]
}

/// No node carries a label twice.
pub open spec fn labels_unrepeated(nodes: Seq<NodeView>) -> bool {
    forall|k: int| 0 <= k < nodes.len() ==> (#[trigger] nodes[k]).labels.no_duplicates()
}

/// Two node tables with the same ids and labels at every position.
pub open spec fn same_ids_and_labels(a: Seq<NodeView>, b: Seq<NodeView>) -> bool {
    &&& a.len() == b.len()
    &&& forall|k: int| 0 <= k < a.len() ==> (#[trigger] a[k]).id == b[k].id && a[k].labels == b[k].labels
}

/// The first node carrying `n` in `nodes` is `id`.
pub open spec fn first_with_label_is(nodes: Seq<NodeView>, n: Seq<char>, id: AlynxisId) -> bool {
    ids_with_label(nodes, n).len() > 0 && ids_with_label(nodes, n)[0] == id
}

/// Adding labels whose normal forms are all present already changes
/// nothing.
pub proof fn lemma_add_labels_absorbed(acc: Seq<Seq<char>>, ls: Seq<Seq<char>>)
    requires
        forall|j: int| 0 <= j < ls.len() ==> acc.contains(norm(#[trigger] ls[j])),
    ensures
        add_labels(acc, ls) == acc,
    decreases ls.len(),
{
    if ls.len() > 0 {
        let d = ls.drop_last();
        assert forall|j: int| 0 <= j < d.len() implies acc.contains(norm(#[trigger] d[j])) by {
            assert(d[j] == ls[j]);
        }
        lemma_add_labels_absorbed(acc, d);
        assert(acc.contains(norm(ls[ls.len() - 1])));
    }
}

/// The label lookup sees only ids and labels.
pub proof fn lemma_ids_with_label_same(a: Seq<NodeView>, b: Seq<NodeView>, n: Seq<char>)
    requires
        same_ids_and_labels(a, b),
    ensures
        ids_with_label(a, n) == ids_with_label(b, n),
    decreases a.len(),
{
    if a.len() > 0 {
        let da = a.drop_last();
        let db = b.drop_last();
        assert(same_ids_and_labels(da, db)) by {
            assert forall|k: int| 0 <= k < da.len() implies (#[trigger] da[k]).id == db[k].id && da[k].labels == db[k].labels by {
                assert(da[k] == a[k] && db[k] == b[k]);
            }
        }
        lemma_ids_with_label_same(da, db, n);
        assert(a.last() == a[a.len() - 1]);
        assert(b.last() == b[b.len() - 1]);
    }
}

/// Appending a node extends the label lookup at its end only.
pub proof fn lemma_ids_with_label_push(s: Seq<NodeView>, x: NodeView, n: Seq<char>)
    ensures
        ids_with_label(s.push(x), n) == (if x.labels.contains(n) {
            ids_with_label(s, n).push(x.id)
        } else {
            ids_with_label(s, n)
        }),
{
    assert(s.push(x).drop_last() =~= s);
    assert(s.push(x).last() == x);
}

/// Resolving a label whose normal form is stable, over tables whose labels
/// are in normal form and unrepeated, keeps both properties, keeps every
/// node's id, keeps the first carrier of every label, and leaves `id` the
/// first carrier of the resolved label.
pub proof fn lemma_resolved_keeps_first_carriers(g0: GraphView, label: Seq<char>, id: AlynxisId, g1: GraphView)
    requires
        resolved(g0, label, id, g1),
        labels_in_normal_form(g0.nodes),
        labels_unrepeated(g0.nodes),
        norm(norm(label)) == norm(label),
    ensures
        labels_in_normal_form(g1.nodes),
        labels_unrepeated(g1.nodes),
        g1.edges == g0.edges,
        g1.nodes.len() >= g0.nodes.len(),
        forall|k: int| 0 <= k < g0.nodes.len() ==> (#[trigger] g1.nodes[k]).id == g0.nodes[k].id,
        forall|n: Seq<char>, x: AlynxisId| #[trigger] first_with_label_is(g0.nodes, n, x) ==> first_with_label_is(g1.nodes, n, x),
        first_with_label_is(g1.nodes, norm(label), id),
        ids_with_label(g0.nodes, norm(label)).len() > 0 ==> g1.nodes.len() == g0.nodes.len(),
{
    let n0 = norm(label);
    if ids_with_label(g0.nodes, n0).len() > 0 {
        assert forall|k: int| 0 <= k < g0.nodes.len() implies (#[trigger] g0.nodes[k]).id == g1.nodes[k].id
            && g0.nodes[k].labels == g1.nodes[k].labels by {
            if g0.nodes[k].id == id {
                let l = g0.nodes[k].labels;
                assert forall|j: int| 0 <= j < l.len() implies l.contains(norm(#[trigger] l[j])) by {
                    assert(norm(g0.nodes[k].labels[j]) == g0.nodes[k].labels[j]);
                }
                lemma_add_labels_absorbed(l, l);
            }
        }
        assert(same_ids_and_labels(g0.nodes, g1.nodes));
        assert forall|n: Seq<char>| true implies ids_with_label(g0.nodes, n) == ids_with_label(g1.nodes, n) by {
            lemma_ids_with_label_same(g0.nodes, g1.nodes, n);
        }
        assert forall|k: int, j: int| 0 <= k < g1.nodes.len() && 0 <= j < g1.nodes[k].labels.len()
            implies norm(#[trigger] g1.nodes[k].labels[j]) == g1.nodes[k].labels[j] by {
            assert(g1.nodes[k].labels == g0.nodes[k].labels);
        }
        assert forall|k: int| 0 <= k < g1.nodes.len() implies (#[trigger] g1.nodes[k]).labels.no_duplicates() by {
            assert(g1.nodes[k].labels == g0.nodes[k].labels);
            assert(g0.nodes[k].labels.no_duplicates());
        }
        lemma_ids_with_label_same(g0.nodes, g1.nodes, n0);
    } else {
        let x = g1.nodes.last();
        assert(g1.nodes == g0.nodes.push(x));
        assert(x.labels == seq![n0]);
        assert(x.id == id);
        assert forall|n: Seq<char>| true implies #[trigger] ids_with_label(g1.nodes, n) == (if x.labels.contains(n) {
            ids_with_label(g0.nodes, n).push(x.id)
        } else {
            ids_with_label(g0.nodes, n)
        }) by {
            lemma_ids_with_label_push(g0.nodes, x, n);
        }
        assert forall|n: Seq<char>, y: AlynxisId| #[trigger] first_with_label_is(g0.nodes, n, y) implies first_with_label_is(g1.nodes, n, y) by {
            if x.labels.contains(n) {
                assert(ids_with_label(g1.nodes, n)[0] == ids_with_label(g0.nodes, n)[0]);
            }
        }
        assert(x.labels[0] == n0);
        assert(x.labels.contains(n0));
        assert(ids_with_label(g1.nodes, n0) =~= seq![id]);
        assert forall|k: int| 0 <= k < g0.nodes.len() implies (#[trigger] g1.nodes[k]).id == g0.nodes[k].id by {
            assert(g1.nodes[k] == g0.nodes[k]);
        }
        assert forall|k: int, j: int| 0 <= k < g1.nodes.len() && 0 <= j < g1.nodes[k].labels.len()
            implies norm(#[trigger] g1.nodes[k].labels[j]) == g1.nodes[k].labels[j] by {
            if k < g0.nodes.len() {
                assert(g1.nodes[k] == g0.nodes[k]);
            }
        }
        assert forall|k: int| 0 <= k < g1.nodes.len() implies (#[trigger] g1.nodes[k]).labels.no_duplicates() by {
            if k < g0.nodes.len() {
                assert(g1.nodes[k] == g0.nodes[k]);
            }
        }
    }
}

/// If some edge has the triple, a first one does.
pub proof fn lemma_some_first_triple(s: Seq<Edge>, source: AlynxisId, target: AlynxisId, relation: Option<AlynxisId>, k: int)
    requires
        0 <= k < s.len(),
        is_triple(s[k], source, target, relation),
    ensures
        exists|j: int| first_triple_at(s, source, target, relation, j),
    decreases k,
{
    if exists|q: int| 0 <= q < k && is_triple(s[q], source, target, relation) {
        let q = choose|q: int| 0 <= q < k && is_triple(s[q], source, target, relation);
        lemma_some_first_triple(s, source, target, relation, q);
    } else {
        assert(first_triple_at(s, source, target, relation, k));
    }
}

/// After an edge is recorded for a triple, that edge is the first edge
/// with the triple.
pub proof fn lemma_recorded_edge_is_first(
    g0: GraphView,
    source: AlynxisId,
    target: AlynxisId,
    relation: Option<AlynxisId>,
    e: AlynxisId,
    g1: GraphView,
)
    requires
        edge_recorded(g0, source, target, relation, e, g1),
    ensures
        first_triple(g1.edges, source, target, relation) matches Some(x) && x.id == e,
        g1.nodes == g0.nodes,
{
    match first_triple(g0.edges, source, target, relation) {
        Some(x) => {
            let i = choose|i: int| first_triple_at(g0.edges, source, target, relation, i);
            assert forall|k: int| 0 <= k < g0.edges.len() implies
                is_triple(#[trigger] g1.edges[k], source, target, relation) == is_triple(g0.edges[k], source, target, relation) by {
                assert(g1.edges[k].source == g0.edges[k].source && g1.edges[k].target == g0.edges[k].target
                    && g1.edges[k].relation == g0.edges[k].relation);
            }
            assert(first_triple_at(g1.edges, source, target, relation, i));
            let c = choose|j: int| first_triple_at(g1.edges, source, target, relation, j);
            if c < i {
                assert(is_triple(g0.edges[c], source, target, relation));
            } else if c > i {
            }
            assert(g1.edges[i].id == g0.edges[i].id);
        },
        None => {
            let m = g0.edges.len() as int;
            assert(g1.edges[m].id == e);
            assert forall|k: int| 0 <= k < m implies !is_triple(g1.edges[k], source, target, relation) by {
                assert(g1.edges[k] == g0.edges[k]);
                if is_triple(g0.edges[k], source, target, relation) {
                    lemma_some_first_triple(g0.edges, source, target, relation, k);
                }
            }
            assert(first_triple_at(g1.edges, source, target, relation, m));
            let c = choose|j: int| first_triple_at(g1.edges, source, target, relation, j);
            assert(c == m);
        },
    }
}

/// Ingesting the same statement twice reinforces rather than duplicates:
/// the second ingestion resolves to the same subject, relation and object
/// nodes and the same edge, adds no node and no edge, and gives that edge
/// one more unit of strength. Stated for tables whose labels are in normal
/// form and unrepeated, and for labels whose normal form is its own normal
/// form (trimming and lowercasing once more changes nothing).
pub proof fn law_repeated_ingestion_reinforces(
    g0: GraphView,
    subject: Seq<char>,
    relation: Option<Seq<char>>,
    object: Seq<char>,
    s: AlynxisId,
    r: Option<AlynxisId>,
    o: AlynxisId,
    e: AlynxisId,
    g1: GraphView,
    s2: AlynxisId,
    r2: Option<AlynxisId>,
    o2: AlynxisId,
    e2: AlynxisId,
    g2: GraphView,
)
    requires
        ingestion_of(g0, subject, relation, object, s, r, o, e, g1),
        ingestion_of(g1, subject, relation, object, s2, r2, o2, e2, g2),
        labels_in_normal_form(g0.nodes),
        labels_unrepeated(g0.nodes),
        norm(norm(subject)) == norm(subject),
        norm(norm(object)) == norm(object),
        relation matches Some(rl) ==> norm(norm(rl)) == norm(rl),
    ensures
        s2 == s,
        r2 == r,
        o2 == o,
        e2 == e,
        g2.nodes.len() == g1.nodes.len(),
        g2.edges.len() == g1.edges.len(),
        forall|k: int| 0 <= k < g1.edges.len() ==> #[trigger] g2.edges[k] == (
            if g1.edges[k].id == e {
                Edge { weight: bumped(g1.edges[k].weight), last_touched_unix: g2.edges[k].last_touched_unix, ..g1.edges[k] }
            } else {
                g1.edges[k]
            }),
{
    let ns = norm(subject);
    let no = norm(object);
    let (h1, h2, h3) = choose|h1: GraphView, h2: GraphView, h3: GraphView|
        #[trigger] ingested(g0, subject, relation, object, s, r, o, e, h1, h2, h3, g1);
    let (j1, j2, j3) = choose|j1: GraphView, j2: GraphView, j3: GraphView|
        #[trigger] ingested(g1, subject, relation, object, s2, r2, o2, e2, j1, j2, j3, g2);

    // First ingestion: each resolved label ends up first-carried by its node.
    lemma_resolved_keeps_first_carriers(g0, subject, s, h1);
    assert(first_with_label_is(h1.nodes, ns, s));
    lemma_resolved_keeps_first_carriers(h1, object, o, h2);
    assert(first_with_label_is(h2.nodes, ns, s));
    assert(first_with_label_is(h2.nodes, no, o));
    match relation {
        Some(rl) => {
            let rid = r->0;
            lemma_resolved_keeps_first_carriers(h2, rl, rid, h3);
            assert(first_with_label_is(h3.nodes, ns, s));
            assert(first_with_label_is(h3.nodes, no, o));
            assert(first_with_label_is(h3.nodes, norm(rl), rid));
        },
        None => {},
    }
    lemma_recorded_edge_is_first(h3, s, o, r, e, g1);
    assert(g1.nodes == h3.nodes);

    // Second ingestion: every label is known, so nothing new is created.
    assert(first_with_label_is(g1.nodes, ns, s));
    assert(s2 == s);
    lemma_resolved_keeps_first_carriers(g1, subject, s2, j1);
    assert(first_with_label_is(g1.nodes, no, o));
    assert(first_with_label_is(j1.nodes, no, o));
    assert(o2 == o);
    lemma_resolved_keeps_first_carriers(j1, object, o2, j2);
    match relation {
        Some(rl) => {
            let rid = r->0;
            assert(first_with_label_is(g1.nodes, norm(rl), rid));
            assert(first_with_label_is(j1.nodes, norm(rl), rid));
            assert(first_with_label_is(j2.nodes, norm(rl), rid));
            let rid2 = r2->0;
            assert(rid2 == rid);
            lemma_resolved_keeps_first_carriers(j2, rl, rid2, j3);
        },
        None => {},
    }
    assert(j3.edges == g1.edges);
    assert(j3.nodes.len() == g1.nodes.len());
}

/// Once a statement is ingested, it is known: its labels and the edge of
/// their triple are all there, and the labels stay in normal form. So,
/// by `ingest_relation`'s contract, ingesting it again always succeeds.
/// Stated for tables whose labels are in normal form and unrepeated, and
/// for labels whose normal form is its own normal form.
pub proof fn law_ingested_statement_is_known(
    g0: GraphView,
    subject: Seq<char>,
    relation: Option<Seq<char>>,
    object: Seq<char>,
    s: AlynxisId,
    r: Option<AlynxisId>,
    o: AlynxisId,
    e: AlynxisId,
    g1: GraphView,
)
    requires
        ingestion_of(g0, subject, relation, object, s, r, o, e, g1),
        labels_in_normal_form(g0.nodes),
        labels_unrepeated(g0.nodes),
        norm(norm(subject)) == norm(subject),
        norm(norm(object)) == norm(object),
        relation matches Some(rl) ==> norm(norm(rl)) == norm(rl),
    ensures
        labels_in_normal_form(g1.nodes),
        statement_known(g1, subject, relation, object),
        first_carrier(g1, subject) == s,
        first_carrier(g1, object) == o,
{
    let ns = norm(subject);
    let no = norm(object);
    let (h1, h2, h3) = choose|h1: GraphView, h2: GraphView, h3: GraphView|
        #[trigger] ingested(g0, subject, relation, object, s, r, o, e, h1, h2, h3, g1);
    lemma_resolved_keeps_first_carriers(g0, subject, s, h1);
    assert(first_with_label_is(h1.nodes, ns, s));
    lemma_resolved_keeps_first_carriers(h1, object, o, h2);
    assert(first_with_label_is(h2.nodes, ns, s));
    assert(first_with_label_is(h2.nodes, no, o));
    match relation {
        Some(rl) => {
            let rid = r->0;
            lemma_resolved_keeps_first_carriers(h2, rl, rid, h3);
            assert(first_with_label_is(h3.nodes, ns, s));
            assert(first_with_label_is(h3.nodes, no, o));
            assert(first_with_label_is(h3.nodes, norm(rl), rid));
        },
        None => {},
    }
    lemma_recorded_edge_is_first(h3, s, o, r, e, g1);
    assert(g1.nodes == h3.nodes);
    assert(first_with_label_is(g1.nodes, ns, s));
    assert(first_with_label_is(g1.nodes, no, o));
}

/// A node inserted into the tables is found again by its id with its id,
/// external identity and times unchanged, and with exactly the normal
/// forms of its labels, each once; an id never inserted is not found.
pub proof fn law_inserted_node_is_found(g0: GraphView, n: NodeView, g1: GraphView, other: AlynxisId)
    requires
        g1.wf(),
        g1.nodes == g0.nodes.push(NodeView { labels: add_labels(Seq::empty(), n.labels), ..n }),
    ensures
        node_with_id(g1.nodes, n.id) == Some(NodeView { labels: add_labels(Seq::empty(), n.labels), ..n }),
        forall|l: Seq<char>| add_labels(Seq::empty(), n.labels).contains(l) <==>
            exists|j: int| 0 <= j < n.labels.len() && l == norm(#[trigger] n.labels[j]),
        add_labels(Seq::empty(), n.labels).no_duplicates(),
        !has_node(g1.nodes, other) ==> node_with_id(g1.nodes, other) is None,
{
    let m = g0.nodes.len() as int;
    assert(g1.nodes[m].id == n.id);
    assert(has_node(g1.nodes, n.id));
    let c = choose|i: int| 0 <= i < g1.nodes.len() && g1.nodes[i].id == n.id;
    assert(c == m);
    lemma_add_labels_members(Seq::empty(), n.labels);
    lemma_add_labels(Seq::empty(), n.labels);
    assert forall|l: Seq<char>| !Seq::<Seq<char>>::empty().contains(l) by {}
}

/// The labels that adding `ls` to `acc` gives are those of `acc` and the
/// normal forms of `ls`.
pub proof fn lemma_add_labels_members(acc: Seq<Seq<char>>, ls: Seq<Seq<char>>)
    ensures
        forall|l: Seq<char>| #[trigger] add_labels(acc, ls).contains(l) <==> (acc.contains(l)
            || exists|j: int| 0 <= j < ls.len() && l == norm(#[trigger] ls[j])),
    decreases ls.len(),
{
    if ls.len() > 0 {
        let d = ls.drop_last();
        lemma_add_labels_members(acc, d);
        let a = add_labels(acc, d);
        let x = norm(ls.last());
        assert forall|l: Seq<char>| add_labels(acc, ls).contains(l) <==> (acc.contains(l)
            || exists|j: int| 0 <= j < ls.len() && l == norm(#[trigger] ls[j])) by {
            if add_labels(acc, ls).contains(l) {
                if a.contains(l) {
                    if !acc.contains(l) {
                        let j = choose|j: int| 0 <= j < d.len() && l == norm(#[trigger] d[j]);
                        assert(ls[j] == d[j]);
                    }
                } else {
                    assert(!a.contains(x));
                    let i = choose|i: int| 0 <= i < a.push(x).len() && a.push(x)[i] == l;
                    if i < a.len() {
                        assert(a.push(x)[i] == a[i]);
                    }
                    assert(l == norm(ls[ls.len() - 1]));
                }
            } else {
                if a.contains(l) {
                    let i = choose|i: int| 0 <= i < a.len() && a[i] == l;
                    if !a.contains(x) {
                        assert(a.push(x)[i] == l);
                    }
                    assert(add_labels(acc, ls).contains(l));
                }
                assert(!a.contains(l));
                assert(!acc.contains(l));
                assert forall|j: int| 0 <= j < ls.len() implies l != norm(#[trigger] ls[j]) by {
                    if j < d.len() {
                        assert(ls[j] == d[j]);
                    } else {
                        assert(ls[j] == ls.last());
                        if a.contains(x) {
                            assert(add_labels(acc, ls) == a);
                            if l == x {
                                assert(a.contains(l));
                            }
                        } else {
                            assert(a.push(x)[a.len() as int] == x);
                            if l == x {
                                assert(a.push(x).contains(l));
                            }
                        }
                    }
                }
                if !a.contains(x) {
                    assert forall|i: int| 0 <= i < a.len() implies a[i] != l by {
                        assert(a.push(x)[i] == a[i]);
                    }
                }
            }
        }
    }
}

/// Each node carries at most one label, as the nodes that ingestion makes
/// do.
pub open spec fn single_labels(nodes: Seq<NodeView>) -> bool {
    forall|k: int| 0 <= k < nodes.len() ==> (#[trigger] nodes[k]).labels.len() <= 1
}

/// Resolving a label with a stable normal form, over tables in normal form
/// with at most one label per node, keeps at most one label per node.
pub proof fn lemma_resolved_keeps_single_labels(g0: GraphView, label: Seq<char>, id: AlynxisId, g1: GraphView)
    requires
        resolved(g0, label, id, g1),
        labels_in_normal_form(g0.nodes),
        single_labels(g0.nodes),
        norm(norm(label)) == norm(label),
    ensures
        single_labels(g1.nodes),
{
    if ids_with_label(g0.nodes, norm(label)).len() > 0 {
        assert forall|k: int| 0 <= k < g1.nodes.len() implies (#[trigger] g1.nodes[k]).labels.len() <= 1 by {
            if g0.nodes[k].id == id {
                let l = g0.nodes[k].labels;
                assert forall|j: int| 0 <= j < l.len() implies l.contains(norm(#[trigger] l[j])) by {
                    assert(norm(g0.nodes[k].labels[j]) == g0.nodes[k].labels[j]);
                }
                lemma_add_labels_absorbed(l, l);
            }
        }
    } else {
        assert forall|k: int| 0 <= k < g1.nodes.len() implies (#[trigger] g1.nodes[k]).labels.len() <= 1 by {
            if k < g0.nodes.len() {
                assert(g1.nodes[k] == g0.nodes[k]);
            } else {
                assert(g1.nodes[k] == g1.nodes.last());
            }
        }
    }
}

/// Node ids are unique.
pub open spec fn unique_node_ids(nodes: Seq<NodeView>) -> bool {
    forall|i: int, j: int| 0 <= i < nodes.len() && 0 <= j < nodes.len() && i != j ==> nodes[i].id != nodes[j].id
}

/// Resolving a label keeps node ids unique.
pub proof fn lemma_resolved_keeps_unique_ids(g0: GraphView, label: Seq<char>, id: AlynxisId, g1: GraphView)
    requires
        resolved(g0, label, id, g1),
        unique_node_ids(g0.nodes),
    ensures
        unique_node_ids(g1.nodes),
{
    if ids_with_label(g0.nodes, norm(label)).len() > 0 {
        assert forall|i: int, j: int| 0 <= i < g1.nodes.len() && 0 <= j < g1.nodes.len() && i != j
            implies g1.nodes[i].id != g1.nodes[j].id by {
            assert(g1.nodes[i].id == g0.nodes[i].id);
            assert(g1.nodes[j].id == g0.nodes[j].id);
        }
    } else {
        let m = g0.nodes.len() as int;
        assert forall|i: int, j: int| 0 <= i < g1.nodes.len() && 0 <= j < g1.nodes.len() && i != j
            implies g1.nodes[i].id != g1.nodes[j].id by {
            if i < m && j < m {
                assert(g1.nodes[i] == g0.nodes[i] && g1.nodes[j] == g0.nodes[j]);
            } else if i < m {
                assert(g1.nodes[i] == g0.nodes[i]);
                assert(g1.nodes[j].id == id);
            } else {
                assert(g1.nodes[j] == g0.nodes[j]);
                assert(g1.nodes[i].id == id);
            }
        }
    }
}

/// The normal form of an ASCII label is its own normal form.
pub proof fn lemma_ascii_norm_stable(label: Seq<char>)
    requires
        ascii_text(label),
    ensures
        norm(norm(label)) == norm(label),
        ascii_text(norm(label)),
{
    lemma_ascii_trim_lower_stable(label);
}

/// Labels are told apart by their normal form alone: resolving `l1` and
/// then `l2` gives the same node exactly when their normal forms (trimmed,
/// then lowercased) are equal. Stated for tables whose labels are in normal
/// form, unrepeated and at most one per node (as ingestion makes them), and
/// for labels whose normal form is its own normal form.
pub proof fn law_labels_share_a_node_iff_same_normal_form(
    g0: GraphView,
    l1: Seq<char>,
    id1: AlynxisId,
    g1: GraphView,
    l2: Seq<char>,
    id2: AlynxisId,
    g2: GraphView,
)
    requires
        resolved(g0, l1, id1, g1),
        resolved(g1, l2, id2, g2),
        g0.wf(),
        labels_in_normal_form(g0.nodes),
        labels_unrepeated(g0.nodes),
        single_labels(g0.nodes),
        norm(norm(l1)) == norm(l1),
        norm(norm(l2)) == norm(l2),
    ensures
        (id1 == id2) <==> (norm(l1) == norm(l2)),
{
    let n1 = norm(l1);
    let n2 = norm(l2);
    lemma_resolved_keeps_first_carriers(g0, l1, id1, g1);
    lemma_resolved_keeps_single_labels(g0, l1, id1, g1);
    lemma_resolved_keeps_first_carriers(g1, l2, id2, g2);
    lemma_resolved_keeps_single_labels(g1, l2, id2, g2);
    lemma_resolved_keeps_unique_ids(g0, l1, id1, g1);
    lemma_resolved_keeps_unique_ids(g1, l2, id2, g2);
    assert(first_with_label_is(g1.nodes, n1, id1));
    assert(first_with_label_is(g2.nodes, n1, id1));
    assert(first_with_label_is(g2.nodes, n2, id2));
    if n1 != n2 && id1 == id2 {
        lemma_ids_with_label(g2.nodes, n1);
        lemma_ids_with_label(g2.nodes, n2);
        let k1 = choose|k: int| 0 <= k < g2.nodes.len() && g2.nodes[k].id == ids_with_label(g2.nodes, n1)[0]
            && g2.nodes[k].labels.contains(n1) && forall|j: int| 0 <= j < k ==> !g2.nodes[j].labels.contains(n1);
        let k2 = choose|k: int| 0 <= k < g2.nodes.len() && g2.nodes[k].id == ids_with_label(g2.nodes, n2)[0]
            && g2.nodes[k].labels.contains(n2) && forall|j: int| 0 <= j < k ==> !g2.nodes[j].labels.contains(n2);
        assert(k1 == k2);
        let ls = g2.nodes[k1].labels;
        assert(ls.len() <= 1);
        let a = choose|i: int| 0 <= i < ls.len() && ls[i] == n1;
        let b = choose|i: int| 0 <= i < ls.len() && ls[i] == n2;
        assert(a == 0 && b == 0);
    }
}

/// In one ingestion, the subject and the object get the same node exactly
/// when their normal forms are equal ("cat" and "Cat " share a node, "dog"
/// and "cat" do not). Stated for ASCII labels over tables whose labels are
/// in normal form and at most one per node, as ingestion makes them.
pub proof fn law_subject_and_object_share_a_node_iff_same_normal_form(
    g0: GraphView,
    subject: Seq<char>,
    relation: Option<Seq<char>>,
    object: Seq<char>,
    s: AlynxisId,
    r: Option<AlynxisId>,
    o: AlynxisId,
    e: AlynxisId,
    g4: GraphView,
)
    requires
        ingestion_of(g0, subject, relation, object, s, r, o, e, g4),
        g0.wf(),
        labels_in_normal_form(g0.nodes),
        single_labels(g0.nodes),
        ascii_text(subject),
        ascii_text(object),
    ensures
        (s == o) <==> (norm(subject) == norm(object)),
{
    let (h1, h2, h3) = choose|h1: GraphView, h2: GraphView, h3: GraphView|
        #[trigger] ingested(g0, subject, relation, object, s, r, o, e, h1, h2, h3, g4);
    lemma_ascii_norm_stable(subject);
    lemma_ascii_norm_stable(object);
    law_labels_share_a_node_iff_same_normal_form(g0, subject, s, h1, object, o, h2);
}

/// Labels are told apart by their normal form alone, for ASCII labels: as
/// `law_labels_share_a_node_iff_same_normal_form`, whose premise that each
/// normal form is its own normal form holds of every ASCII label.
pub proof fn law_ascii_labels_share_a_node_iff_same_normal_form(
    g0: GraphView,
    l1: Seq<char>,
    id1: AlynxisId,
    g1: GraphView,
    l2: Seq<char>,
    id2: AlynxisId,
    g2: GraphView,
)
    requires
        resolved(g0, l1, id1, g1),
        resolved(g1, l2, id2, g2),
        g0.wf(),
        labels_in_normal_form(g0.nodes),
        single_labels(g0.nodes),
        ascii_text(l1),
        ascii_text(l2),
    ensures
        (id1 == id2) <==> (norm(l1) == norm(l2)),
{
    lemma_ascii_norm_stable(l1);
    lemma_ascii_norm_stable(l2);
    law_labels_share_a_node_iff_same_normal_form(g0, l1, id1, g1, l2, id2, g2);
}

/// Ingesting an ASCII statement keeps the tables as ingestion makes them
/// (labels in normal form, at most one per node) and leaves the statement
/// known, so by `ingest_relation`'s contract ingesting it again always
/// succeeds. Tables that start empty, or hold only the bare self node,
/// meet the premises, so every run of ASCII ingestions keeps them.
pub proof fn law_ascii_ingestion_keeps_tables_normal(
    g0: GraphView,
    subject: Seq<char>,
    relation: Option<Seq<char>>,
    object: Seq<char>,
    s: AlynxisId,
    r: Option<AlynxisId>,
    o: AlynxisId,
    e: AlynxisId,
    g4: GraphView,
)
    requires
        ingestion_of(g0, subject, relation, object, s, r, o, e, g4),
        g0.wf(),
        labels_in_normal_form(g0.nodes),
        single_labels(g0.nodes),
        ascii_text(subject),
        ascii_text(object),
        relation matches Some(rl) ==> ascii_text(rl),
    ensures
        labels_in_normal_form(g4.nodes),
        single_labels(g4.nodes),
        statement_known(g4, subject, relation, object),
{
    lemma_ascii_norm_stable(subject);
    lemma_ascii_norm_stable(object);
    if let Some(rl) = relation {
        lemma_ascii_norm_stable(rl);
    }
    law_ingested_statement_is_known(g0, subject, relation, object, s, r, o, e, g4);
    let (h1, h2, h3) = choose|h1: GraphView, h2: GraphView, h3: GraphView|
        #[trigger] ingested(g0, subject, relation, object, s, r, o, e, h1, h2, h3, g4);
    lemma_resolved_keeps_first_carriers(g0, subject, s, h1);
    lemma_resolved_keeps_single_labels(g0, subject, s, h1);
    lemma_resolved_keeps_single_labels(h1, object, o, h2);
    match relation {
        Some(rl) => {
            lemma_resolved_keeps_first_carriers(h1, object, o, h2);
            lemma_resolved_keeps_single_labels(h2, rl, r->0, h3);
        },
        None => {},
    }
    lemma_recorded_edge_is_first(h3, s, o, r, e, g4);
}

/// A label that no node carries is never skipped: finding or creating its
/// node gives a new node (an id no node had) carrying exactly its normal
/// form, and leaves every other node and every edge as it was. The only
/// way it can fail is a freshly drawn random id colliding with one already
/// in the table, so on tables where no node has a random (version-4) id,
/// such as empty tables, it always succeeds.
pub proof fn law_novel_label_is_created_unless_its_fresh_id_is_taken(
    g0: GraphView,
    label: Seq<char>,
    r: Result<AlynxisId, WorldModelError>,
    g1: GraphView,
)
    requires
        label_resolution(g0, label, r, g1),
        ids_with_label(g0.nodes, norm(label)).len() == 0,
    ensures
        r is Err ==> exists|x: AlynxisId| has_node(g0.nodes, x) && is_random_uuid(x.0),
        (forall|x: AlynxisId| has_node(g0.nodes, x) ==> !is_random_uuid(x.0)) ==> r is Ok,
        r matches Ok(id) ==> {
            &&& !has_node(g0.nodes, id)
            &&& g1.nodes.len() == g0.nodes.len() + 1
            &&& g1.nodes.subrange(0, g0.nodes.len() as int) == g0.nodes
            &&& g1.nodes.last().id == id
            &&& g1.nodes.last().labels == seq![norm(label)]
            &&& g1.nodes.last().external_identity is None
            &&& g1.edges == g0.edges
        },
{
    if let Ok(id) = r {
        assert(g1.nodes.subrange(0, g0.nodes.len() as int) =~= g0.nodes);
    }
}

/// An ingestion fails only where a freshly drawn random id collided: the
/// tables it leaves already hold a node or an edge with a random
/// (version-4) id.
pub proof fn law_ingestion_fails_only_on_a_taken_random_id(
    g0: GraphView,
    subject: Seq<char>,
    relation: Option<Seq<char>>,
    object: Seq<char>,
    g: GraphView,
)
    requires
        ingestion_stopped(g0, subject, relation, object, g),
    ensures
        random_node_id_taken(g) || random_edge_id_taken(g),
{
    if !(!known_label(g0, subject) && g == g0 && random_node_id_taken(g0)) {
        let (s, g1) = choose|s: AlynxisId, g1: GraphView|
            #[trigger] resolved(g0, subject, s, g1) && stopped_after_subject(g1, s, relation, object, g);
        if !(!known_label(g1, object) && g == g1 && random_node_id_taken(g1)) {
            let (o, g2) = choose|o: AlynxisId, g2: GraphView|
                #[trigger] resolved(g1, object, o, g2) && stopped_after_object(g2, s, o, relation, g);
            match relation {
                None => {},
                Some(rl) => {
                    if !(!known_label(g2, rl) && g == g2 && random_node_id_taken(g2)) {
                        let (rid, g3) = choose|rid: AlynxisId, g3: GraphView|
                            #[trigger] resolved(g2, rl, rid, g3) && first_triple(g3.edges, s, o, Some(rid)) is None
                                && g == g3 && random_edge_id_taken(g3);
                    }
                },
            }
        }
    }
}

/// The concept-generalization rule: a label whose normal form no node
/// carries always gets a new node (an id no node had), carrying exactly
/// that normal form; it is never silently skipped.
pub proof fn law_novel_label_gets_new_node(g0: GraphView, label: Seq<char>, id: AlynxisId, g1: GraphView)
    requires
        resolved(g0, label, id, g1),
        ids_with_label(g0.nodes, norm(label)).len() == 0,
    ensures
        !has_node(g0.nodes, id),
        g1.nodes.len() == g0.nodes.len() + 1,
        g1.nodes.last().id == id,
        g1.nodes.last().labels == seq![norm(label)],
        g1.edges == g0.edges,
{
}

/// A label whose normal form some node carries is resolved to the first
/// such node: no node is added, and the other nodes are unchanged.
pub proof fn law_known_label_reuses_first_node(g0: GraphView, label: Seq<char>, id: AlynxisId, g1: GraphView)
    requires
        resolved(g0, label, id, g1),
        ids_with_label(g0.nodes, norm(label)).len() > 0,
    ensures
        id == ids_with_label(g0.nodes, norm(label))[0],
        has_node(g0.nodes, id),
        g1.nodes.len() == g0.nodes.len(),
        forall|k: int| 0 <= k < g0.nodes.len() && g0.nodes[k].id != id ==> #[trigger] g1.nodes[k] == g0.nodes[k],
        g1.edges == g0.edges,
{
    lemma_ids_with_label(g0.nodes, norm(label));
    assert(ids_with_label(g0.nodes, norm(label))[0] == id);
}

/// Binding an admin identity twice gives the same node: after the first
/// binding, that node is the first bound to the identity, so the second
/// binding returns it and changes nothing.
pub proof fn law_bind_admin_identity_is_idempotent(g0: GraphView, x: AlynxisId, id: AlynxisId, g1: GraphView)
    requires
        first_with_identity(g0.nodes, x) is None,
        g1.nodes == g0.nodes.push(NodeView {
            id: id,
            labels: Seq::empty(),
            external_identity: Some(x),
            created_at_unix: g1.nodes.last().created_at_unix,
            last_touched_unix: g1.nodes.last().created_at_unix,
        }),
    ensures
        first_with_identity(g1.nodes, x) == Some(id),
{
    let m = g0.nodes.len() as int;
    assert forall|k: int| 0 <= k < m implies g1.nodes[k].external_identity != Some(x) by {
        assert(g1.nodes[k] == g0.nodes[k]);
        if g0.nodes[k].external_identity == Some(x) {
            lemma_some_first_identity(g0.nodes, x, k);
        }
    }
    assert(first_identity_at(g1.nodes, x, m));
    let c = choose|i: int| first_identity_at(g1.nodes, x, i);
    assert(c == m);
}

/// If some node is bound to `x`, a first one is.
pub proof fn lemma_some_first_identity(s: Seq<NodeView>, x: AlynxisId, k: int)
    requires
        0 <= k < s.len(),
        s[k].external_identity == Some(x),
    ensures
        exists|j: int| first_identity_at(s, x, j),
    decreases k,
{
    if exists|q: int| 0 <= q < k && s[q].external_identity == Some(x) {
        let q = choose|q: int| 0 <= q < k && s[q].external_identity == Some(x);
        lemma_some_first_identity(s, x, q);
    } else {
        assert(first_identity_at(s, x, k));
    }
}

} // verus!
