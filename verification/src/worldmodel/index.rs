//! The coarse similarity index: structural, categorical similarity through
//! the graph (no embeddings). It finds where spreading activation starts;
//! it spreads nothing itself.

use vstd::prelude::*;
use crate::ids::AlynxisId;
use crate::worldmodel::edge::Edge;
use crate::worldmodel::error::WorldModelError;
use crate::worldmodel::storage::{Storage, GraphView, EdgeKey, edges_with_key, key_matches, ids_with_label, norm};

verus! {

/// The strongest edge of `s` that is typed by a relation; among equally
/// strong ones, the last.
pub open spec fn best_typed_edge(s: Seq<Edge>) -> Option<Edge>
    decreases s.len(),
{
    if s.len() == 0 {
        None
    } else {
        let b = best_typed_edge(s.drop_last());
        let e = s.last();
        if e.relation is Some && (match b { None => true, Some(x) => e.weight >= x.weight }) {
            Some(e)
        } else {
            b
        }
    }
}

/// The dominant category of `node`: the (relation, target) of its
/// strongest relation-typed outgoing edge, if it has one.
pub open spec fn category_of(g: GraphView, node: AlynxisId) -> Option<(AlynxisId, AlynxisId)> {
    match best_typed_edge(edges_with_key(g.edges, EdgeKey::Source, node)) {
        Some(e) => match e.relation {
            Some(rel) => Some((rel, e.target)),
            None => None,
        },
        None => None,
    }
}

/// The sources of the edges of `s` typed by `rel`, other than `node`, in
/// order.
pub open spec fn other_sources(s: Seq<Edge>, rel: AlynxisId, node: AlynxisId) -> Seq<AlynxisId>
    decreases s.len(),
{
    if s.len() == 0 {
        Seq::empty()
    } else if s.last().relation == Some(rel) && s.last().source != node {
        other_sources(s.drop_last(), rel, node).push(s.last().source)
    } else {
        other_sources(s.drop_last(), rel, node)
    }
}

/// Every node sharing `node`'s dominant category.
pub open spec fn same_category(g: GraphView, node: AlynxisId) -> Seq<AlynxisId> {
    match category_of(g, node) {
        None => Seq::empty(),
        Some((rel, target)) => other_sources(edges_with_key(g.edges, EdgeKey::Target, target), rel, node),
    }
}

/// Candidate seed nodes for a text token: the nodes carrying it as a label
/// (in normal form). Never fails.
pub fn seed_nodes_for_token(storage: &Storage, token: &str) -> (r: Result<Vec<AlynxisId>, WorldModelError>)
    ensures
        r matches Ok(v) && v@ == ids_with_label(storage@.nodes, norm(token@)),
{
    storage.find_node_ids_by_label(token)
}

/// `node`'s dominant category: the (relation, target) of its strongest
/// outgoing edge that is typed by a relation (untyped edges do not count).
/// Never fails.
pub fn dominant_category(storage: &Storage, node_id: AlynxisId) -> (r: Result<Option<(AlynxisId, AlynxisId)>, WorldModelError>)
    ensures
        r matches Ok(c) && c == category_of(storage@, node_id),
{
    let edges = match storage.find_edges_by_source(node_id) {
        Ok(v) => v,
        Err(e) => {
            return Err(e);
        },
    };
    let ghost s = edges@;
    let mut best: Option<Edge> = None;
    let mut i: usize = 0;
    while i < edges.len()
        invariant
            i <= edges.len(),
            s == edges@,
            best == best_typed_edge(s.take(i as int)),
            forall|b: Edge| best == Some(b) ==> b.relation is Some,
        decreases edges.len() - i,
    {
        proof {
            let t = s.take(i as int + 1);
            assert(t.drop_last() =~= s.take(i as int));
            assert(t.last() == s[i as int]);
        }
        let e = edges[i];
        if e.relation.is_some() {
            let take = match best {
                None => true,
                Some(b) => e.weight >= b.weight,
            };
            if take {
                best = Some(e);
            }
        }
        i = i + 1;
    }
    proof { assert(s.take(s.len() as int) =~= s); }
    match best {
        Some(e) => match e.relation {
            Some(rel) => Ok(Some((rel, e.target))),
            None => Ok(None),
        },
        None => Ok(None),
    }
}

/// Every other node with an edge of the same relation to the same target
/// as `node`'s dominant category; empty when `node` has no dominant
/// category. Never fails.
#[verifier::spinoff_prover]
pub fn nodes_in_same_category(storage: &Storage, node_id: AlynxisId) -> (r: Result<Vec<AlynxisId>, WorldModelError>)
    ensures
        r matches Ok(v) && v@ == same_category(storage@, node_id),
        r matches Ok(v) && match category_of(storage@, node_id) {
            None => v@.len() == 0,
            Some((rel, t)) => forall|x: AlynxisId| #[trigger] v@.contains(x) <==> exists|i: int|
                0 <= i < storage@.edges.len() && storage@.edges[i].target == t && storage@.edges[i].relation == Some(rel)
                    && storage@.edges[i].source == x && x != node_id,
        },
{
    proof { law_same_category_is_every_sibling(storage@, node_id); }
    let (relation, category_target) = match dominant_category(storage, node_id) {
        Ok(Some(c)) => c,
        Ok(None) => {
            return Ok(Vec::new());
        },
        Err(e) => {
            return Err(e);
        },
    };
    let edges = match storage.find_edges_by_target(category_target) {
        Ok(v) => v,
        Err(e) => {
            return Err(e);
        },
    };
    let ghost s = edges@;
    let mut res: Vec<AlynxisId> = Vec::new();
    let mut i: usize = 0;
    while i < edges.len()
        invariant
            i <= edges.len(),
            s == edges@,
            res@ == other_sources(s.take(i as int), relation, node_id),
        decreases edges.len() - i,
    {
        proof {
            let t = s.take(i as int + 1);
            assert(t.drop_last() =~= s.take(i as int));
            assert(t.last() == s[i as int]);
        }
        let e = edges[i];
        if e.relation == Some(relation) && e.source != node_id {
            res.push(e.source);
        }
        i = i + 1;
    }
    proof {
        assert(s.take(s.len() as int) =~= s);
        assert(res@ == same_category(storage@, node_id));
        assert(category_of(storage@, node_id) == Some((relation, category_target)));
        assert forall|x: AlynxisId| #[trigger] res@.contains(x) <==> exists|i: int|
            0 <= i < storage@.edges.len() && storage@.edges[i].target == category_target
                && storage@.edges[i].relation == Some(relation) && storage@.edges[i].source == x && x != node_id by {
            assert(same_category(storage@, node_id).contains(x) == res@.contains(x));
        }
    }
    Ok(res)
}

} // verus!

verus! {

/// A node is never listed as sharing its own category.
pub proof fn law_same_category_excludes_the_node(s: Seq<Edge>, rel: AlynxisId, node: AlynxisId)
    ensures
        !other_sources(s, rel, node).contains(node),
    decreases s.len(),
{
    if s.len() > 0 {
        law_same_category_excludes_the_node(s.drop_last(), rel, node);
        let d = other_sources(s.drop_last(), rel, node);
        if s.last().relation == Some(rel) && s.last().source != node {
            assert forall|i: int| 0 <= i < d.push(s.last().source).len() implies d.push(s.last().source)[i] != node by {
                if i < d.len() {
                    assert(d.push(s.last().source)[i] == d[i]);
                }
            }
        }
    }
}

/// The dominant edge is typed by a relation, is one of the edges, and is
/// at least as strong as every typed edge; there is none only when no
/// edge is typed (untyped associations never make a category).
pub proof fn law_dominant_edge_is_strongest_typed(s: Seq<Edge>)
    ensures
        best_typed_edge(s) matches Some(b) ==> b.relation is Some && s.contains(b)
            && forall|i: int| 0 <= i < s.len() && (#[trigger] s[i]).relation is Some ==> s[i].weight <= b.weight,
        best_typed_edge(s) is None ==> forall|i: int| 0 <= i < s.len() ==> (#[trigger] s[i]).relation is None,
    decreases s.len(),
{
    if s.len() > 0 {
        let d = s.drop_last();
        law_dominant_edge_is_strongest_typed(d);
        let e = s.last();
        let n = s.len() - 1;
        assert(e == s[n]);
        let b0 = best_typed_edge(d);
        let takes = e.relation is Some && (match b0 { None => true, Some(x) => e.weight >= x.weight });
        if takes {
            assert(best_typed_edge(s) == Some(e));
            assert(s.contains(e));
            assert forall|i: int| 0 <= i < s.len() && (#[trigger] s[i]).relation is Some implies s[i].weight <= e.weight by {
                if i < n {
                    assert(s[i] == d[i]);
                }
            }
        } else {
            assert(best_typed_edge(s) == b0);
            if let Some(b) = b0 {
                let k = choose|k: int| 0 <= k < d.len() && d[k] == b;
                assert(s[k] == b);
                assert forall|i: int| 0 <= i < s.len() && (#[trigger] s[i]).relation is Some implies s[i].weight <= b.weight by {
                    if i < n {
                        assert(s[i] == d[i]);
                    }
                }
            } else {
                assert forall|i: int| 0 <= i < s.len() implies (#[trigger] s[i]).relation is None by {
                    if i < n {
                        assert(s[i] == d[i]);
                    }
                }
            }
        }
    }
}


/// The sources that `other_sources` lists are exactly the sources, other
/// than `node`, of the edges of `s` typed by `rel`.
pub proof fn lemma_other_sources_members(s: Seq<Edge>, rel: AlynxisId, node: AlynxisId)
    ensures
        forall|x: AlynxisId| #[trigger] other_sources(s, rel, node).contains(x) <==> exists|i: int|
            0 <= i < s.len() && s[i].relation == Some(rel) && s[i].source == x && x != node,
    decreases s.len(),
{
    if s.len() > 0 {
        let d = s.drop_last();
        lemma_other_sources_members(d, rel, node);
        let od = other_sources(d, rel, node);
        let e = s.last();
        assert forall|x: AlynxisId| #[trigger] other_sources(s, rel, node).contains(x) <==> exists|i: int|
            0 <= i < s.len() && s[i].relation == Some(rel) && s[i].source == x && x != node by {
            let hit = e.relation == Some(rel) && e.source != node;
            if other_sources(s, rel, node).contains(x) {
                if hit {
                    let k = choose|k: int| 0 <= k < od.push(e.source).len() && od.push(e.source)[k] == x;
                    if k < od.len() {
                        assert(od.push(e.source)[k] == od[k]);
                        assert(od.contains(x));
                        let i = choose|i: int| 0 <= i < d.len() && d[i].relation == Some(rel) && d[i].source == x && x != node;
                        assert(s[i] == d[i]);
                    } else {
                        assert(s[s.len() - 1] == e);
                    }
                } else {
                    assert(od.contains(x));
                    let i = choose|i: int| 0 <= i < d.len() && d[i].relation == Some(rel) && d[i].source == x && x != node;
                    assert(s[i] == d[i]);
                }
            } else {
                assert forall|i: int| 0 <= i < s.len() && s[i].relation == Some(rel) && s[i].source == x
                    implies x == node by {
                    if i < d.len() {
                        assert(s[i] == d[i]);
                        if x != node {
                            assert(od.contains(x));
                            if hit {
                                let k = choose|k: int| 0 <= k < od.len() && od[k] == x;
                                assert(od.push(e.source)[k] == x);
                            }
                        }
                    } else {
                        assert(s[i] == e);
                        if x != node {
                            assert(hit);
                            assert(od.push(e.source)[od.len() as int] == x);
                        }
                    }
                }
            }
        }
    }
}

/// The edges that `edges_with_key` lists are exactly the edges of `s` with
/// `x` in column `k`.
pub proof fn lemma_edges_with_key_members(s: Seq<Edge>, k: EdgeKey, x: AlynxisId)
    ensures
        forall|e: Edge| #[trigger] edges_with_key(s, k, x).contains(e) <==> (s.contains(e) && key_matches(e, k, x)),
    decreases s.len(),
{
    if s.len() > 0 {
        let d = s.drop_last();
        lemma_edges_with_key_members(d, k, x);
        let ed = edges_with_key(d, k, x);
        let l = s.last();
        assert forall|e: Edge| #[trigger] edges_with_key(s, k, x).contains(e) <==> (s.contains(e) && key_matches(e, k, x)) by {
            if edges_with_key(s, k, x).contains(e) {
                if key_matches(l, k, x) {
                    let j = choose|j: int| 0 <= j < ed.push(l).len() && ed.push(l)[j] == e;
                    if j < ed.len() {
                        assert(ed.push(l)[j] == ed[j]);
                        assert(ed.contains(e));
                        let i = choose|i: int| 0 <= i < d.len() && d[i] == e;
                        assert(s[i] == d[i]);
                    } else {
                        assert(s[s.len() - 1] == l);
                    }
                } else {
                    assert(ed.contains(e));
                    let i = choose|i: int| 0 <= i < d.len() && d[i] == e;
                    assert(s[i] == d[i]);
                }
            }
            if s.contains(e) && key_matches(e, k, x) {
                let i = choose|i: int| 0 <= i < s.len() && s[i] == e;
                if i < d.len() {
                    assert(d[i] == e);
                    assert(d.contains(e));
                    assert(ed.contains(e));
                    if key_matches(l, k, x) {
                        let j = choose|j: int| 0 <= j < ed.len() && ed[j] == e;
                        assert(ed.push(l)[j] == e);
                    }
                } else {
                    assert(e == l);
                    assert(ed.push(l)[ed.len() as int] == e);
                }
            }
        }
    }
}

/// The nodes sharing `node`'s dominant category are exactly the sources,
/// other than `node` itself, of the edges that carry the category's
/// relation into the category's target; a node without a dominant
/// category shares it with none. No such source is left out.
pub proof fn law_same_category_is_every_sibling(g: GraphView, node: AlynxisId)
    ensures
        match category_of(g, node) {
            None => same_category(g, node).len() == 0,
            Some((rel, t)) => forall|x: AlynxisId| #[trigger] same_category(g, node).contains(x) <==> exists|i: int|
                0 <= i < g.edges.len() && g.edges[i].target == t && g.edges[i].relation == Some(rel)
                    && g.edges[i].source == x && x != node,
        },
{
    match category_of(g, node) {
        None => {},
        Some((rel, t)) => {
            let s = edges_with_key(g.edges, EdgeKey::Target, t);
            lemma_other_sources_members(s, rel, node);
            lemma_edges_with_key_members(g.edges, EdgeKey::Target, t);
            assert forall|x: AlynxisId| #[trigger] same_category(g, node).contains(x) <==> exists|i: int|
                0 <= i < g.edges.len() && g.edges[i].target == t && g.edges[i].relation == Some(rel)
                    && g.edges[i].source == x && x != node by {
                if same_category(g, node).contains(x) {
                    let j = choose|j: int| 0 <= j < s.len() && s[j].relation == Some(rel) && s[j].source == x && x != node;
                    assert(s.contains(s[j]));
                    assert(g.edges.contains(s[j]) && key_matches(s[j], EdgeKey::Target, t));
                    let i = choose|i: int| 0 <= i < g.edges.len() && g.edges[i] == s[j];
                    assert(g.edges[i].target == t);
                }
                if exists|i: int| 0 <= i < g.edges.len() && g.edges[i].target == t && g.edges[i].relation == Some(rel)
                    && g.edges[i].source == x && x != node {
                    let i = choose|i: int| 0 <= i < g.edges.len() && g.edges[i].target == t && g.edges[i].relation == Some(rel)
                        && g.edges[i].source == x && x != node;
                    let e = g.edges[i];
                    assert(g.edges.contains(e));
                    assert(key_matches(e, EdgeKey::Target, t));
                    assert(s.contains(e));
                    let j = choose|j: int| 0 <= j < s.len() && s[j] == e;
                    assert(s[j].relation == Some(rel) && s[j].source == x);
                }
            }
        },
    }
}

} // verus!
