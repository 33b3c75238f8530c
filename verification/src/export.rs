use vstd::prelude::*;

verus! {

use crate::value::{EdgeKindWithIxs, ValueGraph};

#[verifier::external_type_specification]
#[verifier::external_body]
#[verifier::reject_recursive_types(N)]
#[verifier::reject_recursive_types(E)]
#[verifier::reject_recursive_types(Ty)]
#[verifier::reject_recursive_types(Ix)]
pub struct ExPetgraphGraph<N, E, Ty, Ix>(petgraph::Graph<N, E, Ty, Ix>);

#[verifier::external_type_specification]
#[verifier::external_body]
pub struct ExPetgraphDirected(petgraph::Directed);

#[verifier::external_type_specification]
#[verifier::external_body]
#[verifier::reject_recursive_types(Ix)]
pub struct ExPetgraphNodeIndex<Ix>(petgraph::prelude::NodeIndex<Ix>);

/// The node weights a petgraph graph holds, in node-index order.
pub uninterp spec fn pg_nodes(g: petgraph::prelude::DiGraph<u32, u32>) -> Seq<u32>;

/// The edges a petgraph graph holds, in edge-index order, as
/// (source index, target index, weight) triples.
pub uninterp spec fn pg_edges(g: petgraph::prelude::DiGraph<u32, u32>) -> Seq<(u32, u32, u32)>;

/// Relies on petgraph's Graph::new: a graph without nodes or edges.
#[verifier::external_body]
fn pg_new() -> (g: petgraph::prelude::DiGraph<u32, u32>)
    ensures
        pg_nodes(g) == Seq::<u32>::empty(),
        pg_edges(g) == Seq::<(u32, u32, u32)>::empty(),
{
    petgraph::Graph::new()
}

/// Relies on petgraph's Graph::add_node: appends the weight and returns
/// its index, which counts up from zero; the edges are untouched. Full
/// graphs are excluded: at the index type's limit the call panics.
#[verifier::external_body]
fn pg_add_node(g: &mut petgraph::prelude::DiGraph<u32, u32>, w: u32) -> (ix: u32)
    requires
        pg_nodes(*old(g)).len() < u32::MAX,
    ensures
        pg_nodes(*final(g)) == pg_nodes(*old(g)).push(w),
        pg_edges(*final(g)) == pg_edges(*old(g)),
        ix == pg_nodes(*old(g)).len(),
{
    g.add_node(w).index() as u32
}

/// Relies on petgraph's Graph::add_edge: appends one edge between two
/// existing node indices; the nodes are untouched. Absent endpoints and
/// full graphs are excluded: on them the call panics.
#[verifier::external_body]
fn pg_add_edge(g: &mut petgraph::prelude::DiGraph<u32, u32>, a: u32, b: u32, w: u32)
    requires
        a < pg_nodes(*old(g)).len(),
        b < pg_nodes(*old(g)).len(),
        pg_edges(*old(g)).len() < u32::MAX,
    ensures
        pg_nodes(*final(g)) == pg_nodes(*old(g)),
        pg_edges(*final(g)) == pg_edges(*old(g)).push((a, b, w)),
{
    let _ = g.add_edge(
        petgraph::prelude::NodeIndex::new(a as usize),
        petgraph::prelude::NodeIndex::new(b as usize),
        w,
    );
}

/// Relies on petgraph's Graph::node_count: the number of nodes.
#[verifier::external_body]
pub fn pg_node_count(g: &petgraph::prelude::DiGraph<u32, u32>) -> (n: usize)
    ensures
        n == pg_nodes(*g).len(),
{
    g.node_count()
}

/// Relies on petgraph's Graph::edge_count: the number of edges.
#[verifier::external_body]
pub fn pg_edge_count(g: &petgraph::prelude::DiGraph<u32, u32>) -> (n: usize)
    ensures
        n == pg_edges(*g).len(),
{
    g.edge_count()
}

/// The arcs that survive the export: those whose endpoint positions name
/// vertices, as (source index, target index, arc position) triples.
pub open spec fn spec_export_edges(arcs: Seq<EdgeKindWithIxs<u32>>, n: int) -> Seq<(u32, u32, u32)>
    decreases arcs.len(),
{
    if arcs.len() == 0 {
        Seq::empty()
    } else {
        let pre = spec_export_edges(arcs.drop_last(), n);
        let a = arcs.last();
        if a.from_ix < n && a.to_ix < n {
            pre.push((a.from_ix, a.to_ix, (arcs.len() - 1) as u32))
        } else {
            pre
        }
    }
}

/// Exports the value graph's structure into a petgraph graph: one node per
/// vertex carrying the vertex's node id, in vertex order, and one edge per
/// arc carrying the arc's position, so callers can look the full arc back
/// up. An arc whose endpoint positions are out of range is dropped.
pub fn to_petgraph(vg: &ValueGraph) -> (g: petgraph::prelude::DiGraph<u32, u32>)
    requires
        vg.vertices@.len() < u32::MAX,
        vg.arcs@.len() < u32::MAX,
        vg.vertex_ids@.len() == vg.vertices@.len(),
    ensures
        pg_nodes(g) == vg.vertex_ids@,
        pg_edges(g) == spec_export_edges(vg.arcs@, vg.vertex_ids@.len() as int),
{
    let ghost ids = vg.vertex_ids@;
    let ghost arcs = vg.arcs@;
    let mut g = pg_new();
    proof {
        assert(ids.take(0) =~= Seq::<u32>::empty());
    }
    let mut i: usize = 0;
    while i < vg.vertex_ids.len()
        invariant
            i <= vg.vertex_ids.len(),
            ids == vg.vertex_ids@,
            ids.len() < u32::MAX,
            pg_nodes(g) == ids.take(i as int),
            pg_edges(g) == Seq::<(u32, u32, u32)>::empty(),
        decreases vg.vertex_ids.len() - i,
    {
        let _ix = pg_add_node(&mut g, vg.vertex_ids[i]);
        proof {
            assert(ids.take(i as int).push(ids[i as int]) =~= ids.take(i + 1));
        }
        i = i + 1;
    }
    proof {
        assert(ids.take(ids.len() as int) =~= ids);
        assert(arcs.take(0) =~= Seq::<EdgeKindWithIxs<u32>>::empty());
    }
    let n = vg.vertex_ids.len();
    let mut m: usize = 0;
    while m < vg.arcs.len()
        invariant
            m <= vg.arcs.len(),
            ids == vg.vertex_ids@,
            arcs == vg.arcs@,
            n == ids.len(),
            arcs.len() < u32::MAX,
            pg_nodes(g) == ids,
            pg_edges(g) == spec_export_edges(arcs.take(m as int), n as int),
        decreases vg.arcs.len() - m,
    {
        proof {
            assert(arcs.take(m + 1).drop_last() =~= arcs.take(m as int));
            assert(arcs.take(m + 1).last() == arcs[m as int]);
            assert(spec_export_edges(arcs.take(m as int), n as int).len() <= arcs.take(
                m as int,
            ).len()) by {
                lemma_export_edges_len(arcs.take(m as int), n as int);
            }
        }
        let a = vg.arcs[m];
        if (a.from_ix as usize) < n && (a.to_ix as usize) < n {
            pg_add_edge(&mut g, a.from_ix, a.to_ix, m as u32);
        }
        m = m + 1;
    }
    proof {
        assert(arcs.take(arcs.len() as int) =~= arcs);
    }
    g
}

proof fn lemma_export_edges_len(arcs: Seq<EdgeKindWithIxs<u32>>, n: int)
    ensures
        spec_export_edges(arcs, n).len() <= arcs.len(),
    decreases arcs.len(),
{
    if arcs.len() > 0 {
        lemma_export_edges_len(arcs.drop_last(), n);
    }
}

} // verus!
