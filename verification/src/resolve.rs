use vstd::prelude::*;

verus! {

use crate::graph::{
    DescView, Edge, NodeOutput, NodeView, Registry, ids_contain,
    node_ids_in_range, nodes_contain_id, seq_has_node_id,
};

/// Mathematical image of a resolved graph: deduplicated nodes, deduplicated
/// edges, and the set of entity ids already merged.
#[verifier::ext_equal]
pub struct GraphModel {
    pub nodes: Seq<NodeView>,
    pub edges: Seq<Edge>,
    pub visited: Set<u32>,
}

/// The graph a resolution starts from.
pub open spec fn empty_graph() -> GraphModel {
    GraphModel { nodes: Seq::empty(), edges: Seq::empty(), visited: Set::empty() }
}

/// Merges nodes left to right, keeping the first node seen for each id:
/// a node whose id is already present is dropped.
pub open spec fn merge_nodes(acc: Seq<NodeView>, ns: Seq<NodeView>) -> Seq<NodeView>
    decreases ns.len(),
{
    if ns.len() == 0 {
        acc
    } else {
        let acc2 = if seq_has_node_id(acc, ns[0].id) {
            acc
        } else {
            acc.push(ns[0])
        };
        merge_nodes(acc2, ns.drop_first())
    }
}

/// Merges edges left to right as a set union: an edge already present is
/// dropped.
pub open spec fn merge_edges(acc: Seq<Edge>, es: Seq<Edge>) -> Seq<Edge>
    decreases es.len(),
{
    if es.len() == 0 {
        acc
    } else {
        let acc2 = if acc.contains(es[0]) {
            acc
        } else {
            acc.push(es[0])
        };
        merge_edges(acc2, es.drop_first())
    }
}

/// One resolution step: merge a descriptor's own nodes and edges into the
/// graph and mark its entity id visited.
pub open spec fn merge_entity(g: GraphModel, id: u32, d: DescView) -> GraphModel {
    GraphModel {
        nodes: merge_nodes(g.nodes, d.nodes),
        edges: merge_edges(g.edges, d.edges),
        visited: g.visited.insert(id),
    }
}

/// The worklist closure: pop an id; drop it if already merged or mark it
/// visited if unknown; otherwise merge its descriptor and enqueue every
/// referenced entity. The visited check is what terminates cyclic
/// reference graphs.
pub open spec fn resolve_rec(reg: Map<u32, DescView>, g: GraphModel, work: Seq<u32>) -> GraphModel
    decreases reg.dom().difference(g.visited).len(), work.len(),
    when g.visited.finite() && reg.dom().finite()
    via resolve_rec_dec
{
    if work.len() == 0 {
        g
    } else {
        let id = work[0];
        let rest = work.drop_first();
        if g.visited.contains(id) {
            resolve_rec(reg, g, rest)
        } else if !reg.dom().contains(id) {
            resolve_rec(
                reg,
                GraphModel { nodes: g.nodes, edges: g.edges, visited: g.visited.insert(id) },
                rest,
            )
        } else {
            resolve_rec(reg, merge_entity(g, id, reg[id]), rest + reg[id].types)
        }
    }
}

#[via_fn]
proof fn resolve_rec_dec(reg: Map<u32, DescView>, g: GraphModel, work: Seq<u32>) {
    broadcast use vstd::set::group_set_axioms;

    if work.len() > 0 {
        let id = work[0];
        if g.visited.contains(id) {
        } else if !reg.dom().contains(id) {
            assert(reg.dom().difference(g.visited.insert(id)) =~= reg.dom().difference(g.visited));
        } else {
            reg.dom().lemma_set_insert_diff_decreases(g.visited, id);
        }
    }
}

/// The graph of the closure of all entities reachable from the root.
pub open spec fn spec_resolve(reg: Map<u32, DescView>, root: u32) -> GraphModel {
    resolve_rec(reg, empty_graph(), seq![root])
}

/// A resolved graph: nodes deduplicated by id, edges deduplicated, and the
/// ids of the merged entities. Built once per root query; read-only after.
#[derive(Debug, PartialEq)]
pub struct ResolvedGraph {
    pub nodes: Vec<NodeOutput>,
    pub edges: Vec<Edge>,
    pub visited: Vec<u32>,
}

impl View for ResolvedGraph {
    type V = GraphModel;

    open spec fn view(&self) -> GraphModel {
        GraphModel {
            nodes: self.nodes.deep_view(),
            edges: self.edges@,
            visited: self.visited@.to_set(),
        }
    }
}

/// Whether the vector contains the given edge.
pub fn edges_contain(v: &Vec<Edge>, e: Edge) -> (r: bool)
    ensures
        r == v@.contains(e),
{
    let mut i: usize = 0;
    while i < v.len()
        invariant
            i <= v.len(),
            forall|k: int| 0 <= k < i ==> v@[k] != e,
        decreases v.len() - i,
    {
        if v[i].from == e.from && v[i].to == e.to {
            return true;
        }
        i = i + 1;
    }
    false
}

/// Resolves the transitive closure of the root entity over the registry,
/// by the worklist algorithm of `resolve_rec`. Deterministic and total:
/// the result is exactly `spec_resolve(reg@, root)`.
pub fn resolve(reg: &Registry, root: u32) -> (g: ResolvedGraph)
    requires
        reg.wf(),
    ensures
        g@ == spec_resolve(reg@, root),
{
    broadcast use vstd::set::group_set_axioms, vstd::seq_lib::group_seq_properties;

    proof {
        reg.lemma_wf_map();
    }
    let mut nodes: Vec<NodeOutput> = Vec::new();
    let mut edges: Vec<Edge> = Vec::new();
    let mut visited: Vec<u32> = Vec::new();
    let mut work: Vec<u32> = Vec::new();
    work.push(root);
    proof {
        assert(work@ =~= seq![root]);
        assert(nodes.deep_view() =~= Seq::<NodeView>::empty());
        assert(visited@.to_set() =~= Set::<u32>::empty());
        assert(GraphModel {
            nodes: nodes.deep_view(),
            edges: edges@,
            visited: visited@.to_set(),
        } =~= empty_graph());
    }
    while work.len() > 0
        invariant
            reg.wf(),
            reg@.dom().finite(),
            resolve_rec(
                reg@,
                GraphModel { nodes: nodes.deep_view(), edges: edges@, visited: visited@.to_set() },
                work@,
            ) == spec_resolve(reg@, root),
        decreases reg@.dom().difference(visited@.to_set()).len(), work@.len(),
    {
        let ghost g0 = GraphModel {
            nodes: nodes.deep_view(),
            edges: edges@,
            visited: visited@.to_set(),
        };
        let ghost work0 = work@;
        proof {
            vstd::seq_lib::seq_to_set_is_finite(visited@);
        }
        let id = work.remove(0);
        proof {
            assert(work@ =~= work0.drop_first());
            assert(work0[0] == id);
        }
        if ids_contain(&visited, id) {
            proof {
                assert(g0.visited.contains(id));
                assert(resolve_rec(reg@, g0, work0) == resolve_rec(reg@, g0, work@));
            }
        } else {
            proof {
                assert(!g0.visited.contains(id));
            }
            match reg.get(id) {
                None => {
                    let ghost vis0 = visited@;
                    visited.push(id);
                    proof {
                        vis0.lemma_push_to_set_commute(id);
                        assert(visited@ == vis0.push(id));
                        assert(visited@.to_set() =~= g0.visited.insert(id));
                        let g1 = GraphModel {
                            nodes: nodes.deep_view(),
                            edges: edges@,
                            visited: visited@.to_set(),
                        };
                        assert(g1 == GraphModel {
                            nodes: g0.nodes,
                            edges: g0.edges,
                            visited: g0.visited.insert(id),
                        });
                        assert(resolve_rec(reg@, g0, work0) == resolve_rec(reg@, g1, work@));
                        assert(reg@.dom().difference(g1.visited) =~= reg@.dom().difference(
                            g0.visited,
                        ));
                    }
                },
                Some(d) => {
                    let ghost dv = d@;
                    proof {
                        assert(dv == reg@[id]);
                        assert(dv.nodes == d.nodes.deep_view());
                        assert(dv.nodes.skip(0) =~= dv.nodes);
                        assert(nodes.deep_view() == g0.nodes);
                    }
                    let mut k: usize = 0;
                    while k < d.nodes.len()
                        invariant
                            k <= d.nodes.len(),
                            dv == d@,
                            dv.nodes == d.nodes.deep_view(),
                            merge_nodes(nodes.deep_view(), dv.nodes.skip(k as int)) == merge_nodes(
                                g0.nodes,
                                dv.nodes,
                            ),
                        decreases d.nodes.len() - k,
                    {
                        let ghost pre = nodes.deep_view();
                        let ghost tail = dv.nodes.skip(k as int);
                        proof {
                            assert(tail[0] == dv.nodes[k as int]);
                            assert(tail.drop_first() =~= dv.nodes.skip(k as int + 1));
                            assert(d.nodes@[k as int]@ == dv.nodes[k as int]);
                        }
                        if !nodes_contain_id(&nodes, d.nodes[k].id) {
                            let dup = d.nodes[k].duplicate();
                            nodes.push(dup);
                            proof {
                                assert(nodes.deep_view() =~= pre.push(dv.nodes[k as int]));
                            }
                        }
                        k = k + 1;
                    }
                    proof {
                        assert(dv.nodes.skip(dv.nodes.len() as int)
                            =~= Seq::<NodeView>::empty());
                        assert(nodes.deep_view() == merge_nodes(g0.nodes, dv.nodes));
                        assert(dv.edges.skip(0) =~= dv.edges);
                        assert(edges@ == g0.edges);
                    }
                    let mut m: usize = 0;
                    while m < d.edges.len()
                        invariant
                            m <= d.edges.len(),
                            dv == d@,
                            nodes.deep_view() == merge_nodes(g0.nodes, dv.nodes),
                            merge_edges(edges@, dv.edges.skip(m as int)) == merge_edges(
                                g0.edges,
                                dv.edges,
                            ),
                        decreases d.edges.len() - m,
                    {
                        let ghost pre = edges@;
                        let ghost tail = dv.edges.skip(m as int);
                        proof {
                            assert(tail[0] == dv.edges[m as int]);
                            assert(tail.drop_first() =~= dv.edges.skip(m as int + 1));
                        }
                        let e = d.edges[m];
                        if !edges_contain(&edges, e) {
                            edges.push(e);
                        }
                        m = m + 1;
                    }
                    proof {
                        assert(dv.edges.skip(dv.edges.len() as int) =~= Seq::<Edge>::empty());
                        assert(edges@ == merge_edges(g0.edges, dv.edges));
                    }
                    let ghost vis0 = visited@;
                    visited.push(id);
                    proof {
                        vis0.lemma_push_to_set_commute(id);
                        assert(visited@ == vis0.push(id));
                        assert(visited@.to_set() =~= g0.visited.insert(id));
                    }
                    let ghost work1 = work@;
                    let mut t: usize = 0;
                    while t < d.types.len()
                        invariant
                            t <= d.types.len(),
                            dv == d@,
                            work@ =~= work1 + dv.types.take(t as int),
                        decreases d.types.len() - t,
                    {
                        work.push(d.types[t]);
                        proof {
                            assert(dv.types.take(t as int).push(dv.types[t as int]) =~= dv.types.take(
                                t as int + 1,
                            ));
                            assert(work@ =~= work1 + dv.types.take(t as int + 1));
                        }
                        t = t + 1;
                    }
                    proof {
                        assert(dv.types.take(dv.types.len() as int) =~= dv.types);
                        assert(work@ =~= work1 + dv.types);
                        let g1 = GraphModel {
                            nodes: nodes.deep_view(),
                            edges: edges@,
                            visited: visited@.to_set(),
                        };
                        assert(g1 =~= merge_entity(g0, id, dv));
                        assert(resolve_rec(reg@, g0, work0) == resolve_rec(reg@, g1, work@));
                        reg@.dom().lemma_set_insert_diff_decreases(g0.visited, id);
                    }
                },
            }
        }
    }
    proof {
        let gf = GraphModel {
            nodes: nodes.deep_view(),
            edges: edges@,
            visited: visited@.to_set(),
        };
        assert(resolve_rec(reg@, gf, work@) == gf);
    }
    ResolvedGraph { nodes, edges, visited }
}

/// No two nodes of the sequence share an id.
pub open spec fn distinct_node_ids(ns: Seq<NodeView>) -> bool {
    forall|i: int, j: int| 0 <= i < j < ns.len() ==> ns[i].id != ns[j].id
}

/// No edge of the sequence appears twice.
pub open spec fn distinct_edges(es: Seq<Edge>) -> bool {
    forall|i: int, j: int| 0 <= i < j < es.len() ==> es[i] != es[j]
}

proof fn lemma_merge_nodes_distinct(acc: Seq<NodeView>, ns: Seq<NodeView>)
    requires
        distinct_node_ids(acc),
    ensures
        distinct_node_ids(merge_nodes(acc, ns)),
    decreases ns.len(),
{
    if ns.len() > 0 {
        if seq_has_node_id(acc, ns[0].id) {
            lemma_merge_nodes_distinct(acc, ns.drop_first());
        } else {
            let acc2 = acc.push(ns[0]);
            assert forall|i: int, j: int| 0 <= i < j < acc2.len() implies acc2[i].id
                != acc2[j].id by {
                if j == acc2.len() - 1 {
                    assert(!seq_has_node_id(acc, ns[0].id));
                    assert(acc2[i] == acc[i]);
                }
            }
            lemma_merge_nodes_distinct(acc2, ns.drop_first());
        }
    }
}

proof fn lemma_merge_edges_distinct(acc: Seq<Edge>, es: Seq<Edge>)
    requires
        distinct_edges(acc),
    ensures
        distinct_edges(merge_edges(acc, es)),
    decreases es.len(),
{
    if es.len() > 0 {
        if acc.contains(es[0]) {
            lemma_merge_edges_distinct(acc, es.drop_first());
        } else {
            let acc2 = acc.push(es[0]);
            assert forall|i: int, j: int| 0 <= i < j < acc2.len() implies acc2[i] != acc2[j] by {
                if j == acc2.len() - 1 {
                    assert(acc2[i] == acc[i]);
                }
            }
            lemma_merge_edges_distinct(acc2, es.drop_first());
        }
    }
}

proof fn lemma_resolve_rec_distinct(reg: Map<u32, DescView>, g: GraphModel, work: Seq<u32>)
    requires
        g.visited.finite(),
        reg.dom().finite(),
        distinct_node_ids(g.nodes),
        distinct_edges(g.edges),
    ensures
        distinct_node_ids(resolve_rec(reg, g, work).nodes),
        distinct_edges(resolve_rec(reg, g, work).edges),
    decreases reg.dom().difference(g.visited).len(), work.len(),
{
    broadcast use vstd::set::group_set_axioms;

    if work.len() > 0 {
        let id = work[0];
        let rest = work.drop_first();
        if g.visited.contains(id) {
            lemma_resolve_rec_distinct(reg, g, rest);
        } else if !reg.dom().contains(id) {
            let g1 = GraphModel { nodes: g.nodes, edges: g.edges, visited: g.visited.insert(id) };
            assert(reg.dom().difference(g1.visited) =~= reg.dom().difference(g.visited));
            lemma_resolve_rec_distinct(reg, g1, rest);
        } else {
            let g1 = merge_entity(g, id, reg[id]);
            lemma_merge_nodes_distinct(g.nodes, reg[id].nodes);
            lemma_merge_edges_distinct(g.edges, reg[id].edges);
            reg.dom().lemma_set_insert_diff_decreases(g.visited, id);
            lemma_resolve_rec_distinct(reg, g1, rest + reg[id].types);
        }
    }
}

proof fn lemma_merge_nodes_in_range(acc: Seq<NodeView>, ns: Seq<NodeView>)
    requires
        node_ids_in_range(acc),
        node_ids_in_range(ns),
    ensures
        node_ids_in_range(merge_nodes(acc, ns)),
    decreases ns.len(),
{
    if ns.len() > 0 {
        let acc2 = if seq_has_node_id(acc, ns[0].id) {
            acc
        } else {
            acc.push(ns[0])
        };
        assert(node_ids_in_range(acc2)) by {
            assert forall|i: int| 0 <= i < acc2.len() implies acc2[i].id
                < crate::MAX_NODE_IDS by {
                if i < acc.len() {
                    assert(acc[i].id < crate::MAX_NODE_IDS);
                } else {
                    assert(ns[0].id < crate::MAX_NODE_IDS);
                }
            }
        }
        assert(node_ids_in_range(ns.drop_first())) by {
            assert forall|i: int| 0 <= i < ns.drop_first().len() implies ns.drop_first()[i].id
                < crate::MAX_NODE_IDS by {
                assert(ns[i + 1].id < crate::MAX_NODE_IDS);
            }
        }
        lemma_merge_nodes_in_range(acc2, ns.drop_first());
    }
}

proof fn lemma_resolve_rec_in_range(reg: Map<u32, DescView>, g: GraphModel, work: Seq<u32>)
    requires
        g.visited.finite(),
        reg.dom().finite(),
        node_ids_in_range(g.nodes),
        forall|id: u32| #[trigger] reg.dom().contains(id) ==> crate::graph::desc_wf(reg[id]),
    ensures
        node_ids_in_range(resolve_rec(reg, g, work).nodes),
    decreases reg.dom().difference(g.visited).len(), work.len(),
{
    broadcast use vstd::set::group_set_axioms;

    if work.len() > 0 {
        let id = work[0];
        let rest = work.drop_first();
        if g.visited.contains(id) {
            lemma_resolve_rec_in_range(reg, g, rest);
        } else if !reg.dom().contains(id) {
            let g1 = GraphModel { nodes: g.nodes, edges: g.edges, visited: g.visited.insert(id) };
            assert(reg.dom().difference(g1.visited) =~= reg.dom().difference(g.visited));
            lemma_resolve_rec_in_range(reg, g1, rest);
        } else {
            let g1 = merge_entity(g, id, reg[id]);
            lemma_merge_nodes_in_range(g.nodes, reg[id].nodes);
            reg.dom().lemma_set_insert_diff_decreases(g.visited, id);
            lemma_resolve_rec_in_range(reg, g1, rest + reg[id].types);
        }
    }
}

proof fn lemma_bounded_distinct_len(ns: Seq<NodeView>)
    requires
        distinct_node_ids(ns),
        node_ids_in_range(ns),
    ensures
        ns.len() <= crate::MAX_NODE_IDS,
{
    broadcast use vstd::set::group_set_axioms;

    let ids = ns.map_values(|n: NodeView| n.id as int);
    assert(ids.no_duplicates());
    ids.unique_seq_to_set();
    let range = vstd::set_lib::set_int_range(0, crate::MAX_NODE_IDS as int);
    assert forall|x: int| ids.to_set().contains(x) implies range.contains(x) by {
        let i = choose|i: int| 0 <= i < ids.len() && ids[i] == x;
        assert(ns[i].id < crate::MAX_NODE_IDS);
    }
    vstd::set_lib::lemma_int_range(0, crate::MAX_NODE_IDS as int);
    vstd::set_lib::lemma_len_subset(ids.to_set(), range);
}

/// A resolved graph stays within the id space: every node id is below
/// MAX_NODE_IDS, so the graph holds at most MAX_NODE_IDS nodes.
pub proof fn lemma_resolve_bounded(reg: Map<u32, DescView>, root: u32)
    requires
        reg.dom().finite(),
        forall|id: u32| #[trigger] reg.dom().contains(id) ==> crate::graph::desc_wf(reg[id]),
    ensures
        node_ids_in_range(spec_resolve(reg, root).nodes),
        spec_resolve(reg, root).nodes.len() <= crate::MAX_NODE_IDS,
{
    lemma_resolve_rec_in_range(reg, empty_graph(), seq![root]);
    lemma_resolve_dedup(reg, root);
    lemma_bounded_distinct_len(spec_resolve(reg, root).nodes);
}

proof fn lemma_merge_nodes_keeps_id(acc: Seq<NodeView>, ns: Seq<NodeView>, id: u32)
    requires
        seq_has_node_id(acc, id) || seq_has_node_id(ns, id),
    ensures
        seq_has_node_id(merge_nodes(acc, ns), id),
    decreases ns.len(),
{
    if ns.len() == 0 {
    } else {
        let acc2 = if seq_has_node_id(acc, ns[0].id) {
            acc
        } else {
            acc.push(ns[0])
        };
        if seq_has_node_id(acc, id) {
            let i = choose|i: int| 0 <= i < acc.len() && acc[i].id == id;
            assert(acc2[i].id == id);
            lemma_merge_nodes_keeps_id(acc2, ns.drop_first(), id);
        } else {
            let i = choose|i: int| 0 <= i < ns.len() && ns[i].id == id;
            if i == 0 {
                assert(acc2.last().id == id);
                lemma_merge_nodes_keeps_id(acc2, ns.drop_first(), id);
            } else {
                assert(ns.drop_first()[i - 1].id == id);
                lemma_merge_nodes_keeps_id(acc2, ns.drop_first(), id);
            }
        }
    }
}

proof fn lemma_merge_edges_origin(acc: Seq<Edge>, es: Seq<Edge>, e: Edge)
    requires
        merge_edges(acc, es).contains(e),
    ensures
        acc.contains(e) || es.contains(e),
    decreases es.len(),
{
    if es.len() == 0 {
    } else {
        let acc2 = if acc.contains(es[0]) {
            acc
        } else {
            acc.push(es[0])
        };
        lemma_merge_edges_origin(acc2, es.drop_first(), e);
        if acc2.contains(e) && !acc.contains(e) {
            assert(e == es[0]);
        }
        if es.drop_first().contains(e) {
            let i = choose|i: int| 0 <= i < es.drop_first().len() && es.drop_first()[i] == e;
            assert(es[i + 1] == e);
        }
    }
}

/// A grounded graph: both endpoints of every edge exist as nodes.
pub open spec fn graph_grounded(g: GraphModel) -> bool {
    forall|k: int|
        0 <= k < g.edges.len() ==> seq_has_node_id(g.nodes, #[trigger] g.edges[k].from)
            && seq_has_node_id(g.nodes, g.edges[k].to)
}

/// A closed registry: every entity a descriptor references is registered.
pub open spec fn reg_closed(reg: Map<u32, DescView>) -> bool {
    forall|id: u32, j: int|
        reg.dom().contains(id) && 0 <= j < reg[id].types.len() ==> reg.dom().contains(
            #[trigger] reg[id].types[j],
        )
}

/// An edge endpoint is accounted for: its node is already merged, or its
/// entity is registered and still pending on the worklist.
pub open spec fn endpoint_ok(reg: Map<u32, DescView>, g: GraphModel, work: Seq<u32>, x: u32) -> bool {
    seq_has_node_id(g.nodes, x) || (reg.dom().contains(x) && work.contains(x))
}

spec fn edges_pending_ok(reg: Map<u32, DescView>, g: GraphModel, work: Seq<u32>) -> bool {
    forall|k: int|
        0 <= k < g.edges.len() ==> endpoint_ok(reg, g, work, #[trigger] g.edges[k].from)
            && endpoint_ok(reg, g, work, g.edges[k].to)
}

spec fn visited_merged(reg: Map<u32, DescView>, g: GraphModel) -> bool {
    forall|x: u32|
        reg.dom().contains(x) && #[trigger] g.visited.contains(x) ==> seq_has_node_id(g.nodes, x)
}

proof fn lemma_resolve_rec_closed(reg: Map<u32, DescView>, g: GraphModel, work: Seq<u32>)
    requires
        g.visited.finite(),
        reg.dom().finite(),
        forall|id: u32| #[trigger] reg.dom().contains(id) ==> crate::graph::desc_wf(reg[id]),
        forall|id: u32| #[trigger] reg.dom().contains(id) ==> reg[id].id == id,
        reg_closed(reg),
        edges_pending_ok(reg, g, work),
        visited_merged(reg, g),
    ensures
        graph_grounded(resolve_rec(reg, g, work)),
    decreases reg.dom().difference(g.visited).len(), work.len(),
{
    broadcast use vstd::set::group_set_axioms;

    if work.len() == 0 {
        assert forall|k: int| 0 <= k < g.edges.len() implies seq_has_node_id(
            g.nodes,
            #[trigger] g.edges[k].from,
        ) && seq_has_node_id(g.nodes, g.edges[k].to) by {
            assert(endpoint_ok(reg, g, work, g.edges[k].from));
            assert(endpoint_ok(reg, g, work, g.edges[k].to));
            assert(!work.contains(g.edges[k].from));
            assert(!work.contains(g.edges[k].to));
        }
        assert(graph_grounded(g));
    } else {
        let id = work[0];
        let rest = work.drop_first();
        if g.visited.contains(id) {
            assert forall|k: int| 0 <= k < g.edges.len() implies endpoint_ok(
                reg,
                g,
                rest,
                #[trigger] g.edges[k].from,
            ) && endpoint_ok(reg, g, rest, g.edges[k].to) by {
                lemma_endpoint_after_pop(reg, g, work, g.edges[k].from);
                lemma_endpoint_after_pop(reg, g, work, g.edges[k].to);
            }
            lemma_resolve_rec_closed(reg, g, rest);
        } else if !reg.dom().contains(id) {
            let g1 = GraphModel { nodes: g.nodes, edges: g.edges, visited: g.visited.insert(id) };
            assert(reg.dom().difference(g1.visited) =~= reg.dom().difference(g.visited));
            assert forall|k: int| 0 <= k < g1.edges.len() implies endpoint_ok(
                reg,
                g1,
                rest,
                #[trigger] g1.edges[k].from,
            ) && endpoint_ok(reg, g1, rest, g1.edges[k].to) by {
                lemma_endpoint_unknown_pop(reg, g, work, g.edges[k].from);
                lemma_endpoint_unknown_pop(reg, g, work, g.edges[k].to);
            }
            lemma_resolve_rec_closed(reg, g1, rest);
        } else {
            let d = reg[id];
            let g1 = merge_entity(g, id, d);
            let work1 = rest + d.types;
            reg.dom().lemma_set_insert_diff_decreases(g.visited, id);
            assert(seq_has_node_id(g1.nodes, id)) by {
                lemma_merge_nodes_keeps_id(g.nodes, d.nodes, id);
            }
            assert(visited_merged(reg, g1)) by {
                assert forall|x: u32|
                    reg.dom().contains(x) && #[trigger] g1.visited.contains(x) implies
                    seq_has_node_id(g1.nodes, x) by {
                    if x == id {
                    } else {
                        assert(g.visited.contains(x));
                        lemma_merge_nodes_keeps_id(g.nodes, d.nodes, x);
                    }
                }
            }
            assert forall|k: int| 0 <= k < g1.edges.len() implies endpoint_ok(
                reg,
                g1,
                work1,
                #[trigger] g1.edges[k].from,
            ) && endpoint_ok(reg, g1, work1, g1.edges[k].to) by {
                lemma_merge_edges_origin(g.edges, d.edges, g1.edges[k]);
                if g.edges.contains(g1.edges[k]) {
                    let p = choose|p: int| 0 <= p < g.edges.len() && g.edges[p] == g1.edges[k];
                    lemma_endpoint_after_merge(reg, g, work, id, g.edges[p].from);
                    lemma_endpoint_after_merge(reg, g, work, id, g.edges[p].to);
                } else {
                    let p = choose|p: int| 0 <= p < d.edges.len() && d.edges[p] == g1.edges[k];
                    assert(crate::graph::edge_endpoints_known(d, p));
                    lemma_endpoint_known_to_desc(reg, g, work, id, d.edges[p].from);
                    lemma_endpoint_known_to_desc(reg, g, work, id, d.edges[p].to);
                }
            }
            lemma_resolve_rec_closed(reg, g1, work1);
        }
    }
}

/// After popping an already-visited id, endpoints stay accounted for.
proof fn lemma_endpoint_after_pop(reg: Map<u32, DescView>, g: GraphModel, work: Seq<u32>, x: u32)
    requires
        work.len() > 0,
        g.visited.contains(work[0]),
        visited_merged(reg, g),
        endpoint_ok(reg, g, work, x),
    ensures
        endpoint_ok(reg, g, work.drop_first(), x),
{
    if !seq_has_node_id(g.nodes, x) {
        if x == work[0] {
            assert(seq_has_node_id(g.nodes, x));
        } else {
            let p = choose|p: int| 0 <= p < work.len() && work[p] == x;
            assert(work.drop_first()[p - 1] == x);
        }
    }
}

/// After popping an unregistered id, endpoints stay accounted for.
proof fn lemma_endpoint_unknown_pop(reg: Map<u32, DescView>, g: GraphModel, work: Seq<u32>, x: u32)
    requires
        work.len() > 0,
        !reg.dom().contains(work[0]),
        endpoint_ok(reg, g, work, x),
    ensures
        endpoint_ok(reg, g, work.drop_first(), x),
{
    if !seq_has_node_id(g.nodes, x) {
        let p = choose|p: int| 0 <= p < work.len() && work[p] == x;
        assert(p != 0);
        assert(work.drop_first()[p - 1] == x);
    }
}

/// After merging the popped descriptor, old endpoints stay accounted for.
proof fn lemma_endpoint_after_merge(
    reg: Map<u32, DescView>,
    g: GraphModel,
    work: Seq<u32>,
    id: u32,
    x: u32,
)
    requires
        work.len() > 0,
        work[0] == id,
        reg.dom().contains(id),
        reg[id].id == id,
        crate::graph::desc_wf(reg[id]),
        endpoint_ok(reg, g, work, x),
    ensures
        endpoint_ok(reg, merge_entity(g, id, reg[id]), work.drop_first() + reg[id].types, x),
{
    let d = reg[id];
    let g1 = merge_entity(g, id, d);
    let work1 = work.drop_first() + d.types;
    if seq_has_node_id(g.nodes, x) {
        lemma_merge_nodes_keeps_id(g.nodes, d.nodes, x);
    } else {
        if x == id {
            lemma_merge_nodes_keeps_id(g.nodes, d.nodes, id);
        } else {
            let p = choose|p: int| 0 <= p < work.len() && work[p] == x;
            assert(p != 0);
            assert(work1[p - 1] == x);
        }
    }
}

/// An endpoint the merged descriptor itself knows is accounted for.
proof fn lemma_endpoint_known_to_desc(
    reg: Map<u32, DescView>,
    g: GraphModel,
    work: Seq<u32>,
    id: u32,
    x: u32,
)
    requires
        reg.dom().contains(id),
        reg_closed(reg),
        crate::graph::desc_knows_id(reg[id], x),
    ensures
        endpoint_ok(reg, merge_entity(g, id, reg[id]), work.drop_first() + reg[id].types, x),
{
    let d = reg[id];
    let work1 = work.drop_first() + d.types;
    if seq_has_node_id(d.nodes, x) {
        lemma_merge_nodes_keeps_id(g.nodes, d.nodes, x);
    } else {
        let j = choose|j: int| 0 <= j < d.types.len() && d.types[j] == x;
        assert(reg.dom().contains(d.types[j]));
        assert(work1[work.drop_first().len() + j] == x);
    }
}

/// Over a closed registry every edge of the resolved graph is grounded:
/// both endpoints exist as nodes of the same graph.
pub proof fn lemma_resolve_grounded(reg: Map<u32, DescView>, root: u32)
    requires
        reg.dom().finite(),
        forall|id: u32| #[trigger] reg.dom().contains(id) ==> crate::graph::desc_wf(reg[id]),
        forall|id: u32| #[trigger] reg.dom().contains(id) ==> reg[id].id == id,
        reg_closed(reg),
    ensures
        graph_grounded(spec_resolve(reg, root)),
{
    lemma_resolve_rec_closed(reg, empty_graph(), seq![root]);
}

/// Resolution deduplicates: however many reference paths lead to an entity,
/// each node id and each edge appears at most once in the resolved graph.
pub proof fn lemma_resolve_dedup(reg: Map<u32, DescView>, root: u32)
    requires
        reg.dom().finite(),
    ensures
        distinct_node_ids(spec_resolve(reg, root).nodes),
        distinct_edges(spec_resolve(reg, root).edges),
{
    lemma_resolve_rec_distinct(reg, empty_graph(), seq![root]);
}

/// Resolution is idempotent: two runs over the same descriptors from the
/// same root yield identical node sequences, edge sequences, and visited
/// sets, and in particular identical node-id and edge sets.
pub proof fn lemma_resolve_idempotent(reg: Map<u32, DescView>, root: u32, g1: GraphModel, g2: GraphModel)
    requires
        g1 == spec_resolve(reg, root),
        g2 == spec_resolve(reg, root),
    ensures
        g1.nodes == g2.nodes,
        g1.edges == g2.edges,
        g1.visited == g2.visited,
{
}

/// A two-cycle terminates and merges each entity exactly once: if A
/// references B and B references A, resolving from A merges first A then B
/// and visits nothing else.
pub proof fn lemma_resolve_cycle(reg: Map<u32, DescView>, a: u32, b: u32)
    requires
        a != b,
        reg.dom() =~= set![a, b],
        reg[a].types == seq![b],
        reg[b].types == seq![a],
    ensures
        spec_resolve(reg, a) == merge_entity(merge_entity(empty_graph(), a, reg[a]), b, reg[b]),
        spec_resolve(reg, a).visited =~= set![a, b],
{
    broadcast use vstd::set::group_set_axioms;

    let g0 = empty_graph();
    let g1 = merge_entity(g0, a, reg[a]);
    let g2 = merge_entity(g1, b, reg[b]);
    assert(seq![a].drop_first() =~= Seq::<u32>::empty());
    assert(Seq::<u32>::empty() + reg[a].types =~= seq![b]);
    assert(resolve_rec(reg, g0, seq![a]) == resolve_rec(reg, g1, seq![b]));
    assert(seq![b].drop_first() =~= Seq::<u32>::empty());
    assert(Seq::<u32>::empty() + reg[b].types =~= seq![a]);
    assert(!g1.visited.contains(b));
    assert(resolve_rec(reg, g1, seq![b]) == resolve_rec(reg, g2, seq![a]));
    assert(g2.visited.contains(a));
    assert(seq![a].drop_first() =~= Seq::<u32>::empty());
    assert(resolve_rec(reg, g2, seq![a]) == resolve_rec(reg, g2, Seq::<u32>::empty()));
    assert(resolve_rec(reg, g2, Seq::<u32>::empty()) == g2);
    assert(g2.visited =~= set![a, b]);
}

} // verus!
