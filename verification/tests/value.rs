use typegraph::export::{pg_edge_count, pg_node_count, to_petgraph};
use typegraph::graph::{Edge, EntityDescriptor, NodeOutput, NodeOutputKind, Registry};
use typegraph::primitive::{U64_ID, primitive_descriptor};
use typegraph::resolve::resolve;
use typegraph::value::{
    ConnectedEdgeKind, EdgeKind, Node, NodeKind, Value, Vectorize, materialize, node_value,
};

fn leaf_node(id: u32, kind: NodeOutputKind, name: &str) -> NodeOutput {
    NodeOutput { id, kind, name: name.to_string(), cluster: Vec::new(), slots: Vec::new() }
}

#[test]
fn node_id_and_swap() {
    let n: Node<u32> = Node::Struct(7, "S".to_string(), 41);
    assert_eq!(n.id(), 7);
    let (stripped, payload) = n.swap(());
    assert_eq!(payload, 41);
    assert_eq!(stripped.id(), 7);
    assert!(matches!(stripped, Node::Struct(..)));
}

#[test]
fn classification_table() {
    let e = |k: NodeOutputKind| node_value(&leaf_node(1, k, "a"));
    let f = |k: NodeOutputKind| node_value(&leaf_node(2, k, "b"));
    // The rows the design pins down explicitly.
    assert_eq!(
        EdgeKind::implied(&e(NodeOutputKind::Enum), &f(NodeOutputKind::Variant)),
        EdgeKind::Variant
    );
    assert_eq!(
        EdgeKind::implied(&e(NodeOutputKind::Implementation), &f(NodeOutputKind::Function)),
        EdgeKind::Function
    );
    assert_eq!(
        EdgeKind::implied(&e(NodeOutputKind::Function), &f(NodeOutputKind::Struct)),
        EdgeKind::Returns
    );
    // A pair no rule lists degrades to Unknown.
    assert_eq!(
        EdgeKind::implied(&e(NodeOutputKind::Variant), &f(NodeOutputKind::Variant)),
        EdgeKind::Unknown
    );
    assert_eq!(
        EdgeKind::implied(&e(NodeOutputKind::Primitive), &f(NodeOutputKind::Variant)),
        EdgeKind::Unknown
    );
    // A few more rows of the table.
    assert_eq!(
        EdgeKind::implied(&e(NodeOutputKind::UnaryContainer), &f(NodeOutputKind::Primitive)),
        EdgeKind::Contains
    );
    assert_eq!(
        EdgeKind::implied(&e(NodeOutputKind::Function), &f(NodeOutputKind::Function)),
        EdgeKind::Call
    );
    assert_eq!(
        EdgeKind::implied(&e(NodeOutputKind::Struct), &f(NodeOutputKind::Implementation)),
        EdgeKind::Implementation
    );
    assert_eq!(
        EdgeKind::implied(&e(NodeOutputKind::Struct), &f(NodeOutputKind::Function)),
        EdgeKind::Argument
    );
    assert_eq!(
        EdgeKind::implied(&e(NodeOutputKind::Generic), &f(NodeOutputKind::Implementation)),
        EdgeKind::Generic
    );
    assert_eq!(
        EdgeKind::implied(&e(NodeOutputKind::Struct), &f(NodeOutputKind::Primitive)),
        EdgeKind::Property
    );
}

#[test]
fn implementation_kind_materializes_inherent() {
    let n = node_value(&leaf_node(3, NodeOutputKind::Implementation, "Impl"));
    assert!(matches!(n, Node::InherentImplementation(..)));
}

#[test]
fn value_trait_builds_metadata() {
    let n = leaf_node(4, NodeOutputKind::Struct, "Account");
    let meta: NodeKind = n.value();
    assert_eq!(meta.label(), "Account");
    assert!(matches!(meta, NodeKind::Struct(..)));
}

#[test]
fn connected_edge_kind_implied_and_map() {
    let a = node_value(&leaf_node(5, NodeOutputKind::Enum, "E"));
    let b = node_value(&leaf_node(6, NodeOutputKind::Variant, "V"));
    let c = ConnectedEdgeKind::implied(&a, &b);
    assert_eq!(c.kind, EdgeKind::Variant);
    assert_eq!(c.from, 5);
    assert_eq!(c.to, 6);
    let mut ids = std::collections::HashMap::new();
    ids.insert(5u32, 0u32);
    ids.insert(6u32, 1u32);
    let arc = c.map(&ids);
    assert_eq!(arc.from_ix, 0);
    assert_eq!(arc.to_ix, 1);
    assert_eq!(arc.kind, EdgeKind::Variant);
}

#[test]
fn materialize_builds_index_and_arcs() {
    let mut reg = Registry::new();
    let d = EntityDescriptor {
        id: 40,
        nodes: vec![
            leaf_node(40, NodeOutputKind::Struct, "S"),
            {
                let mut f = leaf_node(41, NodeOutputKind::Function, "f");
                f.slots = vec![("x".to_string(), U64_ID)];
                f
            },
        ],
        edges: vec![Edge { from: U64_ID, to: 41 }, Edge { from: 40, to: U64_ID }],
        types: vec![U64_ID],
    };
    assert_eq!(reg.insert(d), Ok(()));
    assert_eq!(reg.insert(primitive_descriptor(U64_ID, "u64")), Ok(()));
    let g = resolve(&reg, 40);
    let vg = materialize(&g);
    assert_eq!(vg.vertices.len(), 3);
    assert_eq!(vg.vertex_ids, vec![40, 41, U64_ID]);
    assert_eq!(vg.index.get(&40), Some(&0));
    assert_eq!(vg.index.get(&41), Some(&1));
    assert_eq!(vg.index.get(&U64_ID), Some(&2));
    assert_eq!(vg.arcs.len(), 2);
    assert_eq!(vg.arcs[0].kind, EdgeKind::Argument);
    assert_eq!(vg.arcs[0].from_ix, 2);
    assert_eq!(vg.arcs[0].to_ix, 1);
    assert_eq!(vg.arcs[1].kind, EdgeKind::Property);
}

#[test]
fn vectorize_hands_out_edges() {
    let mut reg = Registry::new();
    let d = EntityDescriptor {
        id: 40,
        nodes: vec![leaf_node(40, NodeOutputKind::Struct, "S")],
        edges: vec![Edge { from: 40, to: U64_ID }],
        types: vec![U64_ID],
    };
    assert_eq!(reg.insert(d), Ok(()));
    assert_eq!(reg.insert(primitive_descriptor(U64_ID, "u64")), Ok(()));
    let g = resolve(&reg, 40);
    assert_eq!(g.to_vec(), vec![Edge { from: 40, to: U64_ID }]);
    let mut acc = vec![Edge { from: 1, to: 2 }];
    g.fill(&mut acc);
    assert_eq!(acc, vec![Edge { from: 1, to: 2 }, Edge { from: 40, to: U64_ID }]);
}

#[test]
fn petgraph_export_mirrors_structure() {
    let mut reg = Registry::new();
    let d = EntityDescriptor {
        id: 40,
        nodes: vec![leaf_node(40, NodeOutputKind::Struct, "S")],
        edges: vec![Edge { from: 40, to: U64_ID }],
        types: vec![U64_ID],
    };
    assert_eq!(reg.insert(d), Ok(()));
    assert_eq!(reg.insert(primitive_descriptor(U64_ID, "u64")), Ok(()));
    let g = resolve(&reg, 40);
    let vg = materialize(&g);
    let pg = to_petgraph(&vg);
    assert_eq!(pg_node_count(&pg), 2);
    assert_eq!(pg_edge_count(&pg), 1);
    // The exported nodes carry the vertex ids in vertex order, and the
    // edge runs between the right positions.
    assert_eq!(pg.node_weight(petgraph::prelude::NodeIndex::new(0)), Some(&40));
    assert_eq!(pg.node_weight(petgraph::prelude::NodeIndex::new(1)), Some(&U64_ID));
    let e = pg.edge_indices().next().unwrap();
    let (a, b) = pg.edge_endpoints(e).unwrap();
    assert_eq!(a.index(), 0);
    assert_eq!(b.index(), 1);
    assert_eq!(pg.edge_weight(e), Some(&0));
}

#[test]
fn materialize_drops_dangling_edges() {
    let mut reg = Registry::new();
    let d = EntityDescriptor {
        id: 50,
        nodes: vec![leaf_node(50, NodeOutputKind::Struct, "S")],
        edges: vec![Edge { from: 50, to: 60 }],
        types: vec![60],
    };
    assert_eq!(reg.insert(d), Ok(()));
    // Entity 60 is never registered: the edge to it has no vertex.
    let g = resolve(&reg, 50);
    let vg = materialize(&g);
    assert_eq!(vg.vertices.len(), 1);
    assert_eq!(vg.arcs.len(), 0);
}
