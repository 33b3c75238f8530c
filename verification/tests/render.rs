use typegraph::graph::{Edge, EntityDescriptor, NodeOutput, NodeOutputKind, Registry};
use typegraph::graphviz::{Graphviz, display_name, render_graph, slot_name, u32_string};
use typegraph::id::Allocator;
use typegraph::primitive::{U8_ID, U64_ID, U128_ID, primitive_descriptor};
use typegraph::resolve::resolve;
use typegraph::resolve_and_render;
use typegraph::value::{EdgeKind, EdgeKindWithIxs, NodeKind, Output, materialize};

fn node_in(id: u32, kind: NodeOutputKind, name: &str, cluster: &[&str], slots: &[(&str, u32)]) -> NodeOutput {
    NodeOutput {
        id,
        kind,
        name: name.to_string(),
        cluster: cluster.iter().map(|s| s.to_string()).collect(),
        slots: slots.iter().map(|(s, n)| (s.to_string(), *n)).collect(),
    }
}

#[test]
fn decimal_rendering() {
    assert_eq!(u32_string(0), "0");
    assert_eq!(u32_string(7), "7");
    assert_eq!(u32_string(12345), "12345");
    assert_eq!(u32_string(4294967295), "4294967295");
}

#[test]
fn cluster_display_name() {
    assert_eq!(display_name("long_necks"), "Long Necks");
    assert_eq!(display_name("raptors"), "Raptors");
    assert_eq!(display_name("already Capital"), "Already Capital");
    assert_eq!(display_name(""), "");
}

#[test]
fn slot_lookup_last_entry_wins() {
    let slots = vec![
        ("first".to_string(), 9u32),
        ("second".to_string(), 9u32),
        ("other".to_string(), 4u32),
    ];
    assert_eq!(slot_name(&slots, 9), "second");
    assert_eq!(slot_name(&slots, 4), "other");
    assert_eq!(slot_name(&slots, 5), "");
}

#[test]
fn edge_style_getters() {
    assert_eq!(EdgeKind::Returns.arrowhead(), "vee");
    assert_eq!(EdgeKind::Variant.arrowhead(), "obox");
    assert_eq!(EdgeKind::Property.arrowhead(), "dot");
    assert_eq!(EdgeKind::Unknown.arrowhead(), "normal");
    assert_eq!(EdgeKind::Returns.weight(), 1);
    assert_eq!(EdgeKind::Returns.penwidth(), 1);
    assert_eq!(EdgeKind::Returns.color(), "#7aa2f7");
    assert_eq!(EdgeKind::Implementation.color(), "#9ece6a");
    assert_eq!(EdgeKind::Unknown.color(), "black");
}

#[test]
fn node_style_getters() {
    let s = NodeKind::Struct("Account".to_string(), vec!["bank".to_string()], vec![]);
    assert_eq!(s.label(), "Account");
    assert_eq!(s.shape(), "box3d");
    assert_eq!(s.color(), "#7aa2f7");
    assert_eq!(s.cluster(), &vec!["bank".to_string()]);
    let e = NodeKind::Enum("Shape".to_string(), vec![], vec![]);
    assert_eq!(e.shape(), "folder");
    assert_eq!(e.color(), "#7dcfff");
    let f = NodeKind::Function("deposit".to_string(), vec![], vec![]);
    assert_eq!(f.shape(), "ellipse");
    assert_eq!(f.color(), "#e0af68");
}

#[test]
fn arc_labels() {
    let arc = EdgeKindWithIxs { kind: EdgeKind::Property, from: 1, to: 2, from_ix: 0u32, to_ix: 1u32 };
    assert_eq!(arc.label("id"), "field (id)");
    let arg = EdgeKindWithIxs { kind: EdgeKind::Argument, ..arc };
    assert_eq!(arg.label("amount"), "arg (amount)");
    let call = EdgeKindWithIxs { kind: EdgeKind::Call, ..arc };
    assert_eq!(call.label(""), "calls");
    let var = EdgeKindWithIxs { kind: EdgeKind::Variant, ..arc };
    assert_eq!(var.label(""), "variant");
}

#[test]
fn output_id() {
    let o = Output::Method { id: 7, name: "roar".to_string() };
    assert_eq!(o.id(), 7);
    let s = Output::Struct { id: 9, name: "Rex".to_string() };
    assert_eq!(s.id(), 9);
}

/// A small menagerie spread over nested namespaces, close to the kind of
/// model the descriptor producer emits.
fn dinosaur_registry() -> (Registry, u32) {
    let alloc = Allocator::new();
    let rex = alloc.derive("TyranosaurusRex");
    let rex_impl = alloc.derive("TyranosaurusRexImpl");
    let roar = alloc.derive("roar");
    let raptor = alloc.derive("Velociraptor");
    let brachio = alloc.derive("Brachiosaurus");
    let rex_desc = EntityDescriptor {
        id: rex,
        nodes: vec![node_in(
            rex,
            NodeOutputKind::Struct,
            "TyranosaurusRex",
            &["dinosaurs", "tyranosaurs"],
            &[("size", U128_ID), ("tooth_size", U64_ID)],
        )],
        edges: vec![Edge { from: rex, to: U128_ID }, Edge { from: rex, to: U64_ID }],
        types: vec![U128_ID, U64_ID, rex_impl, raptor],
    };
    let rex_impl_desc = EntityDescriptor {
        id: rex_impl,
        nodes: vec![
            node_in(rex_impl, NodeOutputKind::Implementation, "TyranosaurusRexImpl", &["dinosaurs", "tyranosaurs"], &[]),
            node_in(roar, NodeOutputKind::Function, "roar", &["dinosaurs", "tyranosaurs"], &[("volume", U8_ID)]),
        ],
        edges: vec![
            Edge { from: rex, to: rex_impl },
            Edge { from: rex_impl, to: roar },
            Edge { from: U8_ID, to: roar },
        ],
        types: vec![rex, U8_ID],
    };
    let raptor_desc = EntityDescriptor {
        id: raptor,
        nodes: vec![node_in(raptor, NodeOutputKind::Struct, "Velociraptor", &["dinosaurs", "raptors"], &[("hunger", U128_ID)])],
        edges: vec![Edge { from: raptor, to: U128_ID }, Edge { from: raptor, to: brachio }],
        types: vec![U128_ID, brachio],
    };
    let brachio_desc = EntityDescriptor {
        id: brachio,
        nodes: vec![node_in(brachio, NodeOutputKind::Struct, "Brachiosaurus", &["long_necks"], &[("neck_length", U128_ID)])],
        edges: vec![Edge { from: brachio, to: U128_ID }],
        types: vec![U128_ID],
    };
    let mut reg = Registry::new();
    assert_eq!(reg.insert(rex_desc), Ok(()));
    assert_eq!(reg.insert(rex_impl_desc), Ok(()));
    assert_eq!(reg.insert(raptor_desc), Ok(()));
    assert_eq!(reg.insert(brachio_desc), Ok(()));
    assert_eq!(reg.insert(primitive_descriptor(U8_ID, "u8")), Ok(()));
    assert_eq!(reg.insert(primitive_descriptor(U64_ID, "u64")), Ok(()));
    assert_eq!(reg.insert(primitive_descriptor(U128_ID, "u128")), Ok(()));
    (reg, rex)
}

#[test]
fn render_is_stable() {
    let (reg, root) = dinosaur_registry();
    let g = resolve(&reg, root);
    let vg = materialize(&g);
    let first = vg.render();
    let second = vg.render();
    assert_eq!(first, second);
    let third = resolve_and_render(&reg, root);
    let fourth = resolve_and_render(&reg, root);
    assert_eq!(third, fourth);
    assert_eq!(first, third);
}

#[test]
fn render_contains_clusters_and_arcs() {
    let (reg, root) = dinosaur_registry();
    let s = resolve_and_render(&reg, root);
    assert!(s.starts_with("digraph {\n"));
    assert!(s.contains("subgraph main {"));
    assert!(s.contains("subgraph cluster_dinosaurs {"));
    assert!(s.contains("subgraph cluster_tyranosaurs {"));
    assert!(s.contains("subgraph cluster_raptors {"));
    assert!(s.contains("subgraph cluster_long_necks {"));
    assert!(s.contains("label = \"Long Necks\""));
    assert!(s.contains(" -> "));
    assert!(s.contains("label = \"impl\""));
    assert!(s.contains("label = \"fn\""));
    assert!(s.contains("label = \"arg (volume)\""));
    assert!(s.contains("label = \"field (neck_length)\""));
    assert!(s.ends_with("}\n"));
}

#[test]
fn render_graph_matches_trait() {
    let (reg, root) = dinosaur_registry();
    let g = resolve(&reg, root);
    let vg = materialize(&g);
    assert_eq!(render_graph(&vg), vg.render());
}

#[test]
fn graphviz() {
    let (reg, root) = dinosaur_registry();
    let g = resolve(&reg, root);
    let vg = materialize(&g);
    let s = vg.render();
    println!("{s}");
}
