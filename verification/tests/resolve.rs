use typegraph::container::{RESULT_OFFSET, VEC_OFFSET, container_descriptor};
use typegraph::graph::{ConfigurationError, Edge, EntityDescriptor, MethodId, NodeOutput, NodeOutputKind, Registry};
use typegraph::id::Allocator;
use typegraph::primitive::{F64_ID, U8_ID, U64_ID, primitive_descriptor};
use typegraph::standard::{STRING_ID, standard_descriptor};
use typegraph::resolve::resolve;
use typegraph::value::{EdgeKind, materialize};

fn node(id: u32, kind: NodeOutputKind, name: &str, slots: &[(&str, u32)]) -> NodeOutput {
    NodeOutput {
        id,
        kind,
        name: name.to_string(),
        cluster: Vec::new(),
        slots: slots.iter().map(|(s, n)| (s.to_string(), *n)).collect(),
    }
}

fn entity(id: u32, nodes: Vec<NodeOutput>, edges: Vec<Edge>, types: Vec<u32>) -> EntityDescriptor {
    EntityDescriptor { id, nodes, edges, types }
}

fn node_ids(g: &typegraph::resolve::ResolvedGraph) -> Vec<u32> {
    g.nodes.iter().map(|n| n.id).collect()
}

#[test]
fn validate_missing_own_node() {
    let d = entity(5, vec![node(6, NodeOutputKind::Struct, "Six", &[])], vec![], vec![]);
    assert_eq!(d.validate(), Err(ConfigurationError::MissingOwnNode { id: 5 }));
}

#[test]
fn validate_absent_edge_endpoint() {
    let d = entity(
        5,
        vec![node(5, NodeOutputKind::Struct, "Five", &[])],
        vec![Edge { from: 5, to: 77 }],
        vec![],
    );
    assert_eq!(
        d.validate(),
        Err(ConfigurationError::AbsentEdgeEndpoint { edge: Edge { from: 5, to: 77 } })
    );
}

#[test]
fn validate_id_out_of_range() {
    let d = entity(5, vec![node(40000, NodeOutputKind::Struct, "Big", &[])], vec![], vec![]);
    assert_eq!(d.validate(), Err(ConfigurationError::IdOutOfRange { id: 40000 }));
}

#[test]
fn validate_accepts_well_formed() {
    let d = entity(
        5,
        vec![node(5, NodeOutputKind::Struct, "Five", &[])],
        vec![Edge { from: 5, to: 9 }],
        vec![9],
    );
    assert_eq!(d.validate(), Ok(()));
}

#[test]
fn registry_duplicate_entity() {
    let mut reg = Registry::new();
    let d1 = entity(5, vec![node(5, NodeOutputKind::Struct, "Five", &[])], vec![], vec![]);
    let d2 = entity(5, vec![node(5, NodeOutputKind::Enum, "Other", &[])], vec![], vec![]);
    assert_eq!(reg.insert(d1), Ok(()));
    assert_eq!(reg.insert(d2), Err(ConfigurationError::DuplicateEntity { id: 5 }));
}

#[test]
fn container_generic_arity() {
    let no_inners: Vec<u32> = vec![];
    let r = container_descriptor("Vec<u64>", VEC_OFFSET, 1, &no_inners);
    assert_eq!(r, Err(ConfigurationError::GenericArity { expected: 1, got: 0 }));
    let two = vec![U64_ID, U64_ID];
    let r2 = container_descriptor("Vec<u64>", VEC_OFFSET, 1, &two);
    assert_eq!(r2, Err(ConfigurationError::GenericArity { expected: 1, got: 2 }));
}

#[test]
fn container_id_is_offset_plus_content() {
    let inners = vec![U64_ID];
    let d = container_descriptor("Vec<u64>", VEC_OFFSET, 1, &inners).unwrap();
    assert_eq!(d.id, VEC_OFFSET + U64_ID);
    assert_eq!(d.edges, vec![Edge { from: d.id, to: U64_ID }]);
    assert_eq!(d.types, vec![U64_ID]);
}

#[test]
fn primitive_and_standard_leaves() {
    let p = primitive_descriptor(U64_ID, "u64");
    assert_eq!(p.id, U64_ID);
    assert_eq!(p.nodes.len(), 1);
    assert_eq!(p.nodes[0].name, "u64");
    assert_eq!(p.nodes[0].kind, NodeOutputKind::Primitive);
    assert!(p.edges.is_empty());
    assert!(p.types.is_empty());
    assert_eq!(p.validate(), Ok(()));
    let s = standard_descriptor(STRING_ID, "String");
    assert_eq!(s.id, 306);
    assert_eq!(s.nodes[0].kind, NodeOutputKind::Struct);
    assert_eq!(s.validate(), Ok(()));
}

#[test]
fn binary_container_id() {
    let inners = vec![U64_ID, U8_ID];
    let d = container_descriptor("Result<u64, u8>", RESULT_OFFSET, 2, &inners).unwrap();
    assert_eq!(d.id, RESULT_OFFSET + U64_ID + U8_ID);
    assert_eq!(
        d.edges,
        vec![Edge { from: d.id, to: U64_ID }, Edge { from: d.id, to: U8_ID }]
    );
    assert_eq!(d.types, inners);
    assert_eq!(d.nodes[0].kind, NodeOutputKind::BinaryContainer);
}

#[test]
fn container_resolves_and_classifies_contains() {
    let inners = vec![U64_ID];
    let c = container_descriptor("Vec<u64>", VEC_OFFSET, 1, &inners).unwrap();
    let cid = c.id;
    let mut reg = Registry::new();
    assert_eq!(reg.insert(c), Ok(()));
    assert_eq!(reg.insert(primitive_descriptor(U64_ID, "u64")), Ok(()));
    let g = resolve(&reg, cid);
    assert_eq!(g.nodes.len(), 2);
    let vg = materialize(&g);
    assert_eq!(vg.arcs.len(), 1);
    assert_eq!(vg.arcs[0].kind, EdgeKind::Contains);
}

#[test]
fn method_ids_of_an_implementation() {
    let d = entity(
        7,
        vec![
            node(7, NodeOutputKind::Implementation, "Impl", &[]),
            node(8, NodeOutputKind::Function, "deposit", &[]),
            node(9, NodeOutputKind::AsyncFunction, "sync_up", &[]),
        ],
        vec![],
        vec![],
    );
    assert_eq!(d.method_ids(), vec![MethodId { id: 8 }, MethodId { id: 9 }]);
}

#[test]
fn resolve_idempotent() {
    let (reg, root) = account_registry();
    let g1 = resolve(&reg, root);
    let g2 = resolve(&reg, root);
    assert_eq!(g1, g2);
    assert_eq!(node_ids(&g1), node_ids(&g2));
    assert_eq!(g1.edges, g2.edges);
}

#[test]
fn resolve_dedups_shared_reference() {
    // Both A and B reference D; D's node and edge appear exactly once.
    let d = entity(
        30,
        vec![node(30, NodeOutputKind::Struct, "D", &[])],
        vec![Edge { from: 30, to: 30 }],
        vec![],
    );
    let a = entity(10, vec![node(10, NodeOutputKind::Struct, "A", &[])], vec![], vec![30]);
    let b = entity(20, vec![node(20, NodeOutputKind::Struct, "B", &[])], vec![], vec![30]);
    let root = entity(1, vec![node(1, NodeOutputKind::Struct, "R", &[])], vec![], vec![10, 20]);
    let mut reg = Registry::new();
    assert_eq!(reg.insert(d), Ok(()));
    assert_eq!(reg.insert(a), Ok(()));
    assert_eq!(reg.insert(b), Ok(()));
    assert_eq!(reg.insert(root), Ok(()));
    let g = resolve(&reg, 1);
    let ids = node_ids(&g);
    assert_eq!(ids.iter().filter(|id| **id == 30).count(), 1);
    assert_eq!(
        g.edges.iter().filter(|e| **e == Edge { from: 30, to: 30 }).count(),
        1
    );
    assert_eq!(ids.len(), 4);
}

#[test]
fn resolve_terminates_on_cycle() {
    // A references B and B references A; both are merged exactly once.
    let a = entity(10, vec![node(10, NodeOutputKind::Struct, "A", &[])], vec![], vec![20]);
    let b = entity(20, vec![node(20, NodeOutputKind::Struct, "B", &[])], vec![], vec![10]);
    let mut reg = Registry::new();
    assert_eq!(reg.insert(a), Ok(()));
    assert_eq!(reg.insert(b), Ok(()));
    let g = resolve(&reg, 10);
    assert_eq!(node_ids(&g), vec![10, 20]);
    assert_eq!(g.visited, vec![10, 20]);
}

/// The Account scenario: a struct with one u64 field and one method taking
/// a u64 argument, the u64 leaf shared by both uses.
fn account_registry() -> (Registry, u32) {
    let alloc = Allocator::new();
    let acc = alloc.derive("Account");
    let imp = alloc.derive("AccountImpl");
    let dep = alloc.derive("deposit");
    let account = entity(
        acc,
        vec![node(acc, NodeOutputKind::Struct, "Account", &[("id", U64_ID)])],
        vec![Edge { from: acc, to: U64_ID }],
        vec![U64_ID, imp],
    );
    let implementation = entity(
        imp,
        vec![
            node(imp, NodeOutputKind::Implementation, "AccountImpl", &[]),
            node(dep, NodeOutputKind::Function, "deposit", &[("amount", U64_ID)]),
        ],
        vec![
            Edge { from: acc, to: imp },
            Edge { from: imp, to: dep },
            Edge { from: U64_ID, to: dep },
        ],
        vec![acc, U64_ID],
    );
    let mut reg = Registry::new();
    assert_eq!(reg.insert(account), Ok(()));
    assert_eq!(reg.insert(implementation), Ok(()));
    assert_eq!(reg.insert(primitive_descriptor(U64_ID, "u64")), Ok(()));
    (reg, acc)
}

#[test]
fn scenario_account() {
    let (reg, root) = account_registry();
    let g = resolve(&reg, root);
    // Account, its implementation, deposit, and u64 merged once for both uses.
    assert_eq!(g.nodes.len(), 4);
    let names: Vec<&str> = g.nodes.iter().map(|n| n.name.as_str()).collect();
    assert_eq!(names, vec!["Account", "u64", "AccountImpl", "deposit"]);
    assert_eq!(g.edges.len(), 4);
    let ids = node_ids(&g);
    assert_eq!(ids.iter().filter(|id| **id == U64_ID).count(), 1);
    // The four relations: the field, the implementation chain, and the
    // argument, classified from the endpoint kinds alone.
    let vg = materialize(&g);
    let kinds: Vec<EdgeKind> = vg.arcs.iter().map(|a| a.kind).collect();
    assert_eq!(
        kinds,
        vec![EdgeKind::Property, EdgeKind::Implementation, EdgeKind::Function, EdgeKind::Argument]
    );
}

/// The Shape scenario: an enum with two variants, each holding one f64
/// field, the f64 leaf shared.
fn shape_registry() -> (Registry, u32) {
    let alloc = Allocator::new();
    let shape = alloc.derive("Shape");
    let circle = alloc.derive("Circle");
    let square = alloc.derive("Square");
    let d = entity(
        shape,
        vec![
            node(shape, NodeOutputKind::Enum, "Shape", &[]),
            node(circle, NodeOutputKind::Variant, "Circle", &[("r", F64_ID)]),
            node(square, NodeOutputKind::Variant, "Square", &[("s", F64_ID)]),
        ],
        vec![
            Edge { from: shape, to: circle },
            Edge { from: shape, to: square },
            Edge { from: circle, to: F64_ID },
            Edge { from: square, to: F64_ID },
        ],
        vec![F64_ID],
    );
    let mut reg = Registry::new();
    assert_eq!(reg.insert(d), Ok(()));
    assert_eq!(reg.insert(primitive_descriptor(F64_ID, "f64")), Ok(()));
    (reg, shape)
}

#[test]
fn scenario_shape() {
    let (reg, root) = shape_registry();
    let g = resolve(&reg, root);
    assert_eq!(g.nodes.len(), 4);
    let names: Vec<&str> = g.nodes.iter().map(|n| n.name.as_str()).collect();
    assert_eq!(names, vec!["Shape", "Circle", "Square", "f64"]);
    assert_eq!(g.edges.len(), 4);
    let vg = materialize(&g);
    let kinds: Vec<EdgeKind> = vg.arcs.iter().map(|a| a.kind).collect();
    assert_eq!(
        kinds,
        vec![EdgeKind::Variant, EdgeKind::Variant, EdgeKind::Property, EdgeKind::Property]
    );
}

/// Re-resolving the same root with the allocator running on: derive-based
/// ids stay fixed, fresh-based ids may move, and the two graphs agree in
/// shape.
#[test]
fn scenario_reresolve_keeps_derived_ids() {
    let mut alloc = Allocator::new();
    let mut build = |alloc: &mut Allocator| {
        let root = alloc.derive("Root");
        let mut helper = alloc.fresh();
        while helper == root {
            helper = alloc.fresh();
        }
        let d = entity(
            root,
            vec![node(root, NodeOutputKind::Struct, "Root", &[])],
            vec![Edge { from: root, to: helper }],
            vec![helper],
        );
        let h = entity(
            helper,
            vec![node(helper, NodeOutputKind::Struct, "Helper", &[])],
            vec![],
            vec![],
        );
        let mut reg = Registry::new();
        assert_eq!(reg.insert(d), Ok(()));
        assert_eq!(reg.insert(h), Ok(()));
        (reg, root)
    };
    let (reg1, root1) = build(&mut alloc);
    let (reg2, root2) = build(&mut alloc);
    assert_eq!(root1, root2);
    let g1 = resolve(&reg1, root1);
    let g2 = resolve(&reg2, root2);
    assert_eq!(g1.nodes.len(), g2.nodes.len());
    assert_eq!(g1.edges.len(), g2.edges.len());
    let find = |g: &typegraph::resolve::ResolvedGraph, name: &str| -> u32 {
        g.nodes.iter().find(|n| n.name == name).unwrap().id
    };
    assert_eq!(find(&g1, "Root"), find(&g2, "Root"));
    // Both runs hold a Helper node, wherever its fresh id landed.
    let _ = find(&g1, "Helper");
    let _ = find(&g2, "Helper");
}
