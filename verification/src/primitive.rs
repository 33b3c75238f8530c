use vstd::prelude::*;

verus! {

use crate::MAX_NODE_IDS;
use crate::graph::{EntityDescriptor, NodeOutput, NodeOutputKind, desc_wf};

/// Fixed reserved ids of the primitive leaf descriptors.
pub const UNIT_ID: u32 = 1;

pub const I8_ID: u32 = 2;

pub const I16_ID: u32 = 3;

pub const I32_ID: u32 = 4;

pub const I64_ID: u32 = 5;

pub const I128_ID: u32 = 6;

pub const ISIZE_ID: u32 = 7;

pub const U8_ID: u32 = 8;

pub const U16_ID: u32 = 9;

pub const U32_ID: u32 = 10;

pub const U64_ID: u32 = 11;

pub const U128_ID: u32 = 12;

pub const USIZE_ID: u32 = 13;

pub const F32_ID: u32 = 14;

pub const F64_ID: u32 = 15;

pub const CHAR_ID: u32 = 17;

pub const BOOL_ID: u32 = 18;

pub const STR_ID: u32 = 19;

pub const STR_SLICE_ID: u32 = 20;

/// A pre-registered leaf descriptor: a single node of the given kind under
/// the given reserved id, with no own edges and no referenced entities.
pub fn leaf_descriptor(id: u32, kind: NodeOutputKind, name: &str) -> (d: EntityDescriptor)
    requires
        id < MAX_NODE_IDS,
    ensures
        d@.id == id,
        d@.nodes.len() == 1,
        d@.nodes[0].id == id,
        d@.nodes[0].kind == kind,
        d@.nodes[0].name == name@,
        d@.nodes[0].cluster.len() == 0,
        d@.nodes[0].slots.len() == 0,
        d@.edges.len() == 0,
        d@.types.len() == 0,
        desc_wf(d@),
{
    let node = NodeOutput {
        id,
        kind,
        name: name.to_owned(),
        cluster: Vec::new(),
        slots: Vec::new(),
    };
    let mut nodes: Vec<NodeOutput> = Vec::new();
    nodes.push(node);
    let d = EntityDescriptor { id, nodes, edges: Vec::new(), types: Vec::new() };
    proof {
        assert(d@.nodes[0].id == id);
        assert(crate::graph::seq_has_node_id(d@.nodes, id));
    }
    d
}

/// A primitive leaf: numeric types, bool, char and the string primitives,
/// each under its fixed reserved id.
pub fn primitive_descriptor(id: u32, name: &str) -> (d: EntityDescriptor)
    requires
        id < MAX_NODE_IDS,
    ensures
        d@.id == id,
        d@.nodes.len() == 1,
        d@.nodes[0].id == id,
        d@.nodes[0].kind == NodeOutputKind::Primitive,
        d@.nodes[0].name == name@,
        d@.edges.len() == 0,
        d@.types.len() == 0,
        desc_wf(d@),
{
    leaf_descriptor(id, NodeOutputKind::Primitive, name)
}

} // verus!
