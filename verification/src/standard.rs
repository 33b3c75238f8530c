use vstd::prelude::*;

verus! {

use crate::MAX_NODE_IDS;
use crate::graph::{EntityDescriptor, NodeOutputKind, desc_wf};
use crate::primitive::leaf_descriptor;

/// Fixed reserved ids of the standard-type leaf descriptors.
pub const DURATION_ID: u32 = 300;

pub const ATOMIC_BOOL_ID: u32 = 301;

pub const ATOMIC_USIZE_ID: u32 = 302;

pub const CONDVAR_ID: u32 = 303;

pub const THREAD_ID_ID: u32 = 304;

pub const WAKER_ID: u32 = 305;

pub const STRING_ID: u32 = 306;

/// A standard-type leaf: a plain struct node under its fixed reserved id,
/// with no own edges and no referenced entities.
pub fn standard_descriptor(id: u32, name: &str) -> (d: EntityDescriptor)
    requires
        id < MAX_NODE_IDS,
    ensures
        d@.id == id,
        d@.nodes.len() == 1,
        d@.nodes[0].id == id,
        d@.nodes[0].kind == NodeOutputKind::Struct,
        d@.nodes[0].name == name@,
        d@.edges.len() == 0,
        d@.types.len() == 0,
        desc_wf(d@),
{
    leaf_descriptor(id, NodeOutputKind::Struct, name)
}

} // verus!
