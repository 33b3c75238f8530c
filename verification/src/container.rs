use vstd::prelude::*;

verus! {

use crate::MAX_NODE_IDS;
use crate::graph::{
    ConfigurationError, Edge, EntityDescriptor, NodeOutput, NodeOutputKind, desc_wf,
};

/// Fixed per-container id offsets of the unary containers.
pub const VEC_OFFSET: u32 = 100;

pub const MUTEX_OFFSET: u32 = 101;

pub const ARC_OFFSET: u32 = 102;

pub const OPTION_OFFSET: u32 = 103;

pub const JOIN_HANDLE_OFFSET: u32 = 104;

pub const VEC_DEQUE_OFFSET: u32 = 105;

pub const WEAK_OFFSET: u32 = 106;

pub const REF_CELL_OFFSET: u32 = 107;

pub const BOX_OFFSET: u32 = 108;

pub const PHANTOM_DATA_OFFSET: u32 = 109;

/// Fixed per-container id offsets of the binary containers.
pub const RESULT_OFFSET: u32 = 200;

pub const HASH_MAP_OFFSET: u32 = 201;

pub const PAIR_OFFSET: u32 = 202;

/// The derived id of a container over its contained ids: the kind-specific
/// offset plus the contained ids, reduced into the id space. The reduction
/// keeps the id in range; distinctness from other ids is not defended.
pub open spec fn spec_container_id(offset: u32, inners: Seq<u32>) -> u32 {
    (((offset as int) + sum_ids(inners)) % (MAX_NODE_IDS as int)) as u32
}

/// The sum of a sequence of ids, as a mathematical integer.
pub open spec fn sum_ids(inners: Seq<u32>) -> int
    decreases inners.len(),
{
    if inners.len() == 0 {
        0
    } else {
        sum_ids(inners.drop_last()) + inners.last()
    }
}

/// A container descriptor over its contained entities: one container node
/// under the derived id, one own edge to each contained id, and the
/// contained ids as references. A wrong number of contained ids for the
/// container's arity is a construction-time configuration error.
pub fn container_descriptor(name: &str, offset: u32, arity: usize, inners: &Vec<u32>) -> (r:
    Result<EntityDescriptor, ConfigurationError>)
    requires
        1 <= arity <= 2,
    ensures
        match r {
            Ok(d) => {
                &&& inners@.len() == arity
                &&& d@.id == spec_container_id(offset, inners@)
                &&& d@.nodes.len() == 1
                &&& d@.nodes[0].id == d@.id
                &&& d@.nodes[0].kind == (if arity == 1 {
                    NodeOutputKind::UnaryContainer
                } else {
                    NodeOutputKind::BinaryContainer
                })
                &&& d@.nodes[0].name == name@
                &&& d@.edges == inners@.map_values(|t: u32| Edge { from: d@.id, to: t })
                &&& d@.types == inners@
                &&& desc_wf(d@)
            },
            Err(ConfigurationError::GenericArity { expected, got }) => expected == arity && got
                == inners@.len() && inners@.len() != arity,
            Err(_) => false,
        },
{
    if inners.len() != arity {
        return Err(ConfigurationError::GenericArity { expected: arity, got: inners.len() });
    }
    let mut sum: u64 = offset as u64;
    let mut types: Vec<u32> = Vec::new();
    let mut i: usize = 0;
    while i < inners.len()
        invariant
            i <= inners.len(),
            inners@.len() <= 2,
            sum == offset + sum_ids(inners@.take(i as int)),
            sum <= offset + i * 0xffff_ffff,
            types@ == inners@.take(i as int),
        decreases inners.len() - i,
    {
        proof {
            assert(inners@.take(i + 1).drop_last() =~= inners@.take(i as int));
            assert(inners@.take(i + 1).last() == inners@[i as int]);
            assert(types@.push(inners@[i as int]) =~= inners@.take(i + 1));
        }
        sum = sum + inners[i] as u64;
        types.push(inners[i]);
        i = i + 1;
    }
    proof {
        assert(inners@.take(inners@.len() as int) =~= inners@);
    }
    let id = (sum % (MAX_NODE_IDS as u64)) as u32;
    let kind = if arity == 1 {
        NodeOutputKind::UnaryContainer
    } else {
        NodeOutputKind::BinaryContainer
    };
    let node = NodeOutput {
        id,
        kind,
        name: name.to_owned(),
        cluster: Vec::new(),
        slots: Vec::new(),
    };
    let mut nodes: Vec<NodeOutput> = Vec::new();
    nodes.push(node);
    let mut edges: Vec<Edge> = Vec::new();
    let mut j: usize = 0;
    while j < types.len()
        invariant
            j <= types.len(),
            edges@ == types@.take(j as int).map_values(|t: u32| Edge { from: id, to: t }),
        decreases types.len() - j,
    {
        edges.push(Edge { from: id, to: types[j] });
        proof {
            assert(edges@ =~= types@.take(j + 1).map_values(|t: u32| Edge { from: id, to: t }));
        }
        j = j + 1;
    }
    proof {
        assert(types@.take(types@.len() as int) =~= types@);
    }
    let d = EntityDescriptor { id, nodes, edges, types };
    proof {
        assert(d@.nodes[0].id == id);
        assert(crate::graph::seq_has_node_id(d@.nodes, id));
        assert forall|k: int| 0 <= k < d@.edges.len() implies #[trigger] crate::graph::edge_endpoints_known(
            d@,
            k,
        ) by {
            assert(d@.edges[k] == Edge { from: id, to: d@.types[k] });
            assert(d@.nodes[0].id == d@.edges[k].from);
            assert(d@.types.contains(d@.types[k]));
        }
    }
    Ok(d)
}

} // verus!
