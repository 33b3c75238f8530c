pub mod container;
pub mod export;
pub mod graph;
pub mod graphviz;
pub mod id;
pub mod primitive;
pub mod resolve;
pub mod standard;
pub mod value;

use vstd::prelude::*;

verus! {

use crate::graph::Registry;
use crate::graphviz::{render_graph, spec_render};
use crate::resolve::{lemma_resolve_bounded, lemma_resolve_dedup, resolve, spec_resolve};
use crate::value::{materialize, spec_arcs, spec_vertices};

/// Upper bound of the node-id space: every allocated id lies in [0, 32768).
pub const MAX_NODE_IDS: u32 = 32768;

/// The whole pipeline over one root entity: resolve the reference closure,
/// materialize it as typed vertices and classified arcs, and render the
/// clustered text. The result is a pure function of the registry and the
/// root id.
pub fn resolve_and_render(reg: &Registry, root: u32) -> (r: String)
    requires
        reg.wf(),
    ensures
        ({
            let g = spec_resolve(reg@, root);
            r@ == spec_render(spec_vertices(g.nodes), spec_arcs(g.nodes, g.edges))
        }),
{
    proof {
        reg.lemma_wf_map();
        lemma_resolve_dedup(reg@, root);
        lemma_resolve_bounded(reg@, root);
    }
    let g = resolve(reg, root);
    let vg = materialize(&g);
    proof {
        assert(vg.vertices@.len() == vg.vertices.deep_view().len());
        assert(vg.vertices.deep_view().len() == spec_resolve(reg@, root).nodes.len());
    }
    render_graph(&vg)
}

} // verus!
