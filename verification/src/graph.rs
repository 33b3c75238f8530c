use vstd::prelude::*;

verus! {

/// Kind of a described graph node.
#[derive(Clone, Copy, PartialEq, Eq, Structural, Debug)]
pub enum NodeOutputKind {
    Struct,
    Enum,
    Function,
    AsyncFunction,
    Implementation,
    Primitive,
    Variant,
    UnaryContainer,
    BinaryContainer,
    Generic,
}

/// Relation vocabulary of the descriptor layer. It is advisory only: the
/// rendered kind of an edge is always derived from its endpoint kinds,
/// never taken from the descriptor.
#[derive(Clone, Copy, PartialEq, Eq, Structural, Debug)]
pub enum EdgeOutputKind {
    MethodOf,
    PropertyOf,
    Invokes,
    Accesses,
    ImplementedBy,
    Provides,
}

/// A directed relation between two node ids.
#[derive(Clone, Copy, PartialEq, Eq, Structural, Debug, Hash)]
pub struct Edge {
    pub from: u32,
    pub to: u32,
}

/// Identity of a method node owned by an implementation descriptor.
#[derive(Clone, Copy, PartialEq, Eq, Structural, Debug)]
pub struct MethodId {
    pub id: u32,
}

/// One graph node: identity, kind, display name, namespace path used for
/// clustering, and a (slot name, peer id) table naming fields or parameters.
#[derive(Debug, PartialEq)]
pub struct NodeOutput {
    pub id: u32,
    pub kind: NodeOutputKind,
    pub name: String,
    pub cluster: Vec<String>,
    pub slots: Vec<(String, u32)>,
}

/// Mathematical image of a node.
pub struct NodeView {
    pub id: u32,
    pub kind: NodeOutputKind,
    pub name: Seq<char>,
    pub cluster: Seq<Seq<char>>,
    pub slots: Seq<(Seq<char>, u32)>,
}

impl View for NodeOutput {
    type V = NodeView;

    open spec fn view(&self) -> NodeView {
        NodeView {
            id: self.id,
            kind: self.kind,
            name: self.name@,
            cluster: self.cluster.deep_view(),
            slots: self.slots.deep_view(),
        }
    }
}

impl DeepView for NodeOutput {
    type V = NodeView;

    open spec fn deep_view(&self) -> NodeView {
        self.view()
    }
}

/// A copy of a string vector, equal element for element.
pub fn clone_strings(v: &Vec<String>) -> (r: Vec<String>)
    ensures
        r@ == v@,
        r.deep_view() == v.deep_view(),
{
    let mut r: Vec<String> = Vec::new();
    let mut i: usize = 0;
    while i < v.len()
        invariant
            i <= v.len(),
            r@.len() == i,
            forall|k: int| 0 <= k < i ==> r@[k] == v@[k],
        decreases v.len() - i,
    {
        r.push(v[i].clone());
        i = i + 1;
    }
    proof {
        assert(r@ =~= v@);
        assert(r.deep_view() =~= v.deep_view());
    }
    r
}

/// A copy of a slot table, equal element for element.
pub fn clone_slots(v: &Vec<(String, u32)>) -> (r: Vec<(String, u32)>)
    ensures
        r@ == v@,
        r.deep_view() == v.deep_view(),
{
    let mut r: Vec<(String, u32)> = Vec::new();
    let mut i: usize = 0;
    while i < v.len()
        invariant
            i <= v.len(),
            r@.len() == i,
            forall|k: int| 0 <= k < i ==> r@[k] == v@[k],
        decreases v.len() - i,
    {
        r.push((v[i].0.clone(), v[i].1));
        i = i + 1;
    }
    proof {
        assert(r@ =~= v@);
        assert(r.deep_view() =~= v.deep_view());
    }
    r
}

impl NodeOutput {
    /// A copy whose view equals this node's view.
    pub fn duplicate(&self) -> (r: NodeOutput)
        ensures
            r@ == self@,
    {
        NodeOutput {
            id: self.id,
            kind: self.kind,
            name: self.name.clone(),
            cluster: clone_strings(&self.cluster),
            slots: clone_slots(&self.slots),
        }
    }
}

/// The static contract of one entity: its own nodes, its own edges, and the
/// ids of the other entities it references.
#[derive(Debug, PartialEq)]
pub struct EntityDescriptor {
    pub id: u32,
    pub nodes: Vec<NodeOutput>,
    pub edges: Vec<Edge>,
    pub types: Vec<u32>,
}

/// Mathematical image of a descriptor.
pub struct DescView {
    pub id: u32,
    pub nodes: Seq<NodeView>,
    pub edges: Seq<Edge>,
    pub types: Seq<u32>,
}

impl View for EntityDescriptor {
    type V = DescView;

    open spec fn view(&self) -> DescView {
        DescView {
            id: self.id,
            nodes: self.nodes.deep_view(),
            edges: self.edges@,
            types: self.types@,
        }
    }
}

impl DeepView for EntityDescriptor {
    type V = DescView;

    open spec fn deep_view(&self) -> DescView {
        self.view()
    }
}

/// Whether some node of the sequence carries the given id.
pub open spec fn seq_has_node_id(ns: Seq<NodeView>, id: u32) -> bool {
    exists|i: int| 0 <= i < ns.len() && ns[i].id == id
}

/// An id a descriptor's own edges may name: one of its own nodes, or one of
/// the entities it references.
pub open spec fn desc_knows_id(d: DescView, id: u32) -> bool {
    seq_has_node_id(d.nodes, id) || d.types.contains(id)
}

/// Every node id lies inside the id space.
pub open spec fn node_ids_in_range(ns: Seq<NodeView>) -> bool {
    forall|i: int| 0 <= i < ns.len() ==> ns[i].id < crate::MAX_NODE_IDS
}

/// Both endpoints of the descriptor's edge at the given index are known ids.
pub open spec fn edge_endpoints_known(d: DescView, i: int) -> bool {
    desc_knows_id(d, d.edges[i].from) && desc_knows_id(d, d.edges[i].to)
}

/// A well-formed descriptor: its node ids lie inside the id space, it owns
/// a node carrying its own id, and every own edge names only known ids.
pub open spec fn desc_wf(d: DescView) -> bool {
    &&& node_ids_in_range(d.nodes)
    &&& seq_has_node_id(d.nodes, d.id)
    &&& forall|i: int| 0 <= i < d.edges.len() ==> #[trigger] edge_endpoints_known(d, i)
}

/// Why a descriptor set was rejected at construction time.
#[derive(Clone, Copy, PartialEq, Eq, Structural, Debug)]
pub enum ConfigurationError {
    /// The descriptor owns no node carrying its own id.
    MissingOwnNode { id: u32 },
    /// An own edge names an id that is neither an own node nor a referenced
    /// entity.
    AbsentEdgeEndpoint { edge: Edge },
    /// A generic entity was applied to the wrong number of arguments.
    GenericArity { expected: usize, got: usize },
    /// A node id lies outside the id space [0, MAX_NODE_IDS).
    IdOutOfRange { id: u32 },
    /// A second descriptor was registered under an already-taken entity id.
    DuplicateEntity { id: u32 },
}

/// Whether some node of the vector carries the given id.
pub fn nodes_contain_id(ns: &Vec<NodeOutput>, id: u32) -> (r: bool)
    ensures
        r == seq_has_node_id(ns.deep_view(), id),
{
    let mut i: usize = 0;
    while i < ns.len()
        invariant
            i <= ns.len(),
            forall|k: int| 0 <= k < i ==> ns.deep_view()[k].id != id,
        decreases ns.len() - i,
    {
        if ns[i].id == id {
            proof {
                assert(ns.deep_view()[i as int].id == id);
            }
            return true;
        }
        i = i + 1;
    }
    false
}

/// Whether the vector contains the given id.
pub fn ids_contain(v: &Vec<u32>, x: u32) -> (r: bool)
    ensures
        r == v@.contains(x),
{
    let mut i: usize = 0;
    while i < v.len()
        invariant
            i <= v.len(),
            forall|k: int| 0 <= k < i ==> v@[k] != x,
        decreases v.len() - i,
    {
        if v[i] == x {
            return true;
        }
        i = i + 1;
    }
    false
}

impl EntityDescriptor {
    /// Checks well-formedness before any resolution may use the descriptor.
    /// Malformed descriptors are reported here, at construction time;
    /// resolution itself never fails on a validated set.
    pub fn validate(&self) -> (r: Result<(), ConfigurationError>)
        ensures
            r is Ok <==> desc_wf(self@),
            match r {
                Ok(()) => desc_wf(self@),
                Err(ConfigurationError::IdOutOfRange { id }) => id >= crate::MAX_NODE_IDS
                    && seq_has_node_id(self@.nodes, id),
                Err(ConfigurationError::MissingOwnNode { id }) => node_ids_in_range(self@.nodes)
                    && id == self.id && !seq_has_node_id(self@.nodes, self.id),
                Err(ConfigurationError::AbsentEdgeEndpoint { edge }) => node_ids_in_range(
                    self@.nodes,
                ) && seq_has_node_id(self@.nodes, self.id) && self@.edges.contains(edge) && !(
                desc_knows_id(self@, edge.from) && desc_knows_id(self@, edge.to)),
                Err(_) => false,
            },
    {
        let mut n: usize = 0;
        while n < self.nodes.len()
            invariant
                n <= self.nodes.len(),
                forall|k: int| 0 <= k < n ==> self@.nodes[k].id < crate::MAX_NODE_IDS,
            decreases self.nodes.len() - n,
        {
            if self.nodes[n].id >= crate::MAX_NODE_IDS {
                proof {
                    assert(self@.nodes[n as int].id == self.nodes@[n as int].id);
                }
                return Err(ConfigurationError::IdOutOfRange { id: self.nodes[n].id });
            }
            proof {
                assert(self@.nodes[n as int].id < crate::MAX_NODE_IDS);
            }
            n = n + 1;
        }
        if !nodes_contain_id(&self.nodes, self.id) {
            return Err(ConfigurationError::MissingOwnNode { id: self.id });
        }
        let mut i: usize = 0;
        while i < self.edges.len()
            invariant
                i <= self.edges.len(),
                node_ids_in_range(self@.nodes),
                seq_has_node_id(self@.nodes, self.id),
                forall|k: int| 0 <= k < i ==> #[trigger] edge_endpoints_known(self@, k),
            decreases self.edges.len() - i,
        {
            let e = self.edges[i];
            let from_known = nodes_contain_id(&self.nodes, e.from) || ids_contain(
                &self.types,
                e.from,
            );
            let to_known = nodes_contain_id(&self.nodes, e.to) || ids_contain(&self.types, e.to);
            if !(from_known && to_known) {
                proof {
                    assert(self@.edges[i as int] == e);
                    assert(!edge_endpoints_known(self@, i as int));
                }
                return Err(ConfigurationError::AbsentEdgeEndpoint { edge: e });
            }
            proof {
                assert(self@.edges[i as int] == e);
                assert(edge_endpoints_known(self@, i as int));
            }
            i = i + 1;
        }
        Ok(())
    }
}

/// The method identities a node sequence owns: the id of every function or
/// asynchronous-function node, in node order.
pub open spec fn spec_method_ids(ns: Seq<NodeView>) -> Seq<MethodId>
    decreases ns.len(),
{
    if ns.len() == 0 {
        Seq::empty()
    } else {
        spec_method_ids(ns.drop_last()) + (if ns.last().kind is Function
            || ns.last().kind is AsyncFunction {
            seq![MethodId { id: ns.last().id }]
        } else {
            Seq::empty()
        })
    }
}

impl EntityDescriptor {
    /// The identities of the method nodes this descriptor owns, in node
    /// order: its function and asynchronous-function nodes.
    pub fn method_ids(&self) -> (r: Vec<MethodId>)
        ensures
            r@ == spec_method_ids(self@.nodes),
    {
        let ghost ns = self@.nodes;
        let mut r: Vec<MethodId> = Vec::new();
        proof {
            assert(ns.take(0) =~= Seq::<NodeView>::empty());
            assert(r@ =~= spec_method_ids(ns.take(0)));
        }
        let mut i: usize = 0;
        while i < self.nodes.len()
            invariant
                i <= self.nodes.len(),
                ns == self@.nodes,
                r@ == spec_method_ids(ns.take(i as int)),
            decreases self.nodes.len() - i,
        {
            proof {
                assert(ns.take(i + 1).drop_last() =~= ns.take(i as int));
                assert(ns.take(i + 1).last() == ns[i as int]);
                assert(ns[i as int] == self.nodes@[i as int]@);
            }
            match self.nodes[i].kind {
                NodeOutputKind::Function => {
                    r.push(MethodId { id: self.nodes[i].id });
                    proof {
                        assert(r@ =~= spec_method_ids(ns.take(i + 1)));
                    }
                },
                NodeOutputKind::AsyncFunction => {
                    r.push(MethodId { id: self.nodes[i].id });
                    proof {
                        assert(r@ =~= spec_method_ids(ns.take(i + 1)));
                    }
                },
                _ => {
                    proof {
                        assert(r@ =~= spec_method_ids(ns.take(i + 1)));
                    }
                },
            }
            i = i + 1;
        }
        proof {
            assert(ns.take(ns.len() as int) =~= ns);
        }
        r
    }
}

/// The descriptors of one resolution run, keyed by entity id: at most one
/// descriptor per id, each well-formed.
pub struct Registry {
    items: Vec<EntityDescriptor>,
}

/// Folds a descriptor sequence into the id-keyed map, later entries winning.
pub open spec fn descs_to_map(s: Seq<EntityDescriptor>) -> Map<u32, DescView>
    decreases s.len(),
{
    if s.len() == 0 {
        Map::empty()
    } else {
        descs_to_map(s.drop_last()).insert(s.last().id, s.last()@)
    }
}

impl View for Registry {
    type V = Map<u32, DescView>;

    closed spec fn view(&self) -> Map<u32, DescView> {
        descs_to_map(self.items@)
    }
}

proof fn lemma_descs_to_map_props(s: Seq<EntityDescriptor>)
    ensures
        descs_to_map(s).dom().finite(),
        forall|id: u32|
            descs_to_map(s).dom().contains(id) <==> exists|i: int|
                0 <= i < s.len() && #[trigger] s[i].id == id,
        forall|id: u32| #[trigger]
            descs_to_map(s).dom().contains(id) ==> descs_to_map(s)[id].id == id,
    decreases s.len(),
{
    if s.len() > 0 {
        lemma_descs_to_map_props(s.drop_last());
        assert forall|id: u32| descs_to_map(s).dom().contains(id) implies exists|i: int|
            0 <= i < s.len() && #[trigger] s[i].id == id by {
            if id == s.last().id {
                assert(s[s.len() - 1].id == id);
            } else {
                let i = choose|i: int| 0 <= i < s.len() - 1 && #[trigger] s.drop_last()[i].id == id;
                assert(s[i].id == id);
            }
        }
        assert forall|id: u32| (exists|i: int| 0 <= i < s.len() && #[trigger] s[i].id == id)
            implies descs_to_map(s).dom().contains(id) by {
            let i = choose|i: int| 0 <= i < s.len() && #[trigger] s[i].id == id;
            if i < s.len() - 1 {
                assert(s.drop_last()[i].id == id);
            }
        }
    }
}

proof fn lemma_descs_to_map_get(s: Seq<EntityDescriptor>, i: int)
    requires
        0 <= i < s.len(),
        forall|a: int, b: int| 0 <= a < b < s.len() ==> s[a].id != s[b].id,
    ensures
        descs_to_map(s).dom().contains(s[i].id),
        descs_to_map(s)[s[i].id] == s[i]@,
    decreases s.len(),
{
    if i == s.len() - 1 {
    } else {
        assert forall|a: int, b: int| 0 <= a < b < s.drop_last().len() implies s.drop_last()[a].id
            != s.drop_last()[b].id by {
            assert(s[a].id != s[b].id);
        }
        lemma_descs_to_map_get(s.drop_last(), i);
        assert(s.drop_last()[i] == s[i]);
        assert(s[i].id != s[s.len() - 1].id);
    }
}

impl Registry {
    /// No two stored descriptors share an id, and each one is well-formed.
    pub closed spec fn wf(&self) -> bool {
        &&& forall|i: int, j: int|
            0 <= i < j < self.items@.len() ==> self.items@[i].id != self.items@[j].id
        &&& forall|i: int| 0 <= i < self.items@.len() ==> desc_wf((#[trigger] self.items@[i])@)
    }

    /// Facts every user of a well-formed registry may rely on: the key set is
    /// finite, each stored descriptor sits under its own id and is well-formed.
    pub proof fn lemma_wf_map(&self)
        requires
            self.wf(),
        ensures
            self@.dom().finite(),
            forall|id: u32| #[trigger] self@.dom().contains(id) ==> self@[id].id == id,
            forall|id: u32| #[trigger] self@.dom().contains(id) ==> desc_wf(self@[id]),
    {
        lemma_descs_to_map_props(self.items@);
        assert forall|id: u32| #[trigger] self@.dom().contains(id) implies desc_wf(self@[id]) by {
            let i = choose|i: int| 0 <= i < self.items@.len() && #[trigger] self.items@[i].id == id;
            lemma_descs_to_map_get(self.items@, i);
            assert(desc_wf(self.items@[i]@));
        }
    }

    /// An empty registry.
    pub fn new() -> (r: Registry)
        ensures
            r@ == Map::<u32, DescView>::empty(),
            r.wf(),
    {
        let r = Registry { items: Vec::new() };
        r
    }

    /// Registers a descriptor. Malformed descriptors and id collisions are
    /// rejected here, before any resolution can observe them.
    pub fn insert(&mut self, d: EntityDescriptor) -> (r: Result<(), ConfigurationError>)
        requires
            old(self).wf(),
        ensures
            final(self).wf(),
            match r {
                Ok(()) => !old(self)@.dom().contains(d.id) && desc_wf(d@) && final(self)@ == old(
                    self,
                )@.insert(d.id, d@),
                Err(ConfigurationError::DuplicateEntity { id }) => id == d.id && old(
                    self,
                )@.dom().contains(d.id) && desc_wf(d@) && final(self)@ == old(self)@,
                Err(e) => !(e is DuplicateEntity) && !desc_wf(d@) && final(self)@ == old(self)@,
            },
    {
        let valid = d.validate();
        match valid {
            Err(e) => Err(e),
            Ok(()) => {
                let dup = self.get(d.id).is_some();
                if dup {
                    return Err(ConfigurationError::DuplicateEntity { id: d.id });
                }
                proof {
                    lemma_descs_to_map_props(self.items@);
                }
                let ghost old_items = self.items@;
                let ghost dv = d@;
                let ghost did = d.id;
                self.items.push(d);
                proof {
                    assert(self.items@.drop_last() =~= old_items);
                    assert(self.items@.last().id == did && self.items@.last()@ == dv);
                    let s = self.items@;
                    assert forall|a: int, b: int| 0 <= a < b < s.len() implies s[a].id
                        != s[b].id by {
                        if b < s.len() - 1 {
                            assert(old_items[a].id != old_items[b].id);
                        } else {
                            assert(old_items[a].id == s[a].id);
                        }
                    }
                    assert forall|i: int| 0 <= i < s.len() implies desc_wf(
                        (#[trigger] s[i])@,
                    ) by {
                        if i < s.len() - 1 {
                            assert(desc_wf(old_items[i]@));
                        }
                    }
                }
                Ok(())
            },
        }
    }

    /// Looks a descriptor up by entity id.
    pub fn get(&self, id: u32) -> (r: Option<&EntityDescriptor>)
        requires
            self.wf(),
        ensures
            match r {
                Some(d) => self@.dom().contains(id) && d@ == self@[id],
                None => !self@.dom().contains(id),
            },
    {
        let mut i: usize = 0;
        while i < self.items.len()
            invariant
                i <= self.items.len(),
                self.wf(),
                forall|k: int| 0 <= k < i ==> self.items@[k].id != id,
            decreases self.items.len() - i,
        {
            if self.items[i].id == id {
                proof {
                    lemma_descs_to_map_get(self.items@, i as int);
                }
                return Some(&self.items[i]);
            }
            i = i + 1;
        }
        proof {
            lemma_descs_to_map_props(self.items@);
        }
        None
    }

    /// The number of registered descriptors.
    pub fn len(&self) -> (n: usize)
        requires
            self.wf(),
        ensures
            n == self@.dom().len(),
    {
        proof {
            lemma_descs_to_map_props(self.items@);
            let sv = self.items@;
            let ids = sv.map_values(|d: EntityDescriptor| d.id);
            assert(ids.no_duplicates());
            ids.unique_seq_to_set();
            assert forall|x: u32| ids.to_set().contains(x) implies self@.dom().contains(x) by {
                let i = choose|i: int| 0 <= i < ids.len() && ids[i] == x;
                assert(sv[i].id == x);
            }
            assert forall|x: u32| self@.dom().contains(x) implies ids.to_set().contains(x) by {
                let i = choose|i: int| 0 <= i < sv.len() && #[trigger] sv[i].id == x;
                assert(ids[i] == x);
                assert(ids.contains(x));
            }
            assert(ids.to_set() =~= self@.dom());
        }
        self.items.len()
    }
}

} // verus!
