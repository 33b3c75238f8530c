use vstd::prelude::*;

verus! {

use crate::graph::{Edge, NodeOutput, NodeOutputKind, NodeView, clone_slots, clone_strings, seq_has_node_id};
use crate::resolve::{ResolvedGraph, distinct_node_ids};

/// The value-level class of a vertex. It refines the descriptor kind:
/// implementations split into inherent and trait ones.
#[derive(Clone, Copy, PartialEq, Eq, Structural, Debug)]
pub enum VertexClass {
    Struct,
    Generic,
    Enum,
    InherentImplementation,
    TraitImplementation,
    Function,
    AsyncFunction,
    Primitive,
    Variant,
    UnaryContainer,
    BinaryContainer,
}

/// The class a descriptor kind materializes as.
pub open spec fn class_of_kind(k: NodeOutputKind) -> VertexClass {
    match k {
        NodeOutputKind::Struct => VertexClass::Struct,
        NodeOutputKind::Enum => VertexClass::Enum,
        NodeOutputKind::Function => VertexClass::Function,
        NodeOutputKind::AsyncFunction => VertexClass::AsyncFunction,
        NodeOutputKind::Implementation => VertexClass::InherentImplementation,
        NodeOutputKind::Primitive => VertexClass::Primitive,
        NodeOutputKind::Variant => VertexClass::Variant,
        NodeOutputKind::UnaryContainer => VertexClass::UnaryContainer,
        NodeOutputKind::BinaryContainer => VertexClass::BinaryContainer,
        NodeOutputKind::Generic => VertexClass::Generic,
    }
}

/// The shape each vertex class renders with.
pub open spec fn class_shape(c: VertexClass) -> Seq<char> {
    match c {
        VertexClass::Struct => "box3d"@,
        VertexClass::Generic => "diamond"@,
        VertexClass::UnaryContainer => "box3d"@,
        VertexClass::BinaryContainer => "box3d"@,
        VertexClass::Enum => "folder"@,
        VertexClass::Variant => "note"@,
        VertexClass::InherentImplementation => "cylinder"@,
        VertexClass::TraitImplementation => "cylinder"@,
        VertexClass::Function => "ellipse"@,
        VertexClass::AsyncFunction => "ellipse"@,
        VertexClass::Primitive => "square"@,
    }
}

/// The fill and outline colour each vertex class renders with.
pub open spec fn class_color(c: VertexClass) -> Seq<char> {
    match c {
        VertexClass::Struct => "#7aa2f7"@,
        VertexClass::Generic => "#bb9af7"@,
        VertexClass::UnaryContainer => "#7aa2f7"@,
        VertexClass::BinaryContainer => "#7aa2f7"@,
        VertexClass::Enum => "#7dcfff"@,
        VertexClass::Variant => "#7dcfff"@,
        VertexClass::InherentImplementation => "#9ece6a"@,
        VertexClass::TraitImplementation => "#9ece6a"@,
        VertexClass::Function => "#e0af68"@,
        VertexClass::AsyncFunction => "#ff9e64"@,
        VertexClass::Primitive => "#c0caf5"@,
    }
}

/// A materialized graph node carrying a payload: its id, its display name,
/// and payload data such as rendering metadata.
#[derive(Debug)]
pub enum Node<T> {
    Struct(u32, String, T),
    Generic(u32, String, T),
    Enum(u32, String, T),
    InherentImplementation(u32, String, T),
    TraitImplementation(u32, String, T),
    Function(u32, String, T),
    AsyncFunction(u32, String, T),
    Primitive(u32, String, T),
    Variant(u32, String, T),
    UnaryContainer(u32, String, T),
    BinaryContainer(u32, String, T),
}

impl<T> Node<T> {
    pub open spec fn spec_id(&self) -> u32 {
        match self {
            Node::Struct(id, _, _) => *id,
            Node::Generic(id, _, _) => *id,
            Node::Enum(id, _, _) => *id,
            Node::InherentImplementation(id, _, _) => *id,
            Node::TraitImplementation(id, _, _) => *id,
            Node::Function(id, _, _) => *id,
            Node::AsyncFunction(id, _, _) => *id,
            Node::Primitive(id, _, _) => *id,
            Node::Variant(id, _, _) => *id,
            Node::UnaryContainer(id, _, _) => *id,
            Node::BinaryContainer(id, _, _) => *id,
        }
    }

    pub open spec fn class(&self) -> VertexClass {
        match self {
            Node::Struct(_, _, _) => VertexClass::Struct,
            Node::Generic(_, _, _) => VertexClass::Generic,
            Node::Enum(_, _, _) => VertexClass::Enum,
            Node::InherentImplementation(_, _, _) => VertexClass::InherentImplementation,
            Node::TraitImplementation(_, _, _) => VertexClass::TraitImplementation,
            Node::Function(_, _, _) => VertexClass::Function,
            Node::AsyncFunction(_, _, _) => VertexClass::AsyncFunction,
            Node::Primitive(_, _, _) => VertexClass::Primitive,
            Node::Variant(_, _, _) => VertexClass::Variant,
            Node::UnaryContainer(_, _, _) => VertexClass::UnaryContainer,
            Node::BinaryContainer(_, _, _) => VertexClass::BinaryContainer,
        }
    }

    pub open spec fn spec_name(&self) -> Seq<char> {
        match self {
            Node::Struct(_, s, _) => s@,
            Node::Generic(_, s, _) => s@,
            Node::Enum(_, s, _) => s@,
            Node::InherentImplementation(_, s, _) => s@,
            Node::TraitImplementation(_, s, _) => s@,
            Node::Function(_, s, _) => s@,
            Node::AsyncFunction(_, s, _) => s@,
            Node::Primitive(_, s, _) => s@,
            Node::Variant(_, s, _) => s@,
            Node::UnaryContainer(_, s, _) => s@,
            Node::BinaryContainer(_, s, _) => s@,
        }
    }

    pub open spec fn spec_payload(self) -> T {
        match self {
            Node::Struct(_, _, d) => d,
            Node::Generic(_, _, d) => d,
            Node::Enum(_, _, d) => d,
            Node::InherentImplementation(_, _, d) => d,
            Node::TraitImplementation(_, _, d) => d,
            Node::Function(_, _, d) => d,
            Node::AsyncFunction(_, _, d) => d,
            Node::Primitive(_, _, d) => d,
            Node::Variant(_, _, d) => d,
            Node::UnaryContainer(_, _, d) => d,
            Node::BinaryContainer(_, _, d) => d,
        }
    }

    /// The vertex identity this node carries.
    pub fn id(&self) -> (r: u32)
        ensures
            r == self.spec_id(),
    {
        match self {
            Node::Struct(id, _, _) => *id,
            Node::Generic(id, _, _) => *id,
            Node::Enum(id, _, _) => *id,
            Node::InherentImplementation(id, _, _) => *id,
            Node::TraitImplementation(id, _, _) => *id,
            Node::Function(id, _, _) => *id,
            Node::AsyncFunction(id, _, _) => *id,
            Node::Primitive(id, _, _) => *id,
            Node::Variant(id, _, _) => *id,
            Node::UnaryContainer(id, _, _) => *id,
            Node::BinaryContainer(id, _, _) => *id,
        }
    }

    /// Replaces the payload, handing the old one back: identity, class and
    /// name are kept.
    pub fn swap<U>(self, input: U) -> (r: (Node<U>, T))
        ensures
            r.0.spec_id() == self.spec_id(),
            r.0.class() == self.class(),
            r.0.spec_name() == self.spec_name(),
            r.0.spec_payload() == input,
            r.1 == self.spec_payload(),
    {
        match self {
            Node::Struct(id, s, d) => (Node::Struct(id, s, input), d),
            Node::Generic(id, s, d) => (Node::Generic(id, s, input), d),
            Node::Enum(id, s, d) => (Node::Enum(id, s, input), d),
            Node::InherentImplementation(id, s, d) => (
                Node::InherentImplementation(id, s, input),
                d,
            ),
            Node::TraitImplementation(id, s, d) => (Node::TraitImplementation(id, s, input), d),
            Node::Function(id, s, d) => (Node::Function(id, s, input), d),
            Node::AsyncFunction(id, s, d) => (Node::AsyncFunction(id, s, input), d),
            Node::Primitive(id, s, d) => (Node::Primitive(id, s, input), d),
            Node::Variant(id, s, d) => (Node::Variant(id, s, input), d),
            Node::UnaryContainer(id, s, d) => (Node::UnaryContainer(id, s, input), d),
            Node::BinaryContainer(id, s, d) => (Node::BinaryContainer(id, s, input), d),
        }
    }
}

/// The semantic kind of an arc, derived from its endpoint classes.
#[derive(Clone, Copy, PartialEq, Eq, Structural, Debug)]
pub enum EdgeKind {
    Property,
    Variant,
    Implementation,
    Function,
    AsyncFunction,
    Argument,
    Returns,
    Call,
    Contains,
    Generic,
    Unknown,
}

/// The classification table: ordered pattern match over the endpoint-class
/// pair, first rule wins, unmatched pairs degrade to Unknown.
pub open spec fn spec_edge_kind(a: VertexClass, b: VertexClass) -> EdgeKind {
    if (a is UnaryContainer || a is BinaryContainer) && (b is UnaryContainer
        || b is BinaryContainer || b is Struct || b is Enum || b is Primitive || b is Generic) {
        EdgeKind::Contains
    } else if a is Enum && b is Variant {
        EdgeKind::Variant
    } else if a is Function && b is Function {
        EdgeKind::Call
    } else if (a is Struct || a is Enum) && (b is InherentImplementation
        || b is TraitImplementation) {
        EdgeKind::Implementation
    } else if (a is TraitImplementation || a is InherentImplementation) && b is Function {
        EdgeKind::Function
    } else if (a is TraitImplementation || a is InherentImplementation) && b is AsyncFunction {
        EdgeKind::AsyncFunction
    } else if (a is Function || a is AsyncFunction) && (b is Struct || b is Enum || b is Primitive
        || b is UnaryContainer || b is BinaryContainer || b is Generic) {
        EdgeKind::Returns
    } else if (a is Variant || a is Struct || a is Enum) && (b is Struct || b is Enum
        || b is Primitive || b is UnaryContainer || b is BinaryContainer) {
        EdgeKind::Property
    } else if (a is Struct || a is Enum || a is Primitive || a is BinaryContainer
        || a is UnaryContainer || a is Generic) && (b is Function || b is AsyncFunction) {
        EdgeKind::Argument
    } else if a is Generic && (b is InherentImplementation || b is TraitImplementation) {
        EdgeKind::Generic
    } else if (a is Variant || a is Struct) && b is Generic {
        EdgeKind::Property
    } else {
        EdgeKind::Unknown
    }
}

impl EdgeKind {
    /// Classifies the relation between two endpoint nodes, by the ordered
    /// table of `spec_edge_kind`.
    pub fn implied<T>(a: &Node<T>, b: &Node<T>) -> (r: Self)
        ensures
            r == spec_edge_kind(a.class(), b.class()),
    {
        match (a, b) {
            (
                Node::UnaryContainer(..) | Node::BinaryContainer(..),
                Node::UnaryContainer(..)
                | Node::BinaryContainer(..)
                | Node::Struct(..)
                | Node::Enum(..)
                | Node::Primitive(..)
                | Node::Generic(..),
            ) => Self::Contains,
            (Node::Enum(..), Node::Variant(..)) => Self::Variant,
            (Node::Function(..), Node::Function(..)) => Self::Call,
            (
                Node::Struct(..) | Node::Enum(..),
                Node::InherentImplementation(..) | Node::TraitImplementation(..),
            ) => Self::Implementation,
            (
                Node::TraitImplementation(..) | Node::InherentImplementation(..),
                Node::Function(..),
            ) => Self::Function,
            (
                Node::TraitImplementation(..) | Node::InherentImplementation(..),
                Node::AsyncFunction(..),
            ) => Self::AsyncFunction,
            (
                Node::Function(..) | Node::AsyncFunction(..),
                Node::Struct(..)
                | Node::Enum(..)
                | Node::Primitive(..)
                | Node::UnaryContainer(..)
                | Node::BinaryContainer(..)
                | Node::Generic(..),
            ) => Self::Returns,
            (
                Node::Variant(..) | Node::Struct(..) | Node::Enum(..),
                Node::Struct(..)
                | Node::Enum(..)
                | Node::Primitive(..)
                | Node::UnaryContainer(..)
                | Node::BinaryContainer(..),
            ) => Self::Property,
            (
                Node::Struct(..)
                | Node::Enum(..)
                | Node::Primitive(..)
                | Node::BinaryContainer(..)
                | Node::UnaryContainer(..)
                | Node::Generic(..),
                Node::Function(..) | Node::AsyncFunction(..),
            ) => Self::Argument,
            (
                Node::Generic(..),
                Node::InherentImplementation(..) | Node::TraitImplementation(..),
            ) => Self::Generic,
            (Node::Variant(..) | Node::Struct(..), Node::Generic(..)) => Self::Property,
            _ => Self::Unknown,
        }
    }

    /// The arrowhead glyph this kind renders with.
    pub open spec fn spec_arrowhead(self) -> Seq<char> {
        match self {
            EdgeKind::Property => "dot"@,
            EdgeKind::Contains => "dot"@,
            EdgeKind::Variant => "obox"@,
            EdgeKind::Function => "odot"@,
            EdgeKind::AsyncFunction => "odot"@,
            EdgeKind::Implementation => "dot"@,
            EdgeKind::Argument => "normal"@,
            EdgeKind::Generic => "normal"@,
            EdgeKind::Returns => "vee"@,
            _ => "normal"@,
        }
    }

    pub fn arrowhead(&self) -> (r: &str)
        ensures
            r@ == self.spec_arrowhead(),
    {
        match self {
            Self::Property | Self::Contains => "dot",
            Self::Variant => "obox",
            Self::Function => "odot",
            Self::AsyncFunction => "odot",
            Self::Implementation => "dot",
            Self::Argument => "normal",
            Self::Generic => "normal",
            Self::Returns => "vee",
            _ => "normal",
        }
    }

    pub fn weight(&self) -> (r: u8)
        ensures
            r == 1,
    {
        1
    }

    pub fn penwidth(&self) -> (r: u8)
        ensures
            r == 1,
    {
        1
    }

    /// The line and label colour this kind renders with.
    pub open spec fn spec_color(self) -> Seq<char> {
        match self {
            EdgeKind::Returns => "#7aa2f7"@,
            EdgeKind::Implementation => "#9ece6a"@,
            EdgeKind::Function => "#e0af68"@,
            EdgeKind::AsyncFunction => "#ff9e64"@,
            EdgeKind::Property => "#7aa2f67"@,
            EdgeKind::Contains => "#7aa2f67"@,
            EdgeKind::Argument => "#e0af68"@,
            EdgeKind::Generic => "#bb9af7"@,
            EdgeKind::Variant => "#7dcfff"@,
            _ => "black"@,
        }
    }

    pub fn color(&self) -> (r: &str)
        ensures
            r@ == self.spec_color(),
    {
        match self {
            Self::Returns => "#7aa2f7",
            Self::Implementation => "#9ece6a",
            Self::Function => "#e0af68",
            Self::AsyncFunction => "#ff9e64",
            Self::Property => "#7aa2f67",
            Self::Contains => "#7aa2f67",
            Self::Argument => "#e0af68",
            Self::Generic => "#bb9af7",
            Self::Variant => "#7dcfff",
            _ => "black",
        }
    }
}

/// Rendering metadata of one vertex: display label, namespace path, and,
/// for the kinds that own slots, the (slot name, peer id) table.
#[derive(Debug, PartialEq)]
pub enum NodeKind {
    Struct(String, Vec<String>, Vec<(String, u32)>),
    Generic(String, Vec<String>, Vec<(String, u32)>),
    Enum(String, Vec<String>, Vec<(String, u32)>),
    Variant(String, Vec<String>, Vec<(String, u32)>),
    Implementation(String, Vec<String>),
    Function(String, Vec<String>, Vec<(String, u32)>),
    AsyncFunction(String, Vec<String>, Vec<(String, u32)>),
    Primitive(String, Vec<String>),
    UnaryContainer(String, Vec<String>),
    BinaryContainer(String, Vec<String>),
}

/// Mathematical image of vertex metadata.
pub struct NodeKindView {
    pub class: VertexClass,
    pub label: Seq<char>,
    pub cluster: Seq<Seq<char>>,
    pub slots: Seq<(Seq<char>, u32)>,
}

impl View for NodeKind {
    type V = NodeKindView;

    open spec fn view(&self) -> NodeKindView {
        match self {
            NodeKind::Struct(s, c, v) => NodeKindView {
                class: VertexClass::Struct,
                label: s@,
                cluster: c.deep_view(),
                slots: v.deep_view(),
            },
            NodeKind::Generic(s, c, v) => NodeKindView {
                class: VertexClass::Generic,
                label: s@,
                cluster: c.deep_view(),
                slots: v.deep_view(),
            },
            NodeKind::Enum(s, c, v) => NodeKindView {
                class: VertexClass::Enum,
                label: s@,
                cluster: c.deep_view(),
                slots: v.deep_view(),
            },
            NodeKind::Variant(s, c, v) => NodeKindView {
                class: VertexClass::Variant,
                label: s@,
                cluster: c.deep_view(),
                slots: v.deep_view(),
            },
            NodeKind::Implementation(s, c) => NodeKindView {
                class: VertexClass::InherentImplementation,
                label: s@,
                cluster: c.deep_view(),
                slots: Seq::empty(),
            },
            NodeKind::Function(s, c, v) => NodeKindView {
                class: VertexClass::Function,
                label: s@,
                cluster: c.deep_view(),
                slots: v.deep_view(),
            },
            NodeKind::AsyncFunction(s, c, v) => NodeKindView {
                class: VertexClass::AsyncFunction,
                label: s@,
                cluster: c.deep_view(),
                slots: v.deep_view(),
            },
            NodeKind::Primitive(s, c) => NodeKindView {
                class: VertexClass::Primitive,
                label: s@,
                cluster: c.deep_view(),
                slots: Seq::empty(),
            },
            NodeKind::UnaryContainer(s, c) => NodeKindView {
                class: VertexClass::UnaryContainer,
                label: s@,
                cluster: c.deep_view(),
                slots: Seq::empty(),
            },
            NodeKind::BinaryContainer(s, c) => NodeKindView {
                class: VertexClass::BinaryContainer,
                label: s@,
                cluster: c.deep_view(),
                slots: Seq::empty(),
            },
        }
    }
}

impl DeepView for NodeKind {
    type V = NodeKindView;

    open spec fn deep_view(&self) -> NodeKindView {
        self.view()
    }
}

impl NodeKind {
    /// The display label of the vertex.
    pub fn label(&self) -> (r: &str)
        ensures
            r@ == self@.label,
    {
        match self {
            Self::Struct(s, _, _) => s.as_str(),
            Self::Enum(s, _, _) => s.as_str(),
            Self::Generic(s, _, _) => s.as_str(),
            Self::Variant(s, _, _) => s.as_str(),
            Self::Implementation(s, _) => s.as_str(),
            Self::Function(s, _, _) => s.as_str(),
            Self::AsyncFunction(s, _, _) => s.as_str(),
            Self::Primitive(s, _) => s.as_str(),
            Self::UnaryContainer(s, _) => s.as_str(),
            Self::BinaryContainer(s, _) => s.as_str(),
        }
    }

    pub fn shape(&self) -> (r: &str)
        ensures
            r@ == class_shape(self@.class),
    {
        match self {
            Self::Struct(_, _, _) => "box3d",
            Self::Generic(_, _, _) => "diamond",
            Self::UnaryContainer(_, _) => "box3d",
            Self::BinaryContainer(_, _) => "box3d",
            Self::Enum(_, _, _) => "folder",
            Self::Variant(_, _, _) => "note",
            Self::Implementation(_, _) => "cylinder",
            Self::Function(_, _, _) => "ellipse",
            Self::AsyncFunction(_, _, _) => "ellipse",
            Self::Primitive(_, _) => "square",
        }
    }

    pub fn color(&self) -> (r: &str)
        ensures
            r@ == class_color(self@.class),
    {
        match self {
            Self::Struct(_, _, _) => "#7aa2f7",
            Self::Generic(_, _, _) => "#bb9af7",
            Self::UnaryContainer(_, _) => "#7aa2f7",
            Self::BinaryContainer(_, _) => "#7aa2f7",
            Self::Enum(_, _, _) => "#7dcfff",
            Self::Variant(_, _, _) => "#7dcfff",
            Self::Implementation(_, _) => "#9ece6a",
            Self::Function(_, _, _) => "#e0af68",
            Self::AsyncFunction(_, _, _) => "#ff9e64",
            Self::Primitive(_, _) => "#c0caf5",
        }
    }

    /// The namespace path this vertex clusters under.
    pub fn cluster(&self) -> (r: &Vec<String>)
        ensures
            r.deep_view() == self@.cluster,
    {
        match self {
            Self::Struct(_, c, _) => c,
            Self::Enum(_, c, _) => c,
            Self::Generic(_, c, _) => c,
            Self::Variant(_, c, _) => c,
            Self::Implementation(_, c) => c,
            Self::Function(_, c, _) => c,
            Self::AsyncFunction(_, c, _) => c,
            Self::Primitive(_, c) => c,
            Self::UnaryContainer(_, c) => c,
            Self::BinaryContainer(_, c) => c,
        }
    }
}

/// A summary of one entity as the descriptor layer reports it.
#[derive(Clone, Debug)]
pub enum Output {
    Struct { id: u32, name: String },
    Enum { id: u32, name: String },
    InherentImplementation { id: u32 },
    TraitImplementation { id: u32, trait_name: String },
    Method { id: u32, name: String },
}

impl Output {
    pub open spec fn spec_id(&self) -> u32 {
        match self {
            Output::InherentImplementation { id } => *id,
            Output::Enum { id, .. } => *id,
            Output::Struct { id, .. } => *id,
            Output::TraitImplementation { id, .. } => *id,
            Output::Method { id, .. } => *id,
        }
    }

    pub fn id(&self) -> (r: u32)
        ensures
            r == self.spec_id(),
    {
        match self {
            Self::InherentImplementation { id } => *id,
            Self::Enum { id, .. } => *id,
            Self::Struct { id, .. } => *id,
            Self::TraitImplementation { id, .. } => *id,
            Self::Method { id, .. } => *id,
        }
    }
}

/// The label text an arc of the given kind renders with; Property and
/// Argument arcs interpolate the looked-up slot name.
pub open spec fn spec_edge_label(kind: EdgeKind, meta: Seq<char>) -> Seq<char> {
    match kind {
        EdgeKind::Property => "field ("@ + meta + ")"@,
        EdgeKind::Variant => "variant"@,
        EdgeKind::Implementation => "impl"@,
        EdgeKind::Function => "fn"@,
        EdgeKind::AsyncFunction => "async fn"@,
        EdgeKind::Argument => "arg ("@ + meta + ")"@,
        EdgeKind::Returns => "returns"@,
        EdgeKind::Call => "calls"@,
        EdgeKind::Contains => "content"@,
        EdgeKind::Generic => "generic"@,
        EdgeKind::Unknown => "unknown"@,
    }
}

/// An arc between two vertices: semantic kind, the endpoint node ids, and
/// the endpoint positions in the vertex list.
#[derive(Clone, Copy, PartialEq, Eq, Structural, Debug)]
pub struct EdgeKindWithIxs<T> {
    pub kind: EdgeKind,
    pub from: u32,
    pub to: u32,
    pub from_ix: T,
    pub to_ix: T,
}

impl<T> EdgeKindWithIxs<T> {
    /// The rendered label of this arc, interpolating the given slot name.
    pub fn label(&self, meta: &str) -> (r: String)
        ensures
            r@ == spec_edge_label(self.kind, meta@),
    {
        match self.kind {
            EdgeKind::Property => {
                let mut s = "field (".to_owned();
                s.append(meta);
                s.append(")");
                s
            },
            EdgeKind::Variant => "variant".to_owned(),
            EdgeKind::Implementation => "impl".to_owned(),
            EdgeKind::Function => "fn".to_owned(),
            EdgeKind::AsyncFunction => "async fn".to_owned(),
            EdgeKind::Argument => {
                let mut s = "arg (".to_owned();
                s.append(meta);
                s.append(")");
                s
            },
            EdgeKind::Returns => "returns".to_owned(),
            EdgeKind::Call => "calls".to_owned(),
            EdgeKind::Contains => "content".to_owned(),
            EdgeKind::Generic => "generic".to_owned(),
            EdgeKind::Unknown => "unknown".to_owned(),
        }
    }
}

/// An arc still keyed by node ids alone, before the endpoint positions are
/// resolved.
#[derive(Clone, Copy, PartialEq, Eq, Structural, Debug)]
pub struct ConnectedEdgeKind {
    pub kind: EdgeKind,
    pub from: u32,
    pub to: u32,
}

impl ConnectedEdgeKind {
    /// The arc between two endpoint nodes, its kind derived from their
    /// classes.
    pub fn implied<T>(a: &Node<T>, b: &Node<T>) -> (r: Self)
        ensures
            r.kind == spec_edge_kind(a.class(), b.class()),
            r.from == a.spec_id(),
            r.to == b.spec_id(),
    {
        ConnectedEdgeKind { kind: EdgeKind::implied(a, b), from: a.id(), to: b.id() }
    }

    /// Resolves both endpoint ids to their positions through the id index.
    pub fn map<T: Copy>(self, ids: &std::collections::HashMap<u32, T>) -> (r: EdgeKindWithIxs<T>)
        requires
            ids@.contains_key(self.from),
            ids@.contains_key(self.to),
        ensures
            r.kind == self.kind,
            r.from == self.from,
            r.to == self.to,
            r.from_ix == ids@[self.from],
            r.to_ix == ids@[self.to],
    {
        broadcast use vstd::std_specs::hash::group_hash_axioms;

        let from_ix = *ids.get(&self.from).unwrap();
        let to_ix = *ids.get(&self.to).unwrap();
        EdgeKindWithIxs { kind: self.kind, from: self.from, to: self.to, from_ix, to_ix }
    }
}

/// Conversion into a value-level representation.
pub trait Value<T> {
    fn value(&self) -> T;
}

/// A container whose items can be handed out as a plain vector.
pub trait Vectorize<T> {
    /// The items this value holds, in order.
    spec fn spec_items(&self) -> Seq<T>;

    /// The items as a fresh vector.
    fn to_vec(&self) -> (r: Vec<T>)
        ensures
            r@ == self.spec_items(),
    ;

    /// Appends the items to the given vector.
    fn fill(&self, v: &mut Vec<T>)
        ensures
            final(v)@ == old(v)@ + self.spec_items(),
    ;
}

impl Vectorize<Edge> for ResolvedGraph {
    /// A resolved graph hands out its edge list.
    open spec fn spec_items(&self) -> Seq<Edge> {
        self@.edges
    }

    fn to_vec(&self) -> (r: Vec<Edge>)
        ensures
            r@ == self@.edges,
    {
        let mut r: Vec<Edge> = Vec::new();
        self.fill(&mut r);
        proof {
            assert(Seq::<Edge>::empty() + self@.edges =~= self@.edges);
        }
        r
    }

    fn fill(&self, v: &mut Vec<Edge>)
        ensures
            final(v)@ == old(v)@ + self@.edges,
    {
        let mut i: usize = 0;
        while i < self.edges.len()
            invariant
                i <= self.edges.len(),
                v@ == old(v)@ + self.edges@.take(i as int),
            decreases self.edges.len() - i,
        {
            v.push(self.edges[i]);
            proof {
                assert(old(v)@ + self.edges@.take(i as int + 1) =~= (old(v)@ + self.edges@.take(
                    i as int,
                )).push(self.edges@[i as int]));
            }
            i = i + 1;
        }
        proof {
            assert(self.edges@.take(self.edges@.len() as int) =~= self.edges@);
        }
    }
}

/// The metadata image of a node: its class keeps name, namespace path and,
/// where the class owns slots, the slot table.
pub open spec fn spec_metadata(n: NodeView) -> NodeKindView {
    NodeKindView {
        class: class_of_kind(n.kind),
        label: n.name,
        cluster: n.cluster,
        slots: match n.kind {
            NodeOutputKind::Implementation => Seq::empty(),
            NodeOutputKind::Primitive => Seq::empty(),
            NodeOutputKind::UnaryContainer => Seq::empty(),
            NodeOutputKind::BinaryContainer => Seq::empty(),
            _ => n.slots,
        },
    }
}

/// Builds the rendering metadata of one node.
pub fn node_metadata(n: &NodeOutput) -> (r: NodeKind)
    ensures
        r@ == spec_metadata(n@),
{
    match n.kind {
        NodeOutputKind::Struct => NodeKind::Struct(
            n.name.clone(),
            clone_strings(&n.cluster),
            clone_slots(&n.slots),
        ),
        NodeOutputKind::Generic => NodeKind::Generic(
            n.name.clone(),
            clone_strings(&n.cluster),
            clone_slots(&n.slots),
        ),
        NodeOutputKind::Enum => NodeKind::Enum(
            n.name.clone(),
            clone_strings(&n.cluster),
            clone_slots(&n.slots),
        ),
        NodeOutputKind::Variant => NodeKind::Variant(
            n.name.clone(),
            clone_strings(&n.cluster),
            clone_slots(&n.slots),
        ),
        NodeOutputKind::Implementation => NodeKind::Implementation(
            n.name.clone(),
            clone_strings(&n.cluster),
        ),
        NodeOutputKind::Function => NodeKind::Function(
            n.name.clone(),
            clone_strings(&n.cluster),
            clone_slots(&n.slots),
        ),
        NodeOutputKind::AsyncFunction => NodeKind::AsyncFunction(
            n.name.clone(),
            clone_strings(&n.cluster),
            clone_slots(&n.slots),
        ),
        NodeOutputKind::Primitive => NodeKind::Primitive(
            n.name.clone(),
            clone_strings(&n.cluster),
        ),
        NodeOutputKind::UnaryContainer => NodeKind::UnaryContainer(
            n.name.clone(),
            clone_strings(&n.cluster),
        ),
        NodeOutputKind::BinaryContainer => NodeKind::BinaryContainer(
            n.name.clone(),
            clone_strings(&n.cluster),
        ),
    }
}

/// Builds the full value node of one descriptor node: identity, name, and
/// rendering metadata, under the variant its kind maps to.
pub fn node_value(n: &NodeOutput) -> (r: Node<NodeKind>)
    ensures
        r.spec_id() == n.id,
        r.class() == class_of_kind(n.kind),
        r.spec_name() == n@.name,
        r.spec_payload()@ == spec_metadata(n@),
{
    let meta = node_metadata(n);
    match n.kind {
        NodeOutputKind::Struct => Node::Struct(n.id, n.name.clone(), meta),
        NodeOutputKind::Generic => Node::Generic(n.id, n.name.clone(), meta),
        NodeOutputKind::Enum => Node::Enum(n.id, n.name.clone(), meta),
        NodeOutputKind::Function => Node::Function(n.id, n.name.clone(), meta),
        NodeOutputKind::AsyncFunction => Node::AsyncFunction(n.id, n.name.clone(), meta),
        NodeOutputKind::Implementation => Node::InherentImplementation(
            n.id,
            n.name.clone(),
            meta,
        ),
        NodeOutputKind::Primitive => Node::Primitive(n.id, n.name.clone(), meta),
        NodeOutputKind::Variant => Node::Variant(n.id, n.name.clone(), meta),
        NodeOutputKind::UnaryContainer => Node::UnaryContainer(n.id, n.name.clone(), meta),
        NodeOutputKind::BinaryContainer => Node::BinaryContainer(n.id, n.name.clone(), meta),
    }
}

impl Value<NodeKind> for NodeOutput {
    /// The rendering metadata of this node.
    fn value(&self) -> NodeKind {
        node_metadata(self)
    }
}

impl Value<Node<NodeKind>> for NodeOutput {
    /// The full value node of this descriptor node.
    fn value(&self) -> Node<NodeKind> {
        node_value(self)
    }
}

/// The metadata of every node, in node order.
pub open spec fn spec_vertices(ns: Seq<NodeView>) -> Seq<NodeKindView> {
    ns.map_values(|n: NodeView| spec_metadata(n))
}

/// The position of the node carrying the given id; meaningful when the ids
/// are distinct and some node carries it.
pub open spec fn node_index_of(ns: Seq<NodeView>, id: u32) -> int {
    choose|i: int| 0 <= i < ns.len() && ns[i].id == id
}

/// The arc one edge materializes as: endpoints resolved to positions, kind
/// derived from the endpoint classes.
pub open spec fn spec_arc(ns: Seq<NodeView>, e: Edge) -> EdgeKindWithIxs<u32> {
    let a = ns[node_index_of(ns, e.from)];
    let b = ns[node_index_of(ns, e.to)];
    EdgeKindWithIxs {
        kind: spec_edge_kind(class_of_kind(a.kind), class_of_kind(b.kind)),
        from: e.from,
        to: e.to,
        from_ix: node_index_of(ns, e.from) as u32,
        to_ix: node_index_of(ns, e.to) as u32,
    }
}

/// The arcs of all edges whose endpoints both resolve, in edge order; an
/// edge naming an absent node id is dropped.
pub open spec fn spec_arcs(ns: Seq<NodeView>, es: Seq<Edge>) -> Seq<EdgeKindWithIxs<u32>>
    decreases es.len(),
{
    if es.len() == 0 {
        Seq::empty()
    } else {
        let pre = spec_arcs(ns, es.drop_last());
        let e = es.last();
        if seq_has_node_id(ns, e.from) && seq_has_node_id(ns, e.to) {
            pre.push(spec_arc(ns, e))
        } else {
            pre
        }
    }
}

/// The materialized value graph: per-vertex metadata and ids in node order,
/// classified arcs in edge order, and the id-to-position index.
#[derive(Debug, PartialEq)]
pub struct ValueGraph {
    pub vertices: Vec<NodeKind>,
    pub vertex_ids: Vec<u32>,
    pub arcs: Vec<EdgeKindWithIxs<u32>>,
    pub index: std::collections::HashMap<u32, u32>,
}

/// Converts a resolved graph into typed vertices and classified arcs.
/// Every node becomes one vertex at its node-order position; every edge
/// whose endpoints exist becomes one arc. Classification is advisory: it
/// feeds rendering only.
pub fn materialize(g: &ResolvedGraph) -> (r: ValueGraph)
    requires
        distinct_node_ids(g@.nodes),
        g@.nodes.len() <= u32::MAX,
    ensures
        r.vertices.deep_view() == spec_vertices(g@.nodes),
        r.vertex_ids@ == g@.nodes.map_values(|n: NodeView| n.id),
        forall|k: int|
            0 <= k < g@.nodes.len() ==> r.index@.contains_key(#[trigger] g@.nodes[k].id)
                && r.index@[g@.nodes[k].id] == k as u32,
        forall|id: u32| #[trigger] r.index@.contains_key(id) ==> seq_has_node_id(g@.nodes, id),
        r.arcs@ == spec_arcs(g@.nodes, g@.edges),
{
    broadcast use vstd::std_specs::hash::group_hash_axioms;

    let ghost ns = g@.nodes;
    let mut vertices: Vec<NodeKind> = Vec::new();
    let mut vertex_ids: Vec<u32> = Vec::new();
    let mut nodes_map: std::collections::HashMap<u32, Node<()>> =
        std::collections::HashMap::new();
    let mut index: std::collections::HashMap<u32, u32> = std::collections::HashMap::new();
    proof {
        assert(ns.take(0) =~= Seq::<NodeView>::empty());
        assert(vertices.deep_view() =~= spec_vertices(ns.take(0)));
        assert(vertex_ids@ =~= ns.take(0).map_values(|n: NodeView| n.id));
    }
    let mut i: usize = 0;
    while i < g.nodes.len()
        invariant
            i <= g.nodes.len(),
            ns == g@.nodes,
            distinct_node_ids(ns),
            ns.len() <= u32::MAX,
            vertices.deep_view() == spec_vertices(ns.take(i as int)),
            vertex_ids@ == ns.take(i as int).map_values(|n: NodeView| n.id),
            forall|k: int|
                0 <= k < i ==> index@.contains_key(#[trigger] ns[k].id) && index@[ns[k].id]
                    == k as u32,
            forall|id: u32| #[trigger]
                index@.contains_key(id) ==> seq_has_node_id(ns.take(i as int), id),
            forall|k: int|
                0 <= k < i ==> nodes_map@.contains_key(#[trigger] ns[k].id)
                    && nodes_map@[ns[k].id].spec_id() == ns[k].id && nodes_map@[ns[k].id].class()
                    == class_of_kind(ns[k].kind),
            forall|id: u32| #[trigger]
                nodes_map@.contains_key(id) ==> seq_has_node_id(ns.take(i as int), id),
        decreases g.nodes.len() - i,
    {
        proof {
            assert(ns[i as int] == g.nodes@[i as int]@);
        }
        let full = node_value(&g.nodes[i]);
        let id = full.id();
        let ghost vd0 = vertices.deep_view();
        let ghost v0 = vertices@;
        let (stripped, meta) = full.swap(());
        let ghost metag = meta;
        vertices.push(meta);
        vertex_ids.push(id);
        nodes_map.insert(id, stripped);
        index.insert(id, i as u32);
        proof {
            let pre = ns.take(i as int);
            let post = ns.take(i + 1);
            assert(post.drop_last() =~= pre);
            assert(post.last() == ns[i as int]);
            assert(metag@ == spec_metadata(ns[i as int]));
            assert(vd0.len() == v0.len());
            assert(vd0.len() == spec_vertices(pre).len());
            assert(v0.len() == i as int);
            assert(vertices@ == v0.push(metag));
            assert forall|k: int| 0 <= k < i + 1 implies vertices.deep_view()[k] == spec_vertices(
                post,
            )[k] by {
                if k < i {
                    assert(vertices@[k] == v0[k]);
                    assert(vd0[k] == spec_vertices(pre)[k]);
                    assert(spec_vertices(pre)[k] == spec_metadata(pre[k]));
                    assert(pre[k] == post[k]);
                } else {
                    assert(vertices@[k] == metag);
                }
            }
            assert(vertices.deep_view() =~= spec_vertices(post));
            assert(vertex_ids@ =~= post.map_values(|n: NodeView| n.id));
            assert(id == ns[i as int].id);
            assert forall|id2: u32| #[trigger] index@.contains_key(id2) implies seq_has_node_id(
                post,
                id2,
            ) by {
                if id2 == id {
                    assert(post[i as int].id == id2);
                } else {
                    let k = choose|k: int| 0 <= k < pre.len() && pre[k].id == id2;
                    assert(post[k].id == id2);
                }
            }
            assert forall|id2: u32| #[trigger] nodes_map@.contains_key(id2) implies
                seq_has_node_id(post, id2) by {
                if id2 == id {
                    assert(post[i as int].id == id2);
                } else {
                    let k = choose|k: int| 0 <= k < pre.len() && pre[k].id == id2;
                    assert(post[k].id == id2);
                }
            }
        }
        i = i + 1;
    }
    proof {
        assert(ns.take(ns.len() as int) =~= ns);
    }
    let mut arcs: Vec<EdgeKindWithIxs<u32>> = Vec::new();
    let ghost es = g@.edges;
    proof {
        assert(es.take(0) =~= Seq::<Edge>::empty());
    }
    let mut m: usize = 0;
    while m < g.edges.len()
        invariant
            m <= g.edges.len(),
            ns == g@.nodes,
            es == g@.edges,
            distinct_node_ids(ns),
            ns.len() <= u32::MAX,
            forall|k: int|
                0 <= k < ns.len() ==> index@.contains_key(#[trigger] ns[k].id) && index@[ns[k].id]
                    == k as u32,
            forall|id: u32| #[trigger] index@.contains_key(id) ==> seq_has_node_id(ns, id),
            forall|k: int|
                0 <= k < ns.len() ==> nodes_map@.contains_key(#[trigger] ns[k].id)
                    && nodes_map@[ns[k].id].spec_id() == ns[k].id && nodes_map@[ns[k].id].class()
                    == class_of_kind(ns[k].kind),
            forall|id: u32| #[trigger] nodes_map@.contains_key(id) ==> seq_has_node_id(ns, id),
            arcs@ == spec_arcs(ns, es.take(m as int)),
        decreases g.edges.len() - m,
    {
        let e = g.edges[m];
        proof {
            assert(es[m as int] == e);
            assert(es.take(m + 1).drop_last() =~= es.take(m as int));
            assert(es.take(m + 1).last() == e);
        }
        let from_found = nodes_map.contains_key(&e.from);
        let to_found = nodes_map.contains_key(&e.to);
        if from_found && to_found {
            let a = nodes_map.get(&e.from).unwrap();
            let b = nodes_map.get(&e.to).unwrap();
            let arc = ConnectedEdgeKind::implied(a, b).map(&index);
            proof {
                let ka = choose|k: int| 0 <= k < ns.len() && ns[k].id == e.from;
                let kb = choose|k: int| 0 <= k < ns.len() && ns[k].id == e.to;
                assert(nodes_map@[ns[ka].id].class() == class_of_kind(ns[ka].kind));
                assert(nodes_map@[ns[kb].id].class() == class_of_kind(ns[kb].kind));
                let ja = node_index_of(ns, e.from);
                let jb = node_index_of(ns, e.to);
                assert(0 <= ja < ns.len() && ns[ja].id == e.from);
                assert(0 <= jb < ns.len() && ns[jb].id == e.to);
                assert(ja == ka && jb == kb);
                assert(arc == spec_arc(ns, e));
            }
            arcs.push(arc);
            proof {
                assert(arcs@ =~= spec_arcs(ns, es.take(m + 1)));
            }
        } else {
            proof {
                if !from_found {
                    assert(!seq_has_node_id(ns, e.from)) by {
                        if seq_has_node_id(ns, e.from) {
                            let k = choose|k: int| 0 <= k < ns.len() && ns[k].id == e.from;
                            assert(nodes_map@.contains_key(ns[k].id));
                        }
                    }
                } else {
                    assert(!seq_has_node_id(ns, e.to)) by {
                        if seq_has_node_id(ns, e.to) {
                            let k = choose|k: int| 0 <= k < ns.len() && ns[k].id == e.to;
                            assert(nodes_map@.contains_key(ns[k].id));
                        }
                    }
                }
                assert(arcs@ == spec_arcs(ns, es.take(m + 1)));
            }
        }
        m = m + 1;
    }
    proof {
        assert(es.take(es.len() as int) =~= es);
    }
    ValueGraph { vertices, vertex_ids, arcs, index }
}

} // verus!
