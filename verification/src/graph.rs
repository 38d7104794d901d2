//! The typed graph model: nodes, edges, their closed kind enumerations, and
//! the ghost views that contracts speak about.

use vstd::prelude::*;

use crate::text::str_eq;

verus! {

/// Closed enumeration of node kinds: the three conceptual kinds plus the
/// algorithm-pipeline-specific kind.
#[derive(Clone, Copy, Debug, PartialEq, Eq, Structural)]
pub enum NodeKind {
    Concept,
    Entity,
    Scenario,
    AlgorithmStep,
}

/// Closed enumeration of edge kinds: causal (Influences, DependsOn), spatial
/// (Adjacent, Contains), and a generic association.
#[derive(Clone, Copy, Debug, PartialEq, Eq, Structural)]
pub enum EdgeKind {
    Influences,
    DependsOn,
    Adjacent,
    Contains,
    Relates,
}

/// One key/value string pair attached to a node; keys may repeat.
#[derive(Clone, Debug, PartialEq, Eq)]
pub struct Property {
    pub key: String,
    pub value: String,
}

/// A graph node: an id (unique within a graph by convention, not enforced
/// structurally), a display label, a kind, and an ordered property list.
#[derive(Clone, Debug, PartialEq, Eq)]
pub struct Node {
    pub id: String,
    pub label: String,
    pub kind: NodeKind,
    pub properties: Vec<Property>,
}

/// A directed edge between node ids; the ids are not guaranteed to resolve to
/// nodes of the same graph (dangling references are surfaced downstream as
/// warnings, never rejected).
#[derive(Clone, Debug, PartialEq, Eq)]
pub struct Edge {
    pub source_id: String,
    pub target_id: String,
    pub kind: EdgeKind,
}

/// An ordered sequence of nodes and an ordered sequence of edges.
#[derive(Clone, Debug, PartialEq, Eq)]
pub struct Graph {
    pub nodes: Vec<Node>,
    pub edges: Vec<Edge>,
}

/// Ghost view of a node.
pub struct NodeModel {
    pub id: Seq<char>,
    pub label: Seq<char>,
    pub kind: NodeKind,
    pub properties: Seq<(Seq<char>, Seq<char>)>,
}

/// Ghost view of an edge.
pub struct EdgeModel {
    pub source_id: Seq<char>,
    pub target_id: Seq<char>,
    pub kind: EdgeKind,
}

/// Ghost view of a graph.
pub struct GraphModel {
    pub nodes: Seq<NodeModel>,
    pub edges: Seq<EdgeModel>,
}

impl View for Property {
    type V = (Seq<char>, Seq<char>);

    open spec fn view(&self) -> (Seq<char>, Seq<char>) {
        (self.key@, self.value@)
    }
}

impl View for Node {
    type V = NodeModel;

    open spec fn view(&self) -> NodeModel {
        NodeModel {
            id: self.id@,
            label: self.label@,
            kind: self.kind,
            properties: Seq::new(self.properties@.len(), |i: int| self.properties@[i]@),
        }
    }
}

impl View for Edge {
    type V = EdgeModel;

    open spec fn view(&self) -> EdgeModel {
        EdgeModel { source_id: self.source_id@, target_id: self.target_id@, kind: self.kind }
    }
}

impl View for Graph {
    type V = GraphModel;

    open spec fn view(&self) -> GraphModel {
        GraphModel {
            nodes: Seq::new(self.nodes@.len(), |i: int| self.nodes@[i]@),
            edges: Seq::new(self.edges@.len(), |i: int| self.edges@[i]@),
        }
    }
}

/// The wire name of a node kind.
pub open spec fn node_kind_name(k: NodeKind) -> Seq<char> {
    match k {
        NodeKind::Concept => "CONCEPT"@,
        NodeKind::Entity => "ENTITY"@,
        NodeKind::Scenario => "SCENARIO"@,
        NodeKind::AlgorithmStep => "ALGORITHM_STEP"@,
    }
}

/// The node kind a wire name denotes, if any.
pub open spec fn node_kind_of_name(s: Seq<char>) -> Option<NodeKind> {
    if s == "CONCEPT"@ {
        Some(NodeKind::Concept)
    } else if s == "ENTITY"@ {
        Some(NodeKind::Entity)
    } else if s == "SCENARIO"@ {
        Some(NodeKind::Scenario)
    } else if s == "ALGORITHM_STEP"@ {
        Some(NodeKind::AlgorithmStep)
    } else {
        None
    }
}

/// The wire name of an edge kind.
pub open spec fn edge_kind_name(k: EdgeKind) -> Seq<char> {
    match k {
        EdgeKind::Influences => "INFLUENCES"@,
        EdgeKind::DependsOn => "DEPENDS_ON"@,
        EdgeKind::Adjacent => "ADJACENT"@,
        EdgeKind::Contains => "CONTAINS"@,
        EdgeKind::Relates => "RELATES"@,
    }
}

/// The edge kind a wire name denotes, if any.
pub open spec fn edge_kind_of_name(s: Seq<char>) -> Option<EdgeKind> {
    if s == "INFLUENCES"@ {
        Some(EdgeKind::Influences)
    } else if s == "DEPENDS_ON"@ {
        Some(EdgeKind::DependsOn)
    } else if s == "ADJACENT"@ {
        Some(EdgeKind::Adjacent)
    } else if s == "CONTAINS"@ {
        Some(EdgeKind::Contains)
    } else if s == "RELATES"@ {
        Some(EdgeKind::Relates)
    } else {
        None
    }
}

/// Parse a wire name into a node kind.
pub fn parse_node_kind(s: &str) -> (r: Option<NodeKind>)
    ensures
        r == node_kind_of_name(s@),
{
    if str_eq(s, "CONCEPT") {
        Some(NodeKind::Concept)
    } else if str_eq(s, "ENTITY") {
        Some(NodeKind::Entity)
    } else if str_eq(s, "SCENARIO") {
        Some(NodeKind::Scenario)
    } else if str_eq(s, "ALGORITHM_STEP") {
        Some(NodeKind::AlgorithmStep)
    } else {
        None
    }
}

/// Parse a wire name into an edge kind.
pub fn parse_edge_kind(s: &str) -> (r: Option<EdgeKind>)
    ensures
        r == edge_kind_of_name(s@),
{
    if str_eq(s, "INFLUENCES") {
        Some(EdgeKind::Influences)
    } else if str_eq(s, "DEPENDS_ON") {
        Some(EdgeKind::DependsOn)
    } else if str_eq(s, "ADJACENT") {
        Some(EdgeKind::Adjacent)
    } else if str_eq(s, "CONTAINS") {
        Some(EdgeKind::Contains)
    } else if str_eq(s, "RELATES") {
        Some(EdgeKind::Relates)
    } else {
        None
    }
}

} // verus!
