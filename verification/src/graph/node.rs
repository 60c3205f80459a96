//! Nodes of the knowledge graph.
use vstd::prelude::*;
use crate::text::owned;

verus! {

/// A node: an identifier, a display label, a kind and free-form JSON
/// properties.
#[derive(Debug, Clone)]
pub struct GraphNode {
    pub id: String,
    pub label: String,
    pub node_type: NodeType,
    pub properties: serde_json::Value,
}

/// The kind of a node.
#[derive(Debug, Clone)]
pub enum NodeType {
    Code,
    Document,
    Concept,
    Person,
    Organization,
    Location,
    Event,
    Other(String),
}

/// The display colour of each kind of node.
pub open spec fn node_color(t: NodeType) -> Seq<char> {
    match t {
        NodeType::Code => "#4F46E5"@,
        NodeType::Document => "#10B981"@,
        NodeType::Concept => "#F59E0B"@,
        NodeType::Person => "#EF4444"@,
        NodeType::Organization => "#8B5CF6"@,
        NodeType::Location => "#06B6D4"@,
        NodeType::Event => "#EC4899"@,
        NodeType::Other(_) => "#6B7280"@,
    }
}

impl NodeType {
    /// The display colour of this kind, as a `#RRGGBB` string.
    pub fn color(&self) -> (r: String)
        ensures
            r@ == node_color(*self),
    {
        match self {
            NodeType::Code => owned("#4F46E5"),
            NodeType::Document => owned("#10B981"),
            NodeType::Concept => owned("#F59E0B"),
            NodeType::Person => owned("#EF4444"),
            NodeType::Organization => owned("#8B5CF6"),
            NodeType::Location => owned("#06B6D4"),
            NodeType::Event => owned("#EC4899"),
            NodeType::Other(_) => owned("#6B7280"),
        }
    }

    /// A copy of this kind.
    pub fn copy(&self) -> (r: NodeType)
        ensures
            r == *self,
    {
        match self {
            NodeType::Code => NodeType::Code,
            NodeType::Document => NodeType::Document,
            NodeType::Concept => NodeType::Concept,
            NodeType::Person => NodeType::Person,
            NodeType::Organization => NodeType::Organization,
            NodeType::Location => NodeType::Location,
            NodeType::Event => NodeType::Event,
            NodeType::Other(s) => NodeType::Other(s.clone()),
        }
    }
}

impl Default for NodeType {
    /// `Other("unknown")`.
    fn default() -> (r: Self)
        ensures
            r matches NodeType::Other(s) && s@ == "unknown"@,
    {
        NodeType::Other(owned("unknown"))
    }
}

impl GraphNode {
    /// A copy of this node.
    pub fn copy(&self) -> (r: GraphNode)
        ensures
            r == *self,
    {
        GraphNode {
            id: self.id.clone(),
            label: self.label.clone(),
            node_type: self.node_type.copy(),
            properties: self.properties.clone(),
        }
    }
}

} // verus!
