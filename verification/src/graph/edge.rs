//! Edges of the knowledge graph.
use vstd::prelude::*;
use crate::storage::copy_opt_string;
use crate::text::owned;

verus! {

/// An edge between two nodes, named by their identifiers. Edges are read
/// in both directions when the graph is searched.
#[derive(Debug, Clone)]
pub struct GraphEdge {
    pub id: String,
    pub source: String,
    pub target: String,
    pub edge_type: EdgeType,
    pub label: Option<String>,
    pub properties: Option<serde_json::Value>,
}

/// The kind of an edge.
#[derive(Debug, Clone)]
pub enum EdgeType {
    References,
    Implements,
    Extends,
    Uses,
    Defines,
    Contains,
    RelatedTo,
    Mentions,
    AuthorOf,
    BelongsTo,
    LocatedIn,
    Other(String),
}

/// The name under which graph statistics count an edge kind: the
/// snake-case name of the kind, or the text of an `Other` kind.
pub open spec fn edge_stat_name(t: EdgeType) -> Seq<char> {
    match t {
        EdgeType::References => "references"@,
        EdgeType::Implements => "implements"@,
        EdgeType::Extends => "extends"@,
        EdgeType::Uses => "uses"@,
        EdgeType::Defines => "defines"@,
        EdgeType::Contains => "contains"@,
        EdgeType::RelatedTo => "related_to"@,
        EdgeType::Mentions => "mentions"@,
        EdgeType::AuthorOf => "author_of"@,
        EdgeType::BelongsTo => "belongs_to"@,
        EdgeType::LocatedIn => "located_in"@,
        EdgeType::Other(s) => s@,
    }
}

/// The default weight of an edge kind, in hundredths.
pub open spec fn weight_percent(t: EdgeType) -> u8 {
    match t {
        EdgeType::References => 80,
        EdgeType::Implements => 90,
        EdgeType::Extends => 85,
        EdgeType::Uses => 70,
        EdgeType::Defines => 75,
        EdgeType::Contains => 60,
        EdgeType::RelatedTo => 50,
        EdgeType::Mentions => 40,
        EdgeType::AuthorOf => 80,
        EdgeType::BelongsTo => 60,
        EdgeType::LocatedIn => 50,
        EdgeType::Other(_) => 30,
    }
}

impl EdgeType {
    /// The name of this kind in graph statistics (see [`edge_type_name`]).
    pub fn stat_name(&self) -> (r: String)
        ensures
            r@ == edge_stat_name(*self),
    {
        match self {
            EdgeType::References => owned("references"),
            EdgeType::Implements => owned("implements"),
            EdgeType::Extends => owned("extends"),
            EdgeType::Uses => owned("uses"),
            EdgeType::Defines => owned("defines"),
            EdgeType::Contains => owned("contains"),
            EdgeType::RelatedTo => owned("related_to"),
            EdgeType::Mentions => owned("mentions"),
            EdgeType::AuthorOf => owned("author_of"),
            EdgeType::BelongsTo => owned("belongs_to"),
            EdgeType::LocatedIn => owned("located_in"),
            EdgeType::Other(s) => s.clone(),
        }
    }

    /// The default weight of this kind, in hundredths (see
    /// [`weight_percent`]).
    pub fn default_weight_percent(&self) -> (r: u8)
        ensures
            r == weight_percent(*self),
    {
        match self {
            EdgeType::References => 80,
            EdgeType::Implements => 90,
            EdgeType::Extends => 85,
            EdgeType::Uses => 70,
            EdgeType::Defines => 75,
            EdgeType::Contains => 60,
            EdgeType::RelatedTo => 50,
            EdgeType::Mentions => 40,
            EdgeType::AuthorOf => 80,
            EdgeType::BelongsTo => 60,
            EdgeType::LocatedIn => 50,
            EdgeType::Other(_) => 30,
        }
    }

    /// A copy of this kind.
    pub fn copy(&self) -> (r: EdgeType)
        ensures
            r == *self,
    {
        match self {
            EdgeType::References => EdgeType::References,
            EdgeType::Implements => EdgeType::Implements,
            EdgeType::Extends => EdgeType::Extends,
            EdgeType::Uses => EdgeType::Uses,
            EdgeType::Defines => EdgeType::Defines,
            EdgeType::Contains => EdgeType::Contains,
            EdgeType::RelatedTo => EdgeType::RelatedTo,
            EdgeType::Mentions => EdgeType::Mentions,
            EdgeType::AuthorOf => EdgeType::AuthorOf,
            EdgeType::BelongsTo => EdgeType::BelongsTo,
            EdgeType::LocatedIn => EdgeType::LocatedIn,
            EdgeType::Other(s) => EdgeType::Other(s.clone()),
        }
    }
}

impl Default for EdgeType {
    /// `Other("unknown")`.
    fn default() -> (r: Self)
        ensures
            r matches EdgeType::Other(s) && s@ == "unknown"@,
    {
        EdgeType::Other(owned("unknown"))
    }
}

impl GraphEdge {
    /// A copy of this edge.
    pub fn copy(&self) -> (r: GraphEdge)
        ensures
            r == *self,
    {
        GraphEdge {
            id: self.id.clone(),
            source: self.source.clone(),
            target: self.target.clone(),
            edge_type: self.edge_type.copy(),
            label: copy_opt_string(&self.label),
            properties: match &self.properties {
                Some(p) => Some(p.clone()),
                None => None,
            },
        }
    }
}

} // verus!
