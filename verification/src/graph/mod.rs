//! The knowledge graph: its nodes and edges, searches and statistics on
//! it, and a builder that reads code and documents into it.
pub mod edge;
pub mod graph_analyzer;
pub mod graph_builder;
pub mod graph_data;
pub mod node;
pub mod paths;
pub mod ranking;
pub mod related;

pub use edge::{EdgeType, GraphEdge};
pub use graph_data::{GraphData, GraphMetadata};
pub use node::{GraphNode, NodeType};
pub use graph_analyzer::{GraphAnalyzer, GraphStatistics};
pub use graph_builder::GraphBuilder;
