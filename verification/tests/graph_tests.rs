use cortexmind::graph::graph_analyzer::Ratio;
use cortexmind::graph::{
    EdgeType, GraphAnalyzer, GraphBuilder, GraphData, GraphEdge, GraphNode, NodeType,
};

fn node(id: &str, t: NodeType) -> GraphNode {
    GraphNode {
        id: id.to_string(),
        label: id.to_uppercase(),
        node_type: t,
        properties: serde_json::Value::Null,
    }
}

fn edge(s: &str, t: &str) -> GraphEdge {
    GraphEdge {
        id: format!("{}-{}", s, t),
        source: s.to_string(),
        target: t.to_string(),
        edge_type: EdgeType::RelatedTo,
        label: None,
        properties: None,
    }
}

/// a - b - c, a - c, c - d, and e on its own.
fn sample() -> GraphData {
    let mut g = GraphData::new();
    for id in ["a", "b", "c", "d", "e"] {
        g.add_node(node(id, NodeType::Concept));
    }
    g.add_edge(edge("a", "b"));
    g.add_edge(edge("b", "c"));
    g.add_edge(edge("a", "c"));
    g.add_edge(edge("c", "d"));
    g
}

#[test]
fn new_graph_is_empty() {
    let g = GraphData::new();
    assert!(g.nodes.is_empty());
    assert!(g.edges.is_empty());
    assert_eq!(g.metadata.node_count, 0);
    assert_eq!(g.metadata.version, "0.1.0");
}

#[test]
fn adding_updates_counts() {
    let g = sample();
    assert_eq!(g.metadata.node_count, 5);
    assert_eq!(g.metadata.edge_count, 4);
}

#[test]
fn lookups_and_degrees() {
    let g = sample();
    assert_eq!(g.find_node("c").unwrap().label, "C");
    assert!(g.find_node("z").is_none());
    assert_eq!(g.find_edges_by_source("a").len(), 2);
    assert_eq!(g.find_edges_by_target("c").len(), 2);
    assert_eq!(g.calculate_degree("c"), 3);
    assert_eq!(g.calculate_degree("e"), 0);
    let mut ns: Vec<String> = g.find_neighbors("c").iter().map(|n| n.id.clone()).collect();
    ns.sort();
    assert_eq!(ns, vec!["a", "b", "d"]);
}

#[test]
fn shortest_path_follows_edges_both_ways() {
    let g = sample();
    let p = g.find_shortest_path("a", "d").unwrap();
    assert_eq!(p, vec!["a", "c", "d"]);
    let p = g.find_shortest_path("d", "b").unwrap();
    assert_eq!(p, vec!["d", "c", "b"]);
    assert_eq!(g.find_shortest_path("a", "a").unwrap(), vec!["a"]);
    assert!(g.find_shortest_path("a", "e").is_none());
}

#[test]
fn greedy_cliques() {
    let g = sample();
    assert_eq!(g.find_cliques(3), vec![vec!["a", "b", "c"]]);
    assert_eq!(
        g.find_cliques(2),
        vec![vec!["a", "b", "c"], vec!["a", "c"], vec!["b", "c"], vec!["c", "d"]]
    );
}

#[test]
fn clearing_empties_the_graph() {
    let mut g = sample();
    g.clear();
    assert!(g.nodes.is_empty());
    assert!(g.edges.is_empty());
    assert_eq!(g.metadata.node_count, 0);
    assert_eq!(g.metadata.edge_count, 0);
}

#[test]
fn all_simple_paths_up_to_depth() {
    let a = GraphAnalyzer::new(sample());
    let mut paths = a.find_all_paths("a", "c", 5);
    paths.sort();
    assert_eq!(paths, vec![vec!["a", "b", "c"], vec!["a", "c"]]);
    let paths = a.find_all_paths("a", "c", 0);
    assert!(paths.is_empty());
}

#[test]
fn components_density_and_statistics() {
    let a = GraphAnalyzer::new(sample());
    let d = a.calculate_density();
    assert_eq!(d, Ratio { numerator: 4, denominator: 10 });
    let s = a.get_statistics();
    assert_eq!(s.node_count, 5);
    assert_eq!(s.edge_count, 4);
    assert_eq!(s.connected_components, 2);
    assert_eq!(s.max_degree, 3);
    assert_eq!(s.min_degree, 0);
    assert_eq!(s.node_types, vec![("concept".to_string(), 5)]);
    assert_eq!(s.edge_types, vec![("related_to".to_string(), 4)]);
}

#[test]
fn common_neighbours_and_subgraph() {
    let a = GraphAnalyzer::new(sample());
    assert_eq!(a.find_common_neighbors("a", "b"), vec!["c"]);
    let sub = a.extract_subgraph(&["a".to_string(), "b".to_string(), "d".to_string()]);
    assert_eq!(sub.nodes.len(), 3);
    assert_eq!(sub.edges.len(), 1);
    assert_eq!(sub.edges[0].source, "a");
    assert_eq!(sub.edges[0].target, "b");
}

#[test]
fn builder_links_labels() {
    let mut b = GraphBuilder::new();
    b.add_concept_node("Rust", "a language", serde_json::Value::Null);
    b.add_concept_node("Verus", "a verifier", serde_json::Value::Null);
    b.add_edge("Verus", "Rust", EdgeType::Uses, None);
    b.add_edge("Verus", "Missing", EdgeType::Uses, None);
    let g = b.build();
    assert_eq!(g.nodes.len(), 2);
    assert_eq!(g.edges.len(), 1);
    assert_eq!(g.edges[0].source, g.nodes[1].id);
    assert_eq!(g.edges[0].target, g.nodes[0].id);
}

#[test]
fn builder_reads_rust_code() {
    let mut b = GraphBuilder::new();
    b.analyze_code("use std::fmt;\npub fn main() {}\npub struct Point {}\n", "rust");
    let g = b.get_graph();
    let labels: Vec<&str> = g.nodes.iter().map(|n| n.label.as_str()).collect();
    assert!(labels.contains(&"main"));
    assert!(labels.contains(&"Point"));
    assert!(labels.contains(&"std.fmt"));
}

#[test]
fn edge_kind_names() {
    assert_eq!(EdgeType::RelatedTo.stat_name(), "related_to");
    assert_eq!(EdgeType::Other("x".to_string()).stat_name(), "x");
    assert_eq!(NodeType::Code.color(), NodeType::Code.color());
}

#[test]
fn shortest_path_prefers_fewer_steps() {
    let mut g = GraphData::new();
    for id in ["a", "b", "c", "d"] {
        g.add_node(node(id, NodeType::Concept));
    }
    g.add_edge(edge("a", "b"));
    g.add_edge(edge("b", "c"));
    g.add_edge(edge("c", "d"));
    g.add_edge(edge("d", "a"));
    assert_eq!(g.find_shortest_path("a", "d").unwrap(), vec!["a", "d"]);
    assert_eq!(g.find_shortest_path("a", "c").unwrap().len(), 3);
}

#[test]
fn jaccard_similarity_and_similar_nodes() {
    let a = GraphAnalyzer::new(sample());
    // a: {b, c}; b: {a, c}; shared {c}, either {a, b, c}.
    assert_eq!(a.calculate_similarity("a", "b"), Ratio { numerator: 1, denominator: 3 });
    assert_eq!(a.calculate_similarity("e", "e"), Ratio { numerator: 0, denominator: 0 });
    // d: {c}; c: {a, b, d}.
    let sims = a.find_similar_nodes("d", 10);
    let ids: Vec<&str> = sims.iter().map(|(id, _)| id.as_str()).collect();
    assert_eq!(ids, vec!["a", "b"]);
    assert_eq!(sims[0].1, Ratio { numerator: 1, denominator: 2 });
    assert_eq!(a.find_similar_nodes("d", 1).len(), 1);
}

#[test]
fn centrality_and_key_nodes() {
    let g = sample();
    let c = g.calculate_centrality();
    assert_eq!(c.len(), 5);
    assert_eq!(c[2], ("c".to_string(), Ratio { numerator: 3, denominator: 4 }));
    let a = GraphAnalyzer::new(g);
    let key = a.find_key_nodes(2);
    assert_eq!(key, vec![
        ("c".to_string(), Ratio { numerator: 3, denominator: 4 }),
        ("a".to_string(), Ratio { numerator: 2, denominator: 4 }),
    ]);
}

#[test]
fn default_edge_weights() {
    assert_eq!(EdgeType::Implements.default_weight_percent(), 90);
    assert_eq!(EdgeType::Other("x".to_string()).default_weight_percent(), 30);
}

#[test]
fn related_nodes_count_mentions() {
    let a = GraphAnalyzer::new(sample());
    let r = a.find_related_nodes("a", 10);
    assert_eq!(r, vec![("c".to_string(), 1), ("b".to_string(), 1), ("d".to_string(), 1)]);
    assert_eq!(a.find_related_nodes("a", 2).len(), 2);
    assert!(a.find_related_nodes("e", 5).is_empty());
}

#[test]
fn graph_times_are_utc_rfc3339() {
    let mut g = cortexmind::graph::GraphData::new();
    assert!(g.metadata.created_at.ends_with("+00:00"));
    assert_eq!(&g.metadata.created_at[10..11], "T");
    g.update_timestamp();
    assert!(g.metadata.updated_at.ends_with("+00:00"));
    assert!(g.metadata.updated_at.len() >= 25);
}

#[test]
fn javascript_nodes_carry_language_and_kind() {
    let mut b = GraphBuilder::new();
    b.analyze_code(
        "import React from 'react';\nclass App {}\nfunction render() {}\nconst load = async () => 1;",
        "javascript",
    );
    let g = b.get_graph();
    let got: Vec<(&str, &str, String)> = g
        .nodes
        .iter()
        .map(|n| (n.id.as_str(), n.label.as_str(), n.properties["type"].as_str().unwrap().to_string()))
        .collect();
    assert_eq!(
        got,
        vec![
            ("code_0", "App", "class".to_string()),
            ("code_1", "render", "function".to_string()),
            ("code_2", "load", "function".to_string()),
            ("code_3", "react", "module".to_string()),
        ]
    );
    assert!(g.nodes.iter().all(|n| n.properties["language"] == "typescript"));
    assert!(g.edges.is_empty());
}

#[test]
fn document_edges_start_at_the_document() {
    let mut b = GraphBuilder::new();
    b.analyze_document("hello world", "Doc");
    let g = b.get_graph();
    let nodes: Vec<(&str, &str)> = g.nodes.iter().map(|n| (n.id.as_str(), n.label.as_str())).collect();
    assert_eq!(nodes, vec![("doc_0", "Doc"), ("concept_1", "hello"), ("concept_3", "world")]);
    let edges: Vec<(&str, &str)> = g.edges.iter().map(|e| (e.source.as_str(), e.target.as_str())).collect();
    assert_eq!(edges, vec![("doc_0", "concept_1"), ("doc_0", "concept_3")]);
    assert_eq!((g.metadata.node_count, g.metadata.edge_count), (3, 2));
}

#[test]
fn bridge_nodes_are_articulation_points() {
    let mut g = GraphData::new();
    g.add_node(node("a", NodeType::Concept));
    g.add_node(node("b", NodeType::Concept));
    g.add_node(node("c", NodeType::Concept));
    g.add_edge(edge("a", "b"));
    g.add_edge(edge("b", "c"));
    assert_eq!(GraphAnalyzer::new(g).find_bridge_nodes(), vec!["b".to_string()]);
    // a - b - c, a - c, c - d, and e on its own: only c holds d on.
    assert_eq!(GraphAnalyzer::new(sample()).find_bridge_nodes(), vec!["c".to_string()]);
}

#[test]
fn all_paths_are_listed_once() {
    let a = GraphAnalyzer::new(sample());
    let paths = a.find_all_paths("a", "d", 5);
    let mut sorted = paths.clone();
    sorted.sort();
    sorted.dedup();
    assert_eq!(sorted.len(), paths.len());
    assert_eq!(paths.len(), 2);
    assert_eq!(a.find_all_paths("b", "b", 3), vec![vec!["b".to_string()]]);
}

#[test]
fn statistics_add_up() {
    let mut g = sample();
    g.add_node(node("f", NodeType::Other("tool".to_string())));
    let s = GraphAnalyzer::new(g).get_statistics();
    let node_total: usize = s.node_types.iter().map(|(_, n)| *n).sum();
    let edge_total: usize = s.edge_types.iter().map(|(_, n)| *n).sum();
    assert_eq!(node_total, 6 + 1);
    assert_eq!(edge_total, 4);
    assert!(s.min_degree <= s.max_degree);
    assert!(1 <= s.connected_components && s.connected_components <= 6);
    assert_eq!(s.connected_components, 3);
}

#[test]
fn node_kind_counts_split_by_other_kinds() {
    let mut g = sample();
    g.add_node(node("f", NodeType::Other("tool".to_string())));
    g.add_node(node("g", NodeType::Other("tool".to_string())));
    g.add_node(node("h", NodeType::Other("lib".to_string())));
    let nodes = g.nodes.len();
    let s = GraphAnalyzer::new(g).get_statistics();
    let plain: usize = s.node_types.iter().filter(|(k, _)| !k.starts_with("other::")).map(|(_, n)| *n).sum();
    assert_eq!(plain, nodes);
    let count = |key: &str| s.node_types.iter().find(|(k, _)| k == key).map(|(_, n)| *n);
    assert_eq!(count("other::tool"), Some(2));
    assert_eq!(count("other::lib"), Some(1));
    assert_eq!(count("other"), Some(3));
}
