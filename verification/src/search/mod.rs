//! Search: query analysis, indexed documents and how results are ranked
//! and merged.
pub mod keyword_index;
pub mod query_optimizer;
pub mod result_ranker;

use vstd::prelude::*;

verus! {

/// Which search found a result.
#[derive(Debug, Clone, Copy, PartialEq, Eq, Structural, Hash)]
pub enum ResultSource {
    Keyword,
    Semantic,
    Both,
}

/// How a result matched.
#[derive(Debug, Clone, Copy, PartialEq, Eq, Structural)]
pub enum ResultType {
    KeywordMatch,
    SemanticMatch,
    Hybrid,
}

/// Where a result comes from.
#[derive(Debug, Clone)]
pub struct SearchResultMetadata {
    pub source: String,
    pub timestamp: i64,
    pub session_id: Option<String>,
    pub message_id: Option<String>,
    pub file_path: Option<String>,
    pub content_length: usize,
}

} // verus!
