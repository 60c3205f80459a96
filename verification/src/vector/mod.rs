//! The vector store: where it lies, the documents indexed in it and the
//! metadata of search results.
pub mod chromadb_client;
pub mod index_manager;
pub mod ollama_embeddings;
pub mod search_manager;

use vstd::prelude::*;

verus! {

/// Where the vector store lies.
#[derive(Debug, Clone)]
pub struct VectorConfig {
    pub db_path: String,
    pub collection_name: String,
}

/// Where a search result comes from.
#[derive(Debug, Clone)]
pub struct SearchResultMetadata {
    pub source: String,
    pub timestamp: i64,
    pub session_id: Option<String>,
    pub message_id: Option<String>,
    pub file_path: Option<String>,
}

/// A document to index.
#[derive(Debug, Clone)]
pub struct VectorDocument {
    pub id: String,
    pub text: String,
    pub metadata: serde_json::Value,
}

} // verus!
