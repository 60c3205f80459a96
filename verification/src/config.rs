//! The application's configuration and its defaults.
use vstd::prelude::*;
use crate::agents::AgentConfig;
use crate::text::owned;

verus! {

/// The whole configuration.
#[derive(Debug, Clone)]
pub struct AppConfig {
    pub version: String,
    pub models: ModelConfig,
    pub vector_db: VectorDbConfig,
    pub storage: StorageConfig,
    pub agents: Vec<AgentConfig>,
}

/// The models used for each job.
#[derive(Debug, Clone)]
pub struct ModelConfig {
    pub embedding: ProviderConfig,
    pub rerank: ProviderConfig,
    pub reasoning: ProviderConfig,
    pub image: ProviderConfig,
}

/// Where a model is served.
#[derive(Debug, Clone)]
pub struct ProviderConfig {
    pub provider: String,
    pub model: String,
    pub api_key: String,
    pub base_url: String,
}

/// The vector database.
#[derive(Debug, Clone)]
pub struct VectorDbConfig {
    pub db_type: String,
    pub path: String,
    pub collection_name: String,
}

/// Where knowledge is stored.
#[derive(Debug, Clone)]
pub struct StorageConfig {
    pub base_path: String,
    pub auto_sync: bool,
    pub sync_interval: u64,
}

/// A provider is served by Ollama with the given model and address and
/// no key.
pub open spec fn ollama_provider(p: ProviderConfig, model: Seq<char>, url: Seq<char>) -> bool {
    p.provider@ == "ollama"@ && p.model@ == model && p.api_key@.len() == 0 && p.base_url@ == url
}

impl Default for AppConfig {
    /// Version 1.0.0; every model served by the local Ollama (embedding
    /// `nomic-embed-text`, reranking `bge-reranker-v2`, reasoning
    /// `llama3.2` at port 114114, images `llava`); ChromaDB under
    /// `./data/chromadb` with collection `cortexmind`; knowledge under
    /// `./knowledge`, synced every 300 seconds; no agents.
    fn default() -> (r: Self)
        ensures
            r.version@ == "1.0.0"@,
            ollama_provider(r.models.embedding, "nomic-embed-text"@, "http://localhost:11434"@),
            ollama_provider(r.models.rerank, "bge-reranker-v2"@, "http://localhost:11434"@),
            ollama_provider(r.models.reasoning, "llama3.2"@, "http://localhost:114114"@),
            ollama_provider(r.models.image, "llava"@, "http://localhost:11434"@),
            r.vector_db.db_type@ == "chromadb"@,
            r.vector_db.path@ == "./data/chromadb"@,
            r.vector_db.collection_name@ == "cortexmind"@,
            r.storage.base_path@ == "./knowledge"@,
            r.storage.auto_sync,
            r.storage.sync_interval == 300,
            r.agents@.len() == 0,
    {
        AppConfig {
            version: owned("1.0.0"),
            models: ModelConfig {
            embedding: ProviderConfig {
                provider: owned("ollama"),
                model: owned("nomic-embed-text"),
                api_key: String::new(),
                base_url: owned("http://localhost:11434"),
            },
            rerank: ProviderConfig {
                provider: owned("ollama"),
                model: owned("bge-reranker-v2"),
                api_key: String::new(),
                base_url: owned("http://localhost:11434"),
            },
            reasoning: ProviderConfig {
                provider: owned("ollama"),
                model: owned("llama3.2"),
                api_key: String::new(),
                base_url: owned("http://localhost:114114"),
            },
            image: ProviderConfig {
                provider: owned("ollama"),
                model: owned("llava"),
                api_key: String::new(),
                base_url: owned("http://localhost:11434"),
            },
            },
            vector_db: VectorDbConfig {
                db_type: owned("chromadb"),
                path: owned("./data/chromadb"),
                collection_name: owned("cortexmind"),
            },
            storage: StorageConfig {
                base_path: owned("./knowledge"),
                auto_sync: true,
                sync_interval: 300,
            },
            agents: Vec::new(),
        }
    }
}

} // verus!
