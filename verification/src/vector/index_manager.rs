//! Documents waiting to be indexed, and how indexing stands.
use vstd::prelude::*;
use super::VectorDocument;

verus! {

/// How indexing stands.
#[derive(Debug, Clone, Copy, PartialEq, Eq, Structural)]
pub struct IndexStatus {
    pub total_documents: usize,
    pub indexed_documents: usize,
    pub pending_documents: usize,
    pub failed_documents: usize,
    pub last_index_time: Option<i64>,
    pub is_indexing: bool,
}

/// How indexing runs.
#[derive(Debug, Clone, Copy, PartialEq, Eq, Structural)]
pub struct IndexConfig {
    pub auto_index_enabled: bool,
    pub auto_index_interval_seconds: u64,
    pub batch_size: usize,
    pub max_retry_attempts: u32,
}

impl Default for IndexConfig {
    /// Automatic indexing every hour, batches of 100, three retries.
    fn default() -> (r: Self)
        ensures
            r == (IndexConfig {
                auto_index_enabled: true,
                auto_index_interval_seconds: 3600,
                batch_size: 100,
                max_retry_attempts: 3,
            }),
    {
        IndexConfig {
            auto_index_enabled: true,
            auto_index_interval_seconds: 3600,
            batch_size: 100,
            max_retry_attempts: 3,
        }
    }
}

/// A document waiting to be indexed.
pub struct IndexTask {
    pub id: String,
    pub document: VectorDocument,
    pub retry_count: u32,
}

/// Keeps the documents waiting to be indexed and the indexing status.
pub struct IndexManager {
    config: IndexConfig,
    status: IndexStatus,
    pending_tasks: Vec<IndexTask>,
    failed_tasks: Vec<IndexTask>,
}

impl IndexManager {
    /// The configuration.
    pub closed spec fn config(self) -> IndexConfig {
        self.config
    }

    /// The status.
    pub closed spec fn status(self) -> IndexStatus {
        self.status
    }

    /// The identifiers of the documents waiting, in order.
    pub closed spec fn pending(self) -> Seq<Seq<char>> {
        self.pending_tasks@.map_values(|t: IndexTask| t.id@)
    }

    /// A manager with nothing indexed or waiting.
    pub fn new(config: IndexConfig) -> (r: Self)
        ensures
            r.config() == config,
            r.status() == (IndexStatus {
                total_documents: 0,
                indexed_documents: 0,
                pending_documents: 0,
                failed_documents: 0,
                last_index_time: None,
                is_indexing: false,
            }),
            r.pending().len() == 0,
    {
        IndexManager {
            config,
            status: IndexStatus {
                total_documents: 0,
                indexed_documents: 0,
                pending_documents: 0,
                failed_documents: 0,
                last_index_time: None,
                is_indexing: false,
            },
            pending_tasks: Vec::new(),
            failed_tasks: Vec::new(),
        }
    }

    /// Queues a document for indexing: one more document in all and one
    /// more waiting.
    pub fn add_document(&mut self, document: VectorDocument)
        requires
            old(self).status().total_documents < usize::MAX,
            old(self).status().pending_documents < usize::MAX,
        ensures
            final(self).pending() == old(self).pending().push(document.id@),
            final(self).status() == (IndexStatus {
                total_documents: (old(self).status().total_documents + 1) as usize,
                pending_documents: (old(self).status().pending_documents + 1) as usize,
                ..old(self).status()
            }),
            final(self).config() == old(self).config(),
    {
        let task = IndexTask { id: document.id.clone(), document, retry_count: 0 };
        let ghost p0 = self.pending_tasks@;
        self.pending_tasks.push(task);
        assert(self.pending_tasks@.map_values(|t: IndexTask| t.id@) =~= p0.map_values(|t: IndexTask| t.id@).push(
            task.id@,
        ));
        self.status.total_documents = self.status.total_documents + 1;
        self.status.pending_documents = self.status.pending_documents + 1;
    }

    /// The status.
    pub fn get_status(&self) -> (r: IndexStatus)
        ensures
            r == self.status(),
    {
        self.status
    }
}

impl Default for IndexManager {
    fn default() -> (r: Self)
        ensures
            r.config() == (IndexConfig {
                auto_index_enabled: true,
                auto_index_interval_seconds: 3600,
                batch_size: 100,
                max_retry_attempts: 3,
            }),
            r.pending().len() == 0,
    {
        Self::new(IndexConfig::default())
    }
}

} // verus!
