//! Cloud backup: sync status, configuration, file descriptions, conflict
//! detection and the schedule of periodic syncs.
pub mod conflict_resolver;
pub mod s3_sync;
pub mod sync_scheduler;
pub mod webdav_sync;

pub use conflict_resolver::ConflictResolver;
pub use s3_sync::S3Sync;
pub use sync_scheduler::SyncScheduler;
pub use webdav_sync::WebDAVSync;

use vstd::prelude::*;

verus! {

/// Where the knowledge files lie.
#[derive(Debug, Clone)]
pub struct StorageConfig {
    pub base_path: String,
    pub projects_path: String,
    pub agents_path: String,
    pub timeline_path: String,
}

/// The state of a sync run.
#[derive(Debug, Clone, Copy, PartialEq, Eq, Structural)]
pub enum SyncState {
    Pending,
    Running,
    Completed,
    Failed,
    Cancelled,
}

/// The record of one sync run.
#[derive(Debug, Clone)]
pub struct SyncStatus {
    pub sync_id: String,
    pub sync_type: String,
    pub status: SyncState,
    pub total_files: usize,
    pub uploaded_files: usize,
    pub failed_files: usize,
    pub started_at: i64,
    pub completed_at: Option<i64>,
    pub error_message: Option<String>,
}

/// How a conflict between a local and a remote file is settled.
#[derive(Debug, Clone, Copy, PartialEq, Eq, Structural)]
pub enum ConflictResolutionStrategy {
    /// Keep the local version.
    KeepLocal,
    /// Keep the remote version.
    KeepRemote,
    /// Keep the newer version.
    KeepNewer,
    /// Settle it by hand.
    Manual,
}

/// How syncing is set up.
#[derive(Debug, Clone)]
pub struct SyncConfig {
    pub sync_type: String,
    pub auto_sync_enabled: bool,
    pub sync_interval_minutes: u64,
    pub conflict_resolution: ConflictResolutionStrategy,
}

/// A file as seen by the sync code.
#[derive(Debug, Clone)]
pub struct FileInfo {
    pub path: String,
    pub size: u64,
    pub modified_at: i64,
    pub checksum: Option<String>,
}

/// The text of an optional string.
pub open spec fn opt_text(o: Option<String>) -> Option<Seq<char>> {
    match o {
        Some(s) => Some(s@),
        None => None,
    }
}

/// A copy of an optional string.
pub fn copy_opt_string(o: &Option<String>) -> (r: Option<String>)
    ensures
        r == *o,
{
    match o {
        Some(s) => Some(s.clone()),
        None => None,
    }
}

impl FileInfo {
    /// A copy of this description.
    pub fn copy(&self) -> (r: FileInfo)
        ensures
            r == *self,
    {
        FileInfo {
            path: self.path.clone(),
            size: self.size,
            modified_at: self.modified_at,
            checksum: copy_opt_string(&self.checksum),
        }
    }
}

} // verus!
