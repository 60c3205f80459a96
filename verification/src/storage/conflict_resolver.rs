//! Detection and settlement of conflicts between local and remote files.
use vstd::prelude::*;
use super::{opt_text, ConflictResolutionStrategy, FileInfo};
use crate::runtime::{new_id, now_timestamp};
use crate::text::{owned, str_eq};

verus! {

/// A conflict between the local and the remote copy of a file.
#[derive(Debug, Clone)]
pub struct ConflictInfo {
    pub id: String,
    pub file_path: String,
    pub local_file: Option<FileInfo>,
    pub remote_file: Option<FileInfo>,
    pub conflict_type: ConflictType,
    pub detected_at: i64,
    pub resolution: Option<ConflictResolution>,
    pub status: ConflictStatus,
}

/// What kind of conflict two copies are in.
#[derive(Debug, Clone, Copy, PartialEq, Eq, Structural)]
pub enum ConflictType {
    BothModified,
    VersionConflict,
    ChecksumMismatch,
    ContentMismatch,
}

/// Where the settlement of a conflict stands.
#[derive(Debug, Clone, Copy, PartialEq, Eq, Structural)]
pub enum ConflictStatus {
    Pending,
    Resolved,
    Ignored,
    Failed,
}

/// How a conflict was settled.
#[derive(Debug, Clone)]
pub struct ConflictResolution {
    pub strategy: ConflictResolutionStrategy,
    pub resolved_at: i64,
    pub resolved_by: String,
    pub notes: Option<String>,
}

/// The conflict between two copies of a file, if any: differing
/// checksums, where both are known, are a checksum mismatch; otherwise
/// copies modified at the same time whose checksums differ (one of them
/// possibly unknown) are a content mismatch.
pub open spec fn file_conflict(local: FileInfo, remote: FileInfo) -> Option<ConflictType> {
    if local.checksum is Some && remote.checksum is Some && local.checksum->0@
        != remote.checksum->0@ {
        Some(ConflictType::ChecksumMismatch)
    } else if local.modified_at == remote.modified_at && opt_text(local.checksum) != opt_text(
        remote.checksum,
    ) {
        Some(ConflictType::ContentMismatch)
    } else {
        None
    }
}

/// Checksums decide whenever both copies have one: different checksums
/// are a checksum mismatch whatever the modification times, equal ones no
/// conflict at all. Two copies without checksums never conflict. A
/// content mismatch needs equal modification times and exactly one known
/// checksum, and which copy is local does not matter.
pub proof fn law_checksums_decide(local: FileInfo, remote: FileInfo)
    ensures
        local.checksum matches Some(a) && remote.checksum matches Some(b) && a@ != b@ ==> file_conflict(
            local,
            remote,
        ) == Some(ConflictType::ChecksumMismatch),
        local.checksum matches Some(a) && remote.checksum matches Some(b) && a@ == b@ ==> file_conflict(
            local,
            remote,
        ) is None,
        local.checksum is None && remote.checksum is None ==> file_conflict(local, remote) is None,
        file_conflict(local, remote) == Some(ConflictType::ContentMismatch) ==> local.modified_at
            == remote.modified_at && (local.checksum is Some != remote.checksum is Some),
        local.modified_at != remote.modified_at && file_conflict(local, remote) is Some ==> file_conflict(
            local,
            remote,
        ) == Some(ConflictType::ChecksumMismatch),
        file_conflict(local, remote) == file_conflict(remote, local),
{
}

/// Detects and settles sync conflicts.
pub struct ConflictResolver;

impl ConflictResolver {
    pub fn new() -> (r: Self) {
        ConflictResolver
    }

    /// The conflict between the two copies of the file at `file_path`,
    /// when both exist and [`file_conflict`] finds one. The conflict is
    /// pending, unresolved, carries copies of both descriptions and a
    /// fresh identifier.
    pub fn detect_conflict(
        &self,
        file_path: &str,
        local_file: &Option<FileInfo>,
        remote_file: &Option<FileInfo>,
    ) -> (r: Option<ConflictInfo>)
        ensures
            r is Some <==> (local_file is Some && remote_file is Some && file_conflict(
                local_file->0,
                remote_file->0,
            ) is Some),
            r matches Some(c) ==> {
                &&& c.file_path@ == file_path@
                &&& c.local_file == *local_file
                &&& c.remote_file == *remote_file
                &&& c.conflict_type == file_conflict(local_file->0, remote_file->0)->0
                &&& c.resolution is None
                &&& c.status == ConflictStatus::Pending
                &&& c.id@.len() == 36
            },
    {
        match (local_file, remote_file) {
            (Some(local), Some(remote)) => {
                if let Some(conflict_type) = self.compare_files(local, remote) {
                    let conflict = ConflictInfo {
                        id: new_id(),
                        file_path: owned(file_path),
                        local_file: Some(local.copy()),
                        remote_file: Some(remote.copy()),
                        conflict_type,
                        detected_at: now_timestamp(),
                        resolution: None,
                        status: ConflictStatus::Pending,
                    };
                    return Some(conflict);
                }
                None
            },
            _ => None,
        }
    }

    /// The conflict between two copies (see [`file_conflict`]).
    pub fn compare_files(&self, local: &FileInfo, remote: &FileInfo) -> (r: Option<ConflictType>)
        ensures
            r == file_conflict(*local, *remote),
    {
        if let (Some(local_checksum), Some(remote_checksum)) = (&local.checksum, &remote.checksum) {
            if !str_eq(local_checksum.as_str(), remote_checksum.as_str()) {
                return Some(ConflictType::ChecksumMismatch);
            }
        }
        if local.modified_at == remote.modified_at {
            let same = match (&local.checksum, &remote.checksum) {
                (Some(a), Some(b)) => str_eq(a.as_str(), b.as_str()),
                (None, None) => true,
                _ => false,
            };
            if !same {
                return Some(ConflictType::ContentMismatch);
            }
        }
        None
    }

    /// Settles a conflict automatically: keep the newer copy, settled by
    /// "auto" at the current time, without notes.
    pub fn resolve_conflict_auto(&self, conflict_id: String) -> (r: Result<ConflictResolution, String>)
        ensures
            r matches Ok(res) && res.strategy == ConflictResolutionStrategy::KeepNewer
                && res.resolved_by@ == "auto"@ && res.notes is None,
    {
        let resolution = ConflictResolution {
            strategy: ConflictResolutionStrategy::KeepNewer,
            resolved_at: now_timestamp(),
            resolved_by: owned("auto"),
            notes: None,
        };
        Ok(resolution)
    }

    /// Settles a conflict by hand with the given strategy, settled by
    /// "manual" at the current time; the notes given are not kept.
    pub fn resolve_conflict_manual(
        &self,
        conflict_id: String,
        strategy: ConflictResolutionStrategy,
        notes: Option<String>,
    ) -> (r: Result<ConflictResolution, String>)
        ensures
            r matches Ok(res) && res.strategy == strategy && res.resolved_by@ == "manual"@
                && res.notes is None,
    {
        let resolution = ConflictResolution {
            strategy,
            resolved_at: now_timestamp(),
            resolved_by: owned("manual"),
            notes: None,
        };
        Ok(resolution)
    }
}

/// Whether two copies conflict does not depend on which is local.
pub proof fn law_conflict_symmetric(a: FileInfo, b: FileInfo)
    ensures
        file_conflict(a, b) == file_conflict(b, a),
{
}

/// A copy never conflicts with itself.
pub proof fn law_no_self_conflict(a: FileInfo)
    ensures
        file_conflict(a, a) is None,
{
}

impl Default for ConflictResolver {
    fn default() -> (r: Self) {
        Self::new()
    }
}

} // verus!
