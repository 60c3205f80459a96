//! Backup to S3-compatible object storage.
use vstd::prelude::*;
use super::{FileInfo, SyncStatus};
use crate::text::owned;

verus! {

/// Connection settings of an S3 bucket.
#[derive(Debug, Clone)]
pub struct S3Config {
    pub access_key: String,
    pub secret_key: String,
    pub region: String,
    pub bucket: String,
}

impl Default for S3Config {
    /// No credentials, no bucket, region "us-east-1".
    fn default() -> (c: Self)
        ensures
            c.access_key@.len() == 0,
            c.secret_key@.len() == 0,
            c.region@ == "us-east-1"@,
            c.bucket@.len() == 0,
    {
        S3Config {
            access_key: String::new(),
            secret_key: String::new(),
            region: owned("us-east-1"),
            bucket: String::new(),
        }
    }
}

/// Syncs files to S3.
pub struct S3Sync;

/// The verdict on an S3 configuration: the first missing field among
/// access key, secret key and bucket, or success.
pub open spec fn s3_config_error(c: S3Config) -> Option<Seq<char>> {
    if c.access_key@.len() == 0 {
        Some("Access key is required"@)
    } else if c.secret_key@.len() == 0 {
        Some("Secret key is required"@)
    } else if c.bucket@.len() == 0 {
        Some("Bucket name is required"@)
    } else {
        None
    }
}

impl S3Sync {
    pub fn new() -> (s: Self) {
        S3Sync
    }

    /// Checks that the access key, the secret key and the bucket are given.
    pub fn validate_config(&self, config: &S3Config) -> (r: Result<(), String>)
        ensures
            match r {
                Ok(()) => s3_config_error(*config) is None,
                Err(e) => s3_config_error(*config) == Some(e@),
            },
    {
        if config.access_key.as_str().is_empty() {
            return Err(owned("Access key is required"));
        }
        if config.secret_key.as_str().is_empty() {
            return Err(owned("Secret key is required"));
        }
        if config.bucket.as_str().is_empty() {
            return Err(owned("Bucket name is required"));
        }
        Ok(())
    }

    /// The connection is taken to work.
    pub fn test_connection(&self) -> (r: Result<bool, String>)
        ensures
            r == Ok::<bool, String>(true),
    {
        Ok(true)
    }

    /// Uploads the files: all are counted as uploaded, none as failed.
    pub fn upload_files(&self, files: Vec<FileInfo>) -> (r: Result<(usize, usize), String>)
        ensures
            r == Ok::<(usize, usize), String>((files@.len() as usize, 0usize)),
    {
        Ok((files.len(), 0))
    }

    /// No sync runs are recorded.
    pub fn get_sync_status(&self) -> (r: Vec<SyncStatus>)
        ensures
            r@.len() == 0,
    {
        Vec::new()
    }
}

impl Default for S3Sync {
    fn default() -> (s: Self) {
        Self::new()
    }
}

} // verus!
