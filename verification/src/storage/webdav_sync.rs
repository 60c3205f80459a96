//! Backup to WebDAV servers (Nextcloud, ownCloud and the like).
use vstd::prelude::*;
use super::SyncStatus;
use crate::text::owned;

verus! {

/// Connection settings of a WebDAV server.
#[derive(Debug, Clone)]
pub struct WebDAVConfig {
    pub url: String,
    pub username: String,
    pub password: String,
    pub base_path: String,
    pub max_retries: u32,
}

impl Default for WebDAVConfig {
    /// No URL and no credentials, base path "/", three retries.
    fn default() -> (c: Self)
        ensures
            c.url@.len() == 0,
            c.username@.len() == 0,
            c.password@.len() == 0,
            c.base_path@ == "/"@,
            c.max_retries == 3,
    {
        WebDAVConfig {
            url: String::new(),
            username: String::new(),
            password: String::new(),
            base_path: owned("/"),
            max_retries: 3,
        }
    }
}

/// The verdict on a WebDAV configuration: the first missing field among
/// URL, user name and password, or success.
pub open spec fn webdav_config_error(c: WebDAVConfig) -> Option<Seq<char>> {
    if c.url@.len() == 0 {
        Some("WebDAV URL is required"@)
    } else if c.username@.len() == 0 {
        Some("Username is required"@)
    } else if c.password@.len() == 0 {
        Some("Password is required"@)
    } else {
        None
    }
}

/// Syncs files with a WebDAV server.
pub struct WebDAVSync;

impl WebDAVSync {
    pub fn new() -> (s: Self) {
        WebDAVSync
    }

    /// Checks that the URL, the user name and the password are given.
    pub fn validate_config(&self, config: &WebDAVConfig) -> (r: Result<(), String>)
        ensures
            match r {
                Ok(()) => webdav_config_error(*config) is None,
                Err(e) => webdav_config_error(*config) == Some(e@),
            },
    {
        if config.url.as_str().is_empty() {
            return Err(owned("WebDAV URL is required"));
        }
        if config.username.as_str().is_empty() {
            return Err(owned("Username is required"));
        }
        if config.password.as_str().is_empty() {
            return Err(owned("Password is required"));
        }
        Ok(())
    }

    /// The connection is taken to work.
    pub fn test_connection(&self) -> (r: Result<bool, String>)
        ensures
            r == Ok::<bool, String>(true),
    {
        Ok(true)
    }

    /// Uploading a file transfers nothing yet and cannot fail.
    pub fn upload_file(&self, local_path: &str, remote_path: &str) -> (r: Result<(), String>)
        ensures
            r is Ok,
    {
        Ok(())
    }

    /// Downloading a file transfers nothing yet and cannot fail.
    pub fn download_file(&self, remote_path: &str, local_path: &str) -> (r: Result<(), String>)
        ensures
            r is Ok,
    {
        Ok(())
    }

    /// A two-way sync transfers nothing: no upload, download or conflict.
    pub fn sync_bidirectional(&self, local_dir: &str, remote_dir: &str) -> (r: Result<
        (usize, usize, usize),
        String,
    >)
        ensures
            r == Ok::<(usize, usize, usize), String>((0usize, 0usize, 0usize)),
    {
        Ok((0, 0, 0))
    }

    /// No sync runs are recorded.
    pub fn get_sync_status(&self) -> (r: Vec<SyncStatus>)
        ensures
            r@.len() == 0,
    {
        Vec::new()
    }
}

impl Default for WebDAVSync {
    fn default() -> (s: Self) {
        Self::new()
    }
}

/// The default WebDAV configuration is refused, for want of a URL.
pub proof fn law_default_webdav_config_refused(c: WebDAVConfig)
    requires
        c.url@.len() == 0,
    ensures
        webdav_config_error(c) == Some("WebDAV URL is required"@),
{
}

} // verus!
