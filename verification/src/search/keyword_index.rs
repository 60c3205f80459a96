//! Documents held by the keyword index.
use vstd::prelude::*;
use crate::text::{owned, utf8_len};

verus! {

/// A document in the keyword index.
#[derive(Debug, Clone)]
pub struct IndexedDocument {
    pub id: String,
    pub content: String,
    pub file_path: String,
    pub content_length: usize,
    pub language: String,
    pub tags: Vec<String>,
    pub created_at: i64,
    pub updated_at: i64,
}


impl IndexedDocument {
    /// A document of `content` under `id`, from an unknown file in an
    /// unknown language, without tags, created and updated at `now`; its
    /// length is that of the content in bytes.
    pub fn from_text(id: &str, content: &str, now: i64) -> (r: Self)
        ensures
            r.id@ == id@,
            r.content@ == content@,
            r.file_path@ == "unknown"@,
            r.content_length == utf8_len(content@),
            r.language@ == "unknown"@,
            r.tags@.len() == 0,
            r.created_at == now,
            r.updated_at == now,
    {
        IndexedDocument {
            id: owned(id),
            content: owned(content),
            file_path: owned("unknown"),
            content_length: content.as_bytes().len(),
            language: owned("unknown"),
            tags: Vec::new(),
            created_at: now,
            updated_at: now,
        }
    }
}

} // verus!
