//! PDF files: their text and metadata.
use vstd::prelude::*;
use super::{around_path, file_outcome, finish_file, FileMetadata, FileProcessResult};

verus! {

/// Reads PDF files.
pub struct PdfProcessor;

impl PdfProcessor {
    pub fn new() -> (r: Self) {
        PdfProcessor
    }

    /// The result of reading a PDF file from what the file system and the
    /// parser gave: its text, or the parser's error.
    pub fn process(
        &self,
        path: &str,
        path_debug: &str,
        exists: bool,
        text: Result<String, String>,
        metadata: Result<FileMetadata, String>,
        processed_at: i64,
    ) -> (r: Result<FileProcessResult, String>)
        ensures
            exists && text is Err ==> (r matches Err(e) && text == Err::<String, String>(e)),
            !(exists && text is Err) ==> file_outcome(
                r,
                "PDF"@,
                path@,
                path_debug@,
                exists,
                metadata,
                "pdf"@,
                match text {
                    Ok(t) => t@,
                    Err(_) => Seq::empty(),
                },
                processed_at,
            ),
    {
        if exists {
            if let Err(e) = text {
                return Err(e);
            }
        }
        let t = match text {
            Ok(t) => t,
            Err(_) => String::new(),
        };
        finish_file("PDF", path, path_debug, exists, metadata, "pdf", t, processed_at)
    }

    /// The text of the file printed as `path_debug`: no parser is wired in
    /// yet, so a text that names the file stands for it.
    pub fn extract_text(&self, path_debug: &str) -> (r: Result<String, String>)
        ensures
            r matches Ok(t) && t@ == "PDF text extraction for: "@ + path_debug@
                + "\n(This is a placeholder for actual PDF text extraction)"@,
    {
        Ok(around_path("PDF text extraction for: ", path_debug, "\n(This is a placeholder for actual PDF text extraction)"))
    }

    /// The text of each page, for the file printed as `path_debug`: no
    /// parser reads pages yet, so a single page stands for the file.
    pub fn extract_text_by_page(&self, path_debug: &str) -> (r: Result<Vec<String>, String>)
        ensures
            r matches Ok(pages) && pages@.len() == 1 && pages@[0]@ == "Page 1 text for: "@ + path_debug@,
    {
        let mut pages: Vec<String> = Vec::new();
        pages.push(crate::text::concat("Page 1 text for: ", path_debug));
        Ok(pages)
    }

    /// The number of pages: one, as no parser counts them yet.
    pub fn get_page_count(&self, path: &str) -> (r: Result<usize, String>)
        ensures
            r == Ok::<usize, String>(1),
    {
        Ok(1)
    }

    /// The title: `Unknown`, as no parser reads it yet.
    pub fn extract_title(&self, path: &str) -> (r: Result<String, String>)
        ensures
            r matches Ok(t) && t@ == "Unknown"@,
    {
        Ok(crate::text::owned("Unknown"))
    }
}

impl Default for PdfProcessor {
    fn default() -> (r: Self) {
        Self::new()
    }
}

} // verus!
