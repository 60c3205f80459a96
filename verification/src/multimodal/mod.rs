//! Reading media files: the text found in them and their metadata. The
//! file system and the recognisers are left to the caller, who hands over
//! what they gave.
pub mod audio_processor;
pub mod file_preview;
pub mod image_ocr;
pub mod pdf_processor;
pub mod video_processor;

pub use audio_processor::AudioProcessor;
pub use image_ocr::ImageOCR;
pub use pdf_processor::PdfProcessor;
pub use video_processor::VideoProcessor;

use vstd::prelude::*;
use crate::text::{concat, lowercase, owned, str_eq, to_lowercase};

verus! {

/// The kinds of media file that are read and previewed.
#[derive(Debug, Clone, Copy, PartialEq, Eq, Structural)]
pub enum SupportedFileType {
    Pdf,
    Video,
    Audio,
    Image,
}

/// The kind of file a lower-case extension stands for.
pub open spec fn file_type_named(e: Seq<char>) -> Option<SupportedFileType> {
    if e == "pdf"@ {
        Some(SupportedFileType::Pdf)
    } else if e == "mp4"@ || e == "mov"@ || e == "avi"@ || e == "mkv"@ {
        Some(SupportedFileType::Video)
    } else if e == "mp3"@ || e == "wav"@ || e == "flac"@ || e == "ogg"@ || e == "m4a"@ {
        Some(SupportedFileType::Audio)
    } else if e == "png"@ || e == "jpg"@ || e == "jpeg"@ || e == "gif"@ || e == "webp"@ {
        Some(SupportedFileType::Image)
    } else {
        None
    }
}

impl SupportedFileType {
    /// The kind of file with the extension `ext`, read without regard to
    /// case; `None` for an extension of no supported kind.
    pub fn from_extension(ext: &str) -> (r: Option<Self>)
        ensures
            r == file_type_named(lowercase(ext@)),
    {
        let lower = to_lowercase(ext);
        let e = lower.as_str();
        if str_eq(e, "pdf") {
            Some(SupportedFileType::Pdf)
        } else if str_eq(e, "mp4") || str_eq(e, "mov") || str_eq(e, "avi") || str_eq(e, "mkv") {
            Some(SupportedFileType::Video)
        } else if str_eq(e, "mp3") || str_eq(e, "wav") || str_eq(e, "flac") || str_eq(e, "ogg") || str_eq(e, "m4a") {
            Some(SupportedFileType::Audio)
        } else if str_eq(e, "png") || str_eq(e, "jpg") || str_eq(e, "jpeg") || str_eq(e, "gif") || str_eq(e, "webp") {
            Some(SupportedFileType::Image)
        } else {
            None
        }
    }
}

/// `before`, then the printed path, then `after`: the text that the
/// recognisers which are not wired in yet give for a file.
pub fn around_path(before: &str, path_debug: &str, after: &str) -> (r: String)
    ensures
        r@ == before@ + path_debug@ + after@,
{
    let head = concat(before, path_debug);
    concat(head.as_str(), after)
}

/// What reading a file gave.
#[derive(Debug, Clone)]
pub struct FileProcessResult {
    pub file_path: String,
    pub file_type: String,
    pub extracted_text: String,
    pub metadata: FileMetadata,
    pub processed_at: i64,
}

/// What the file system and the media tell about a file.
#[derive(Debug, Clone)]
pub struct FileMetadata {
    pub size: u64,
    pub created_at: i64,
    pub modified_at: i64,
    pub mime_type: Option<String>,
    pub additional_info: serde_json::Value,
}

/// A titled section of extracted text: the title line, the text and a
/// line break.
pub open spec fn section(title: Seq<char>, text: Seq<char>) -> Seq<char> {
    title + text + "\n"@
}

/// The section a recogniser contributes: its text under the title when it
/// ran and succeeded, nothing otherwise.
pub open spec fn section_if(enabled: bool, title: Seq<char>, outcome: Result<String, String>) -> Seq<char> {
    if enabled {
        match outcome {
            Ok(t) => section(title, t@),
            Err(_) => Seq::empty(),
        }
    } else {
        Seq::empty()
    }
}

/// Appends the section a recogniser contributes (see [`section_if`]).
pub fn push_section(text: String, enabled: bool, title: &str, outcome: Result<String, String>) -> (r: String)
    ensures
        r@ == text@ + section_if(enabled, title@, outcome),
{
    if enabled {
        match outcome {
            Ok(t) => {
                let a = concat(text.as_str(), title);
                let b = concat(a.as_str(), t.as_str());
                concat(b.as_str(), "\n")
            },
            Err(_) => {
                assert(text@ + Seq::<char>::empty() =~= text@);
                text
            },
        }
    } else {
        assert(text@ + Seq::<char>::empty() =~= text@);
        text
    }
}

/// The outcome of reading a file: refused when it does not exist (with
/// `what` naming the kind of file and `path_debug` its path as debugging
/// output shows it), refused with the metadata's error, or the result.
pub open spec fn file_outcome(
    r: Result<FileProcessResult, String>,
    what: Seq<char>,
    path: Seq<char>,
    path_debug: Seq<char>,
    exists: bool,
    metadata: Result<FileMetadata, String>,
    file_type: Seq<char>,
    text: Seq<char>,
    processed_at: i64,
) -> bool {
    if !exists {
        r matches Err(m) && m@ == what + " file not found: "@ + path_debug
    } else {
        match metadata {
            Err(e) => r == Err::<FileProcessResult, String>(e),
            Ok(md) => r matches Ok(res) && res.file_path@ == path && res.file_type@ == file_type
                && res.extracted_text@ == text && res.metadata == md && res.processed_at == processed_at,
        }
    }
}

/// Puts a file's result together (see [`file_outcome`]).
pub fn finish_file(
    what: &str,
    path: &str,
    path_debug: &str,
    exists: bool,
    metadata: Result<FileMetadata, String>,
    file_type: &str,
    text: String,
    processed_at: i64,
) -> (r: Result<FileProcessResult, String>)
    ensures
        file_outcome(r, what@, path@, path_debug@, exists, metadata, file_type@, text@, processed_at),
{
    if !exists {
        let m = concat(what, " file not found: ");
        return Err(concat(m.as_str(), path_debug));
    }
    match metadata {
        Err(e) => Err(e),
        Ok(md) => Ok(FileProcessResult {
            file_path: owned(path),
            file_type: owned(file_type),
            extracted_text: text,
            metadata: md,
            processed_at,
        }),
    }
}

} // verus!
