//! Images: text recognition and metadata.
use vstd::prelude::*;
use super::{around_path, file_outcome, finish_file, push_section, section_if, FileMetadata, FileProcessResult};

verus! {

/// Which recogniser reads the text of images.
#[derive(Debug, Clone, Copy, PartialEq, Eq, Structural)]
pub enum OcrEngine {
    /// Tesseract, run locally.
    Tesseract,
    /// An online service.
    Online,
    /// A cloud API.
    CloudApi,
}

/// The text that the recogniser `engine` gives for the image printed as
/// `path_debug`.
pub open spec fn recogniser_text(engine: OcrEngine, path_debug: Seq<char>) -> Seq<char> {
    match engine {
        OcrEngine::Tesseract => "Tesseract OCR for image: "@ + path_debug
            + "\n(This is a placeholder for actual OCR text)"@,
        OcrEngine::Online => "Online OCR for image: "@ + path_debug,
        OcrEngine::CloudApi => "Cloud API OCR for image: "@ + path_debug,
    }
}

/// Reads images.
#[derive(Debug, Clone, Copy, PartialEq, Eq, Structural)]
pub struct ImageOCR {
    pub enable_ocr: bool,
    pub ocr_engine: OcrEngine,
}

/// What an image holds.
#[derive(Debug, Clone)]
pub struct ImageInfo {
    pub width: u32,
    pub height: u32,
    pub format: String,
    pub color_space: String,
    pub has_alpha: bool,
}

impl ImageOCR {
    /// Recognition on, with Tesseract.
    pub fn new() -> (r: Self)
        ensures
            r == (ImageOCR { enable_ocr: true, ocr_engine: OcrEngine::Tesseract }),
    {
        ImageOCR { enable_ocr: true, ocr_engine: OcrEngine::Tesseract }
    }

    /// The same reader with the given recogniser.
    pub fn with_ocr_engine(self, engine: OcrEngine) -> (r: Self)
        ensures
            r == (ImageOCR { ocr_engine: engine, ..self }),
    {
        ImageOCR { ocr_engine: engine, ..self }
    }

    /// The same reader with recognition switched as given.
    pub fn enable_ocr(self, enabled: bool) -> (r: Self)
        ensures
            r == (ImageOCR { enable_ocr: enabled, ..self }),
    {
        ImageOCR { enable_ocr: enabled, ..self }
    }

    /// What the chosen recogniser gives for the image printed as
    /// `path_debug`: none is wired in yet, so a text that names the engine
    /// and the file stands for the recognised text.
    pub fn extract_text(&self, path_debug: &str) -> (r: Result<String, String>)
        ensures
            r matches Ok(t) && t@ == recogniser_text(self.ocr_engine, path_debug@),
    {
        match self.ocr_engine {
            OcrEngine::Tesseract => Ok(
                around_path("Tesseract OCR for image: ", path_debug, "\n(This is a placeholder for actual OCR text)"),
            ),
            OcrEngine::Online => Ok(crate::text::concat("Online OCR for image: ", path_debug)),
            OcrEngine::CloudApi => Ok(crate::text::concat("Cloud API OCR for image: ", path_debug)),
        }
    }

    /// The result of reading an image from what the file system and the
    /// recogniser gave: the recognised text under its title when
    /// recognition is on and succeeded (see [`file_outcome`]).
    pub fn process(
        &self,
        path: &str,
        path_debug: &str,
        exists: bool,
        recognised: Result<String, String>,
        metadata: Result<FileMetadata, String>,
        processed_at: i64,
    ) -> (r: Result<FileProcessResult, String>)
        ensures
            file_outcome(
                r,
                "Image"@,
                path@,
                path_debug@,
                exists,
                metadata,
                "image"@,
                section_if(self.enable_ocr, "=== OCR Text ===\n"@, recognised),
                processed_at,
            ),
    {
        let text = push_section(String::new(), self.enable_ocr, "=== OCR Text ===\n", recognised);
        assert(Seq::<char>::empty() + section_if(self.enable_ocr, "=== OCR Text ===\n"@, recognised)
            =~= section_if(self.enable_ocr, "=== OCR Text ===\n"@, recognised));
        finish_file("Image", path, path_debug, exists, metadata, "image", text, processed_at)
    }

    /// What the image holds: unknown, as no image library reads it yet
    /// (no size, format or colour space, no alpha channel).
    pub fn get_image_info(&self, path: &str) -> (r: Result<ImageInfo, String>)
        ensures
            r matches Ok(i) && i.width == 0 && i.height == 0 && i.format@ == "unknown"@ && i.color_space@
                == "unknown"@ && !i.has_alpha,
    {
        Ok(
            ImageInfo {
                width: 0,
                height: 0,
                format: crate::text::owned("unknown"),
                color_space: crate::text::owned("unknown"),
                has_alpha: false,
            },
        )
    }

    /// Makes a thumbnail of at most `max_width` by `max_height` at
    /// `output_path`: nothing is drawn yet, and nothing can fail.
    pub fn generate_thumbnail(&self, path: &str, max_width: u32, max_height: u32, output_path: &str) -> (r: Result<
        (),
        String,
    >)
        ensures
            r is Ok,
    {
        Ok(())
    }
}

impl Default for ImageOCR {
    fn default() -> (r: Self)
        ensures
            r == (ImageOCR { enable_ocr: true, ocr_engine: OcrEngine::Tesseract }),
    {
        Self::new()
    }
}

} // verus!
