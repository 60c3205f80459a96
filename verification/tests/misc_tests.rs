use cortexmind::multimodal::image_ocr::OcrEngine;
use cortexmind::multimodal::SupportedFileType;
use cortexmind::rag::query_parser::{Confidence, QueryIntent, QueryParser};
use cortexmind::storage::s3_sync::{S3Config, S3Sync};
use cortexmind::text::{decimal_string, i64_decimal, split_lines, split_words, str_replace, str_trim};
use cortexmind::vector::chromadb_client::ChromaDBConfig;
use cortexmind::vector::ollama_embeddings::OllamaConfig;

#[test]
fn decimals() {
    assert_eq!(decimal_string(0), "0");
    assert_eq!(decimal_string(1234), "1234");
    assert_eq!(i64_decimal(-56), "-56");
    assert_eq!(i64_decimal(i64::MIN), i64::MIN.to_string());
}

#[test]
fn text_helpers() {
    assert_eq!(str_replace("a-b-c", "-", "+"), "a+b+c");
    assert_eq!(str_replace("aaa", "aa", "b"), "ba");
    assert_eq!(str_trim("  x y \n"), "x y");
    assert_eq!(split_words(" one  two\tthree "), vec!["one", "two", "three"]);
    assert_eq!(split_lines("a\r\nb\n\nc"), vec!["a", "b", "", "c"]);
    assert_eq!(split_lines("a\n"), vec!["a"]);
}

#[test]
fn question_intents() {
    let p = QueryParser::new();
    assert!(matches!(p.detect_intent("Find the parser"), QueryIntent::Search));
    assert!(matches!(p.detect_intent("what is a trait"), QueryIntent::Explain));
    assert!(matches!(p.detect_intent("compare both"), QueryIntent::Compare));
    assert!(matches!(p.detect_intent("hello"), QueryIntent::Other(_)));
}

#[test]
fn question_keywords_entities_and_filters() {
    let p = QueryParser::new();
    assert_eq!(p.extract_keywords("What is the Rust borrow checker"), vec!["What", "Rust", "borrow", "checker"]);
    assert_eq!(p.extract_entities("ask Alice about Rust"), vec!["Alice", "Rust"]);
    let f = p.extract_filters("find main.rs in python code");
    assert_eq!(f.language, Some("python".to_string()));
    assert_eq!(f.file_type, Some("rust".to_string()));
}

#[test]
fn parsing_records_history() {
    let mut p = QueryParser::new();
    let q = p.parse("search for the config loader");
    assert!(matches!(q.intent, QueryIntent::Search));
    assert_eq!(q.confidence, Confidence { length_tenths: 2, intent_tenths: 2 });
    assert_eq!(p.get_history().len(), 1);
    p.clear_history();
    assert!(p.get_history().is_empty());
}

#[test]
fn s3_validation_reports_first_missing_field() {
    let s = S3Sync::new();
    let mut c = S3Config::default();
    assert_eq!(s.validate_config(&c), Err("Access key is required".to_string()));
    c.access_key = "k".to_string();
    c.secret_key = "s".to_string();
    assert_eq!(s.validate_config(&c), Err("Bucket name is required".to_string()));
    c.bucket = "b".to_string();
    assert_eq!(s.validate_config(&c), Ok(()));
}

#[test]
fn service_urls() {
    let c = ChromaDBConfig::default();
    assert_eq!(c.build_url("/api/v1/heartbeat"), "http://localhost:8000/api/v1/heartbeat");
    let o = OllamaConfig::default();
    assert_eq!(o.build_url("embeddings"), "http://localhost:11434/api/embeddings");
}

#[test]
fn placeholder_readers_answer_their_defaults() {
    let pdf = cortexmind::multimodal::pdf_processor::PdfProcessor::new();
    assert_eq!(pdf.extract_text_by_page("\"a.pdf\"").unwrap(), vec!["Page 1 text for: \"a.pdf\"".to_string()]);
    assert_eq!(pdf.get_page_count("a.pdf"), Ok(1));
    assert_eq!(pdf.extract_title("a.pdf").unwrap(), "Unknown");
    let ocr = cortexmind::multimodal::image_ocr::ImageOCR::new();
    let info = ocr.get_image_info("a.png").unwrap();
    assert_eq!((info.width, info.height, info.has_alpha), (0, 0, false));
    assert_eq!(info.format, "unknown");
    assert_eq!(ocr.generate_thumbnail("a.png", 10, 10, "t.png"), Ok(()));
}

#[test]
fn webdav_transfers_are_accepted() {
    let w = cortexmind::storage::webdav_sync::WebDAVSync::new();
    assert_eq!(w.upload_file("a.txt", "/r/a.txt"), Ok(()));
    assert_eq!(w.download_file("/r/a.txt", "a.txt"), Ok(()));
}

fn no_metadata() -> Result<cortexmind::multimodal::FileMetadata, String> {
    Err("No such file or directory".to_string())
}

#[test]
fn test_audio_processor() {
    let processor = cortexmind::multimodal::AudioProcessor::new();
    let result = processor.process("nonexistent.mp3", "\"nonexistent.mp3\"", false, Err("missing".to_string()), no_metadata(), 0);
    assert!(result.is_err());
    assert_eq!(result.unwrap_err(), "Audio file not found: \"nonexistent.mp3\"");
}

#[test]
fn test_image_ocr() {
    let ocr = cortexmind::multimodal::ImageOCR::new();
    let result = ocr.process("nonexistent.png", "\"nonexistent.png\"", false, Err("missing".to_string()), no_metadata(), 0);
    assert!(result.is_err());
}

#[test]
fn test_pdf_processor() {
    let processor = cortexmind::multimodal::PdfProcessor::new();
    let result = processor.process("nonexistent.pdf", "\"nonexistent.pdf\"", false, Err("missing".to_string()), no_metadata(), 0);
    assert!(result.is_err());
}

#[test]
fn test_video_processor() {
    let processor = cortexmind::multimodal::VideoProcessor::new();
    let result = processor.process(
        "nonexistent.mp4",
        "\"nonexistent.mp4\"",
        false,
        Err("missing".to_string()),
        Err("missing".to_string()),
        Err("missing".to_string()),
        no_metadata(),
        0,
    );
    assert!(result.is_err());
}

fn metadata(size: u64) -> Result<cortexmind::multimodal::FileMetadata, String> {
    Ok(cortexmind::multimodal::FileMetadata {
        size,
        created_at: 1,
        modified_at: 2,
        mime_type: None,
        additional_info: serde_json::Value::Null,
    })
}

#[test]
fn processors_put_sections_together() {
    let audio = cortexmind::multimodal::AudioProcessor::new();
    let r = audio.process("a.mp3", "\"a.mp3\"", true, Ok("hello".to_string()), metadata(3), 9).unwrap();
    assert_eq!(r.extracted_text, "=== Transcription ===\nhello\n");
    assert_eq!((r.file_type.as_str(), r.file_path.as_str(), r.processed_at, r.metadata.size), ("audio", "a.mp3", 9, 3));
    let r = audio.process("a.mp3", "\"a.mp3\"", true, Err("no model".to_string()), metadata(3), 9).unwrap();
    assert_eq!(r.extracted_text, "");
    assert_eq!(audio.process("a.mp3", "\"a.mp3\"", true, Ok("x".to_string()), Err("denied".to_string()), 9).unwrap_err(), "denied");

    let video = cortexmind::multimodal::VideoProcessor::new();
    let r = video
        .process("v.mp4", "\"v.mp4\"", true, Ok("talk".to_string()), Ok("subs".to_string()), Err("slow".to_string()), metadata(1), 5)
        .unwrap();
    assert_eq!(r.extracted_text, "\n=== Audio Transcription ===\ntalk\n\n=== Subtitles ===\nsubs\n");
    let frames = video.with_keyframe_extraction(true);
    let e = frames.process("v.mp4", "\"v.mp4\"", true, Ok(String::new()), Ok(String::new()), Err("slow".to_string()), metadata(1), 5);
    assert_eq!(e.unwrap_err(), "slow");

    let pdf = cortexmind::multimodal::PdfProcessor::new();
    assert_eq!(pdf.process("d.pdf", "\"d.pdf\"", true, Err("bad pdf".to_string()), metadata(1), 5).unwrap_err(), "bad pdf");
    assert_eq!(pdf.process("d.pdf", "\"d.pdf\"", true, Ok("body".to_string()), metadata(1), 5).unwrap().extracted_text, "body");
}

#[test]
fn whitespace_follows_the_unicode_property() {
    for c in ['\u{0}', 'a', '\t', '\n', ' ', '\u{85}', '\u{a0}', '\u{1680}', '\u{2000}', '\u{200b}', '\u{2028}', '\u{3000}', '\u{feff}', '知'] {
        assert_eq!(cortexmind::text::char_is_whitespace(c), c.is_whitespace(), "{:?}", c);
    }
}

#[test]
fn recognisers_name_the_file_they_were_given() {
    let audio = cortexmind::multimodal::AudioProcessor::new();
    assert_eq!(
        audio.transcribe_audio("\"a.mp3\"").unwrap(),
        "Audio transcription for: \"a.mp3\"\n(This is a placeholder for actual speech recognition)"
    );
    let ocr = cortexmind::multimodal::ImageOCR::new();
    assert_eq!(
        ocr.extract_text("\"i.png\"").unwrap(),
        "Tesseract OCR for image: \"i.png\"\n(This is a placeholder for actual OCR text)"
    );
    assert_eq!(ocr.with_ocr_engine(OcrEngine::Online).extract_text("\"i.png\"").unwrap(), "Online OCR for image: \"i.png\"");
    assert_eq!(
        ocr.with_ocr_engine(OcrEngine::CloudApi).extract_text("\"i.png\"").unwrap(),
        "Cloud API OCR for image: \"i.png\""
    );
    let pdf = cortexmind::multimodal::PdfProcessor::new();
    assert_eq!(
        pdf.extract_text("\"d.pdf\"").unwrap(),
        "PDF text extraction for: \"d.pdf\"\n(This is a placeholder for actual PDF text extraction)"
    );
    let video = cortexmind::multimodal::VideoProcessor::new();
    assert_eq!(video.extract_audio_as_text("\"v.mp4\"").unwrap(), "Audio transcription for video: \"v.mp4\"");
    assert_eq!(video.extract_subtitles("\"v.mp4\"").unwrap(), "Subtitles extraction for video: \"v.mp4\"");
    assert!(video.extract_keyframes("\"v.mp4\"").unwrap().is_empty());
    assert_eq!(cortexmind::multimodal::around_path("<", "p", ">"), "<p>");
}

#[test]
fn recognised_text_lands_in_its_section() {
    let audio = cortexmind::multimodal::AudioProcessor::new();
    let r = audio.process("a.mp3", "\"a.mp3\"", true, audio.transcribe_audio("\"a.mp3\""), metadata(3), 9).unwrap();
    assert_eq!(
        r.extracted_text,
        "=== Transcription ===\nAudio transcription for: \"a.mp3\"\n(This is a placeholder for actual speech recognition)\n"
    );
    let ocr = cortexmind::multimodal::ImageOCR::new();
    let r = ocr.process("i.png", "\"i.png\"", true, ocr.extract_text("\"i.png\""), metadata(3), 9).unwrap();
    assert_eq!(
        r.extracted_text,
        "=== OCR Text ===\nTesseract OCR for image: \"i.png\"\n(This is a placeholder for actual OCR text)\n"
    );
}

#[test]
fn file_kinds_follow_the_extension() {
    assert_eq!(SupportedFileType::from_extension("pdf"), Some(SupportedFileType::Pdf));
    assert_eq!(SupportedFileType::from_extension("PDF"), Some(SupportedFileType::Pdf));
    assert_eq!(SupportedFileType::from_extension("mkv"), Some(SupportedFileType::Video));
    assert_eq!(SupportedFileType::from_extension("M4a"), Some(SupportedFileType::Audio));
    assert_eq!(SupportedFileType::from_extension("jpeg"), Some(SupportedFileType::Image));
    assert_eq!(SupportedFileType::from_extension("webp"), Some(SupportedFileType::Image));
    assert_eq!(SupportedFileType::from_extension("txt"), None);
    assert_eq!(SupportedFileType::from_extension(""), None);
}
