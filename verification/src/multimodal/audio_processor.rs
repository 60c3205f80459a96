//! Audio files: speech recognition and metadata.
use vstd::prelude::*;
use super::{around_path, file_outcome, finish_file, push_section, section_if, FileMetadata, FileProcessResult};

verus! {

/// Reads audio files.
#[derive(Debug, Clone, Copy, PartialEq, Eq, Structural)]
pub struct AudioProcessor {
    pub enable_transcription: bool,
    pub enable_segmentation: bool,
}

impl AudioProcessor {
    /// Transcription on, segmentation off.
    pub fn new() -> (r: Self)
        ensures
            r == (AudioProcessor { enable_transcription: true, enable_segmentation: false }),
    {
        AudioProcessor { enable_transcription: true, enable_segmentation: false }
    }

    /// The same processor with transcription switched as given.
    pub fn with_transcription(self, enabled: bool) -> (r: Self)
        ensures
            r == (AudioProcessor { enable_transcription: enabled, ..self }),
    {
        AudioProcessor { enable_transcription: enabled, ..self }
    }

    /// The same processor with segmentation switched as given.
    pub fn with_segmentation(self, enabled: bool) -> (r: Self)
        ensures
            r == (AudioProcessor { enable_segmentation: enabled, ..self }),
    {
        AudioProcessor { enable_segmentation: enabled, ..self }
    }

    /// What the speech recogniser gives for the file printed as
    /// `path_debug`: no recogniser is wired in yet, so a text that names
    /// the file stands for the transcription.
    pub fn transcribe_audio(&self, path_debug: &str) -> (r: Result<String, String>)
        ensures
            r matches Ok(t) && t@ == "Audio transcription for: "@ + path_debug@
                + "\n(This is a placeholder for actual speech recognition)"@,
    {
        Ok(around_path("Audio transcription for: ", path_debug, "\n(This is a placeholder for actual speech recognition)"))
    }

    /// The result of reading an audio file from what the file system and
    /// the recogniser gave: the transcription under its title when
    /// transcription is on and succeeded (see [`file_outcome`]).
    pub fn process(
        &self,
        path: &str,
        path_debug: &str,
        exists: bool,
        transcription: Result<String, String>,
        metadata: Result<FileMetadata, String>,
        processed_at: i64,
    ) -> (r: Result<FileProcessResult, String>)
        ensures
            file_outcome(
                r,
                "Audio"@,
                path@,
                path_debug@,
                exists,
                metadata,
                "audio"@,
                section_if(self.enable_transcription, "=== Transcription ===\n"@, transcription),
                processed_at,
            ),
    {
        let text = push_section(String::new(), self.enable_transcription, "=== Transcription ===\n", transcription);
        assert(Seq::<char>::empty() + section_if(self.enable_transcription, "=== Transcription ===\n"@, transcription)
            =~= section_if(self.enable_transcription, "=== Transcription ===\n"@, transcription));
        finish_file("Audio", path, path_debug, exists, metadata, "audio", text, processed_at)
    }
}

impl Default for AudioProcessor {
    fn default() -> (r: Self)
        ensures
            r == (AudioProcessor { enable_transcription: true, enable_segmentation: false }),
    {
        Self::new()
    }
}

} // verus!
