//! Video files: sound track, subtitles, key frames and metadata.
use vstd::prelude::*;
use super::{file_outcome, finish_file, push_section, section_if, FileMetadata, FileProcessResult};

verus! {

/// Reads video files.
#[derive(Debug, Clone, Copy, PartialEq, Eq, Structural)]
pub struct VideoProcessor {
    pub enable_audio_extraction: bool,
    pub enable_subtitle_extraction: bool,
    pub enable_keyframe_extraction: bool,
}

/// The text read out of a video: the transcription of its sound track and
/// its subtitles, each under its title where it is read and succeeded.
pub open spec fn video_text(p: VideoProcessor, audio: Result<String, String>, subtitles: Result<String, String>) -> Seq<char> {
    section_if(p.enable_audio_extraction, "\n=== Audio Transcription ===\n"@, audio) + section_if(
        p.enable_subtitle_extraction,
        "\n=== Subtitles ===\n"@,
        subtitles,
    )
}

impl VideoProcessor {
    /// Sound track and subtitles read, key frames not.
    pub fn new() -> (r: Self)
        ensures
            r == (VideoProcessor {
                enable_audio_extraction: true,
                enable_subtitle_extraction: true,
                enable_keyframe_extraction: false,
            }),
    {
        VideoProcessor {
            enable_audio_extraction: true,
            enable_subtitle_extraction: true,
            enable_keyframe_extraction: false,
        }
    }

    /// The same processor with the sound track read or not.
    pub fn with_audio_extraction(self, enabled: bool) -> (r: Self)
        ensures
            r == (VideoProcessor { enable_audio_extraction: enabled, ..self }),
    {
        VideoProcessor { enable_audio_extraction: enabled, ..self }
    }

    /// The same processor with subtitles read or not.
    pub fn with_subtitle_extraction(self, enabled: bool) -> (r: Self)
        ensures
            r == (VideoProcessor { enable_subtitle_extraction: enabled, ..self }),
    {
        VideoProcessor { enable_subtitle_extraction: enabled, ..self }
    }

    /// The same processor with key frames read or not.
    pub fn with_keyframe_extraction(self, enabled: bool) -> (r: Self)
        ensures
            r == (VideoProcessor { enable_keyframe_extraction: enabled, ..self }),
    {
        VideoProcessor { enable_keyframe_extraction: enabled, ..self }
    }

    /// The text of the sound track of the video printed as `path_debug`: no
    /// extractor or recogniser is wired in yet, so a text that names the
    /// file stands for it.
    pub fn extract_audio_as_text(&self, path_debug: &str) -> (r: Result<String, String>)
        ensures
            r matches Ok(t) && t@ == "Audio transcription for video: "@ + path_debug@,
    {
        Ok(crate::text::concat("Audio transcription for video: ", path_debug))
    }

    /// The subtitles of the video printed as `path_debug`: no reader is
    /// wired in yet, so a text that names the file stands for them.
    pub fn extract_subtitles(&self, path_debug: &str) -> (r: Result<String, String>)
        ensures
            r matches Ok(t) && t@ == "Subtitles extraction for video: "@ + path_debug@,
    {
        Ok(crate::text::concat("Subtitles extraction for video: ", path_debug))
    }

    /// The key frames of the video: none, as no extractor is wired in yet.
    pub fn extract_keyframes(&self, path_debug: &str) -> (r: Result<Vec<String>, String>)
        ensures
            r matches Ok(frames) && frames@.len() == 0,
    {
        Ok(Vec::new())
    }

    /// The result of reading a video from what the file system and the
    /// readers gave: the text of [`video_text`]; a failure to read key
    /// frames, where they are read, refuses the file.
    pub fn process(
        &self,
        path: &str,
        path_debug: &str,
        exists: bool,
        audio: Result<String, String>,
        subtitles: Result<String, String>,
        keyframes: Result<(), String>,
        metadata: Result<FileMetadata, String>,
        processed_at: i64,
    ) -> (r: Result<FileProcessResult, String>)
        ensures
            exists && self.enable_keyframe_extraction && keyframes is Err ==> (r matches Err(e) && keyframes
                == Err::<(), String>(e)),
            !(exists && self.enable_keyframe_extraction && keyframes is Err) ==> file_outcome(
                r,
                "Video"@,
                path@,
                path_debug@,
                exists,
                metadata,
                "video"@,
                video_text(*self, audio, subtitles),
                processed_at,
            ),
    {
        if exists {
            if self.enable_keyframe_extraction {
                if let Err(e) = keyframes {
                    return Err(e);
                }
            }
        }
        let ghost a = section_if(self.enable_audio_extraction, "\n=== Audio Transcription ===\n"@, audio);
        let text = push_section(String::new(), self.enable_audio_extraction, "\n=== Audio Transcription ===\n", audio);
        let text = push_section(text, self.enable_subtitle_extraction, "\n=== Subtitles ===\n", subtitles);
        assert(Seq::<char>::empty() + a =~= a);
        finish_file("Video", path, path_debug, exists, metadata, "video", text, processed_at)
    }
}

impl Default for VideoProcessor {
    fn default() -> (r: Self)
        ensures
            r == (VideoProcessor {
                enable_audio_extraction: true,
                enable_subtitle_extraction: true,
                enable_keyframe_extraction: false,
            }),
    {
        Self::new()
    }
}

} // verus!
