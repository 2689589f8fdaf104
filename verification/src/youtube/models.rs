//! What is known of a YouTube video and of its audio streams, and what can go
//! wrong in getting them.
use vstd::prelude::*;

verus! {

/// The description of a video.
#[derive(Clone, Debug)]
pub struct VideoMetadata {
    pub id: String,
    pub title: String,
    pub author: String,
    pub duration_seconds: u64,
    pub view_count: u64,
    pub thumbnail_url: Option<String>,
    pub description: Option<String>,
}

/// One audio stream of a video.
#[derive(Clone, Debug)]
pub struct AudioStreamInfo {
    pub url: String,
    pub mime_type: String,
    /// Bits per second.
    pub bitrate: u32,
    pub sample_rate: Option<u32>,
    pub content_length: Option<u64>,
    /// The file kind the stream comes in (`webm`, `m4a`, or `audio`).
    pub container: String,
    /// The codec (`opus`, `aac`, or `unknown`).
    pub audio_codec: String,
}

/// The value of an audio stream's description.
pub struct StreamView {
    pub url: Seq<char>,
    pub mime_type: Seq<char>,
    pub bitrate: u32,
    pub sample_rate: Option<u32>,
    pub content_length: Option<u64>,
    pub container: Seq<char>,
    pub audio_codec: Seq<char>,
}

impl View for AudioStreamInfo {
    type V = StreamView;

    open spec fn view(&self) -> StreamView {
        StreamView {
            url: self.url@,
            mime_type: self.mime_type@,
            bitrate: self.bitrate,
            sample_rate: self.sample_rate,
            content_length: self.content_length,
            container: self.container@,
            audio_codec: self.audio_codec@,
        }
    }
}

impl AudioStreamInfo {
    /// A copy of this description.
    pub fn duplicate(&self) -> (r: Self)
        ensures
            r == *self,
    {
        AudioStreamInfo {
            url: self.url.clone(),
            mime_type: self.mime_type.clone(),
            bitrate: self.bitrate,
            sample_rate: self.sample_rate,
            content_length: self.content_length,
            container: self.container.clone(),
            audio_codec: self.audio_codec.clone(),
        }
    }
}

/// The values of a list of stream descriptions.
pub open spec fn stream_views(s: Seq<AudioStreamInfo>) -> Seq<StreamView> {
    s.map_values(|a: AudioStreamInfo| a@)
}

/// A video's description and its audio streams, best first.
#[derive(Clone, Debug)]
pub struct ExtractedMedia {
    pub metadata: VideoMetadata,
    pub streams: Vec<AudioStreamInfo>,
}

/// What can go wrong in getting a video's audio.
#[derive(Debug)]
pub enum YoutubeAudioError {
    /// The link could not be read.
    InvalidUrl(String),
    /// No video id could be found in the given text.
    VideoIdNotFound(String),
    /// The service answered without what was asked for.
    DownloadFailed(String),
    /// The video has no audio stream.
    NoAudioStreamFound,
    /// `yt-dlp` is not installed.
    YtDlpNotFound,
    /// `yt-dlp` exited with an error: its exit code, if any, and what it
    /// printed on its error stream.
    YtDlpFailed { status: Option<i32>, stderr: String },
    /// A file operation failed.
    Io(String),
    /// A request failed.
    Network(String),
    /// An answer was not valid JSON.
    Json(String),
}

} // verus!
