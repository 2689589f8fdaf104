//! Using `yt-dlp`: the arguments of its runs, the reading of its answers,
//! and finding the file it wrote.
//!
//! Running `yt-dlp` is the caller's part: it hands back the exit status and
//! output of a run, and the fields of its JSON answer (`RawYtDlpInfo`).
use crate::adb_device::commands::{lossy_decode, utf8_lossy};
use crate::text::{starts_with_text, string_from, views};
use crate::youtube::innertube::text_or;
use crate::youtube::models::{AudioStreamInfo, ExtractedMedia, StreamView, VideoMetadata, YoutubeAudioError};
use vstd::prelude::*;

verus! {

/// The extractor that asks `yt-dlp` for a video's description and best
/// audio stream.
#[derive(Clone, Copy, Debug)]
pub struct YtDlpExtractor;

impl YtDlpExtractor {
    /// The `yt-dlp` extractor.
    pub fn new() -> (r: Self) {
        YtDlpExtractor
    }
}

/// The arguments of a `yt-dlp` run that describes `target` as JSON, with its
/// best audio stream.
pub fn probe_args(target: &str) -> (r: Vec<String>)
    ensures
        r@.len() == 6,
        r@[0]@ == "-j"@,
        r@[1]@ == "-f"@,
        r@[2]@ == "bestaudio/best"@,
        r@[3]@ == "--no-playlist"@,
        r@[4]@ == "--no-warnings"@,
        r@[5]@ == target@,
{
    let mut r: Vec<String> = Vec::new();
    r.push(string_from("-j"));
    r.push(string_from("-f"));
    r.push(string_from("bestaudio/best"));
    r.push(string_from("--no-playlist"));
    r.push(string_from("--no-warnings"));
    r.push(string_from(target));
    r
}

/// The error for a `yt-dlp` run that could not be started: `YtDlpNotFound`
/// when the program is missing, else the I/O error's message.
pub fn launch_error(not_found: bool, message: String) -> (r: YoutubeAudioError)
    ensures
        not_found ==> r is YtDlpNotFound,
        !not_found ==> (r matches YoutubeAudioError::Io(m) && m == message),
{
    if not_found {
        YoutubeAudioError::YtDlpNotFound
    } else {
        YoutubeAudioError::Io(message)
    }
}

/// The outcome of a finished `yt-dlp` run: success, or `YtDlpFailed` with
/// its exit code and its error output decoded (invalid UTF-8 replaced).
pub fn run_outcome(success: bool, code: Option<i32>, stderr: &Vec<u8>) -> (r: Result<(), YoutubeAudioError>)
    ensures
        success ==> r is Ok,
        !success ==> (r matches Err(YoutubeAudioError::YtDlpFailed { status, stderr: e }) && status == code
            && e@ == lossy_decode(stderr@)),
{
    if success {
        Ok(())
    } else {
        Err(YoutubeAudioError::YtDlpFailed { status: code, stderr: utf8_lossy(stderr) })
    }
}

/// The fields of `yt-dlp`'s JSON answer that are read (each `None` where the
/// field is missing or not of the expected type).
#[derive(Clone, Debug)]
pub struct RawYtDlpInfo {
    pub id: Option<String>,
    pub title: Option<String>,
    /// `uploader`: `None` when the field is missing, `Some(None)` when it is
    /// there but not a string.
    pub uploader: Option<Option<String>>,
    /// `channel`, in the same way.
    pub channel: Option<Option<String>>,
    /// `duration`, in whole seconds.
    pub duration_seconds: Option<u64>,
    pub view_count: Option<u64>,
    pub thumbnail: Option<String>,
    pub description: Option<String>,
    /// `url`: the address of the chosen audio stream.
    pub url: Option<String>,
}

/// The author named in the answer: the uploader when that field is there
/// (if it is a string), else the channel, else "Unknown".
pub open spec fn author_of(info: RawYtDlpInfo) -> Seq<char> {
    let named = match info.uploader {
        Some(u) => u,
        None => match info.channel {
            Some(c) => c,
            None => None,
        },
    };
    text_or(named, "Unknown"@)
}

/// The single stream `yt-dlp` names, at `url`.
pub open spec fn ytdlp_stream(url: Seq<char>) -> StreamView {
    StreamView {
        url,
        mime_type: "audio/webm"@,
        bitrate: 0,
        sample_rate: None,
        content_length: None,
        container: "webm"@,
        audio_codec: "unknown"@,
    }
}

/// Whether `m` describes the video of the answer `info`: no id, title,
/// length or view count gives "", "Audio", 0 and 0.
pub open spec fn ytdlp_metadata(m: VideoMetadata, info: RawYtDlpInfo) -> bool {
    &&& m.id@ == text_or(info.id, Seq::<char>::empty())
    &&& m.title@ == text_or(info.title, "Audio"@)
    &&& m.author@ == author_of(info)
    &&& m.duration_seconds == match info.duration_seconds {
        Some(d) => d,
        None => 0,
    }
    &&& m.view_count == match info.view_count {
        Some(v) => v,
        None => 0,
    }
    &&& m.thumbnail_url == info.thumbnail
    &&& m.description == info.description
}

fn text_or_default(o: &Option<String>, default: &str) -> (r: String)
    ensures
        r@ == text_or(*o, default@),
{
    match o {
        Some(s) => s.clone(),
        None => string_from(default),
    }
}

fn copy_text(o: &Option<String>) -> (r: Option<String>)
    ensures
        r == *o,
{
    match o {
        Some(s) => Some(s.clone()),
        None => None,
    }
}

/// What `yt-dlp`'s answer gives: `NoAudioStreamFound` when it names no
/// stream address (or an empty one), else the description and that one
/// stream (as WebM audio of unknown codec).
pub fn ytdlp_media(info: &RawYtDlpInfo) -> (r: Result<ExtractedMedia, YoutubeAudioError>)
    ensures
        text_or(info.url, Seq::<char>::empty()).len() == 0 ==> (r matches Err(
            YoutubeAudioError::NoAudioStreamFound,
        )),
        text_or(info.url, Seq::<char>::empty()).len() > 0 ==> (r matches Ok(media) && ytdlp_metadata(
            media.metadata,
            *info,
        ) && media.streams@.len() == 1 && media.streams@[0]@ == ytdlp_stream(text_or(info.url, Seq::<char>::empty()))),
{
    let named: Option<String> = match &info.uploader {
        Some(u) => copy_text(u),
        None => match &info.channel {
            Some(c) => copy_text(c),
            None => None,
        },
    };
    proof {
        reveal_strlit("");
        assert(""@ =~= Seq::<char>::empty());
    }
    let metadata = VideoMetadata {
        id: text_or_default(&info.id, ""),
        title: text_or_default(&info.title, "Audio"),
        author: text_or_default(&named, "Unknown"),
        duration_seconds: match info.duration_seconds {
            Some(d) => d,
            None => 0,
        },
        view_count: match info.view_count {
            Some(v) => v,
            None => 0,
        },
        thumbnail_url: copy_text(&info.thumbnail),
        description: copy_text(&info.description),
    };
    let url = text_or_default(&info.url, "");
    proof {
        reveal_strlit("");
    }
    if url.unicode_len() == 0 {
        return Err(YoutubeAudioError::NoAudioStreamFound);
    }
    let stream = AudioStreamInfo {
        url,
        mime_type: string_from("audio/webm"),
        bitrate: 0,
        sample_rate: None,
        content_length: None,
        container: string_from("webm"),
        audio_codec: string_from("unknown"),
    };
    let mut streams: Vec<AudioStreamInfo> = Vec::new();
    streams.push(stream);
    assert(ytdlp_metadata(metadata, *info));
    assert(streams@[0]@ == ytdlp_stream(text_or(info.url, Seq::<char>::empty())));
    Ok(ExtractedMedia { metadata, streams })
}

/// The arguments of a `yt-dlp` run that downloads `url_or_id` as audio in
/// the format `format_arg` at the quality `quality`, written to
/// `output_template`, with `--add-metadata` when `embed_metadata`.
pub open spec fn download_args_spec(
    format_arg: Seq<char>,
    quality: Seq<char>,
    output_template: Seq<char>,
    embed_metadata: bool,
    url_or_id: Seq<char>,
) -> Seq<Seq<char>> {
    seq![
        "-x"@,
        "--audio-format"@,
        format_arg,
        "--audio-quality"@,
        quality,
        "-o"@,
        output_template,
        "--no-playlist"@,
        "--no-warnings"@,
    ] + (if embed_metadata {
        seq!["--add-metadata"@]
    } else {
        Seq::empty()
    }) + seq![url_or_id]
}

/// The arguments of a `yt-dlp` run that downloads `url_or_id` as audio in
/// the format `format_arg` at the quality `quality`, written to
/// `output_template`, with the metadata embedded when `embed_metadata`.
pub fn download_args(
    format_arg: &str,
    quality: &str,
    output_template: &str,
    embed_metadata: bool,
    url_or_id: &str,
) -> (r: Vec<String>)
    ensures
        r@.len() == if embed_metadata {
            11int
        } else {
            10int
        },
        r@[0]@ == "-x"@,
        r@[1]@ == "--audio-format"@,
        r@[2]@ == format_arg@,
        r@[3]@ == "--audio-quality"@,
        r@[4]@ == quality@,
        r@[5]@ == "-o"@,
        r@[6]@ == output_template@,
        r@[7]@ == "--no-playlist"@,
        r@[8]@ == "--no-warnings"@,
        embed_metadata ==> r@[9]@ == "--add-metadata"@,
        r@.last()@ == url_or_id@,
        views(r@) == download_args_spec(format_arg@, quality@, output_template@, embed_metadata, url_or_id@),
{
    let mut r: Vec<String> = Vec::new();
    r.push(string_from("-x"));
    r.push(string_from("--audio-format"));
    r.push(string_from(format_arg));
    r.push(string_from("--audio-quality"));
    r.push(string_from(quality));
    r.push(string_from("-o"));
    r.push(string_from(output_template));
    r.push(string_from("--no-playlist"));
    r.push(string_from("--no-warnings"));
    if embed_metadata {
        r.push(string_from("--add-metadata"));
    }
    r.push(string_from(url_or_id));
    assert(views(r@) =~= download_args_spec(format_arg@, quality@, output_template@, embed_metadata, url_or_id@));
    r
}

/// Which file a `yt-dlp` download wrote: the expected one when it exists,
/// else the first of `entries` (the names in the output directory, in the
/// order listed) that begins with the file's title; `None` stands for the
/// expected one.
pub fn pick_downloaded_file(expected_exists: bool, entries: &Vec<String>, title: &str) -> (r: Option<usize>)
    ensures
        expected_exists ==> r is None,
        !expected_exists ==> match r {
            Some(i) => i < entries@.len() && (entries@[i as int]@).take(title@.len() as int) == title@
                && title@.len() <= entries@[i as int]@.len() && forall|j: int|
                0 <= j < i ==> !(title@.len() <= (#[trigger] entries@[j])@.len() && entries@[j]@.take(
                    title@.len() as int,
                ) == title@),
            None => forall|j: int|
                0 <= j < entries@.len() ==> !(title@.len() <= (#[trigger] entries@[j])@.len()
                    && entries@[j]@.take(title@.len() as int) == title@),
        },
{
    if expected_exists {
        return None;
    }
    let mut i: usize = 0;
    while i < entries.len()
        invariant
            !expected_exists,
            i <= entries@.len(),
            forall|j: int|
                0 <= j < i ==> !(title@.len() <= (#[trigger] entries@[j])@.len() && entries@[j]@.take(
                    title@.len() as int,
                ) == title@),
        decreases entries@.len() - i,
    {
        if starts_with_text(entries[i].as_str(), title) {
            return Some(i);
        }
        i = i + 1;
    }
    None
}

} // verus!
