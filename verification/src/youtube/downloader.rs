//! The choices of a download: the native path (YouTube's best stream,
//! fetched to a temporary file and converted) and when it gives way to
//! `yt-dlp`, with the progress reports and the result of each path.
//!
//! Fetching, converting, measuring and running `yt-dlp` are the caller's
//! part: it starts with `download_begin`, carries out each action (reporting
//! the events the actions carry), and hands the outcome to `native_next`
//! until the download is finished, failed or handed to `yt-dlp`.
use crate::text::{push_seq, string_from};
use crate::youtube::id::{error_is, extract_video_id, video_id_spec};
use crate::youtube::models::{AudioStreamInfo, VideoMetadata, YoutubeAudioError};
use vstd::prelude::*;

verus! {

/// A progress report of a download.
#[derive(Debug)]
pub enum ProgressEvent {
    /// The download of the video `video_id` starts.
    Initializing { video_id: String },
    /// The video's description is known.
    MetadataFetched { title: String, author: String },
    /// Bytes were fetched (the percentage, when the total is known, is
    /// computed by the caller from these).
    Downloading { bytes_downloaded: u64, total_bytes: Option<u64> },
    /// The fetched audio is being converted to the format `target_format`.
    Converting { target_format: String },
    /// The download is done: the file and its size.
    Finished { output_path: String, total_bytes: u64 },
}

/// A finished download: the file, what it holds, its format (by name) and
/// its size.
#[derive(Debug)]
pub struct DownloadedAudio {
    pub file_path: String,
    pub metadata: VideoMetadata,
    pub format: String,
    pub file_size_bytes: u64,
}

/// Whether `e` reports the start of the download of `video_id`.
pub open spec fn initializing(e: ProgressEvent, video_id: Seq<char>) -> bool {
    e matches ProgressEvent::Initializing { video_id: v } && v@ == video_id
}

/// Whether `e` reports the description `m`.
pub open spec fn metadata_fetched(e: ProgressEvent, m: VideoMetadata) -> bool {
    e matches ProgressEvent::MetadataFetched { title, author } && title == m.title && author == m.author
}

/// Whether `e` reports the end of a download of `size` bytes into `path`.
pub open spec fn finished(e: ProgressEvent, path: String, size: u64) -> bool {
    e matches ProgressEvent::Finished { output_path, total_bytes } && output_path == path && total_bytes == size
}

/// The end of a download: the `Finished` report and the result, which keeps
/// the requested format.
pub fn finish_download(file_path: String, metadata: VideoMetadata, format: String, size: u64) -> (r: (
    ProgressEvent,
    DownloadedAudio,
))
    ensures
        finished(r.0, file_path, size),
        r.1.file_path == file_path,
        r.1.metadata == metadata,
        r.1.format == format,
        r.1.file_size_bytes == size,
{
    let report = ProgressEvent::Finished { output_path: file_path.clone(), total_bytes: size };
    (report, DownloadedAudio { file_path, metadata, format, file_size_bytes: size })
}

/// The reports of a `yt-dlp` download once it knows the video's
/// description, before it runs: the description, then a start with nothing
/// fetched yet.
pub fn ytdlp_reports(metadata: &VideoMetadata) -> (r: Vec<ProgressEvent>)
    ensures
        r@.len() == 2,
        metadata_fetched(r@[0], *metadata),
        r@[1] matches ProgressEvent::Downloading { bytes_downloaded, total_bytes } && bytes_downloaded == 0
            && total_bytes is None,
{
    let mut r: Vec<ProgressEvent> = Vec::new();
    r.push(ProgressEvent::MetadataFetched { title: metadata.title.clone(), author: metadata.author.clone() });
    r.push(ProgressEvent::Downloading { bytes_downloaded: 0, total_bytes: None });
    r
}

/// The name of the temporary file the stream of `video_id` is fetched to:
/// `temp_<id>.<container>`.
pub fn temp_file_name(video_id: &str, container: &str) -> (r: String)
    ensures
        r@ == "temp_"@ + video_id@ + "."@ + container@,
{
    let mut r = string_from("temp_");
    push_seq(&mut r, video_id);
    push_seq(&mut r, ".");
    push_seq(&mut r, container);
    r
}

/// What a download is for: the video and the output format (by name).
#[derive(Debug)]
pub struct DownloadJob {
    pub video_id: String,
    pub format: String,
}

/// Where the native path stands.
#[derive(Debug)]
pub enum NativeStep {
    /// The video's description and streams were asked for.
    Extracting,
    /// The best stream is being fetched to this temporary file.
    Fetching { temp_file: String, metadata: VideoMetadata },
    /// This temporary file is being converted.
    Converting { temp_file: String, metadata: VideoMetadata },
    /// The converted file is being measured (the temporary file removed).
    Measuring { file_path: String, metadata: VideoMetadata },
}

/// What the caller does next.
#[derive(Debug)]
pub enum DownloadAction {
    /// Ask for the video's description and streams.
    Extract,
    /// Report `report`, then fetch the stream at `url` to `temp_file`.
    Fetch { url: String, temp_file: String, report: ProgressEvent },
    /// Report `report`, then convert `temp_file`.
    Convert { temp_file: String, report: ProgressEvent },
    /// Remove `temp_file`, then measure the converted `file_path`.
    Measure { temp_file: String, file_path: String },
    /// Remove `remove` (when there is one), then download with `yt-dlp`.
    UseYtDlp { remove: Option<String> },
    /// Report `report` and answer with `result`.
    Finish { report: ProgressEvent, result: DownloadedAudio },
    /// Answer with this error.
    Fail(YoutubeAudioError),
}

/// What came of the last action.
#[derive(Debug)]
pub enum DownloadEvent {
    /// The extraction: the description and the best stream, or `None` when
    /// it failed or found no stream.
    Extracted(Option<(VideoMetadata, AudioStreamInfo)>),
    /// Whether the fetch succeeded.
    Fetched(bool),
    /// The converted file, or `None` when the conversion failed.
    Converted(Option<String>),
    /// The size of the converted file, or the reason it could not be read.
    Measured(Result<u64, String>),
}

/// The start of the download of `url_or_id` into the format `format`: the
/// video id is read first (its error ends the download); then the start is
/// reported with that id, the caller makes the output directory (a failure
/// ends the download with that I/O error), and carries out the action:
/// `yt-dlp` right away when it is preferred, else the extraction.
pub fn download_begin(url_or_id: &str, format: String, prefer_yt_dlp: bool) -> (r: Result<
    (ProgressEvent, DownloadJob, Option<NativeStep>, DownloadAction),
    YoutubeAudioError,
>)
    ensures
        match video_id_spec(url_or_id@) {
            Err(k) => r matches Err(e) && error_is(e, k),
            Ok(id) => r matches Ok(b) && initializing(b.0, id) && b.1.video_id@ == id && b.1.format == format && (
            if prefer_yt_dlp {
                b.2 is None && (b.3 matches DownloadAction::UseYtDlp { remove } && remove is None)
            } else {
                (b.2 matches Some(NativeStep::Extracting)) && b.3 is Extract
            }),
        },
{
    let video_id = match extract_video_id(url_or_id) {
        Ok(v) => v,
        Err(e) => {
            return Err(e);
        },
    };
    let report = ProgressEvent::Initializing { video_id: video_id.clone() };
    let job = DownloadJob { video_id, format };
    if prefer_yt_dlp {
        Ok((report, job, None, DownloadAction::UseYtDlp { remove: None }))
    } else {
        Ok((report, job, Some(NativeStep::Extracting), DownloadAction::Extract))
    }
}

/// What `native_next` does: the step after `step` gave `event`, and the
/// action that goes with it (see `native_next`).
pub open spec fn native_step_ok(
    step: NativeStep,
    job: DownloadJob,
    event: DownloadEvent,
    r: (Option<NativeStep>, DownloadAction),
) -> bool {
    match (step, event) {
        (NativeStep::Extracting, DownloadEvent::Extracted(Some((m, s)))) => (r.0 matches Some(
            NativeStep::Fetching { temp_file, metadata },
        ) && temp_file@ == "temp_"@ + job.video_id@ + "."@ + s.container@ && metadata == m) && (r.1 matches DownloadAction::Fetch {
            url,
            temp_file: t,
            report,
        } && url == s.url && t@ == "temp_"@ + job.video_id@ + "."@ + s.container@ && metadata_fetched(report, m)),
        (NativeStep::Fetching { temp_file, metadata }, DownloadEvent::Fetched(true)) => (r.0 matches Some(
            NativeStep::Converting { temp_file: t, metadata: m },
        ) && t == temp_file && m == metadata) && (r.1 matches DownloadAction::Convert { temp_file: t, report } && t
            == temp_file && (report matches ProgressEvent::Converting { target_format } && target_format == job.format)),
        (NativeStep::Fetching { temp_file, metadata }, DownloadEvent::Fetched(false)) => r.0 is None && (r.1 matches DownloadAction::UseYtDlp {
            remove,
        } && remove == Some(temp_file)),
        (NativeStep::Converting { temp_file, metadata }, DownloadEvent::Converted(Some(path))) => (r.0 matches Some(
            NativeStep::Measuring { file_path, metadata: m },
        ) && file_path == path && m == metadata) && (r.1 matches DownloadAction::Measure { temp_file: t, file_path } && t
            == temp_file && file_path == path),
        (NativeStep::Converting { temp_file, metadata }, DownloadEvent::Converted(None)) => r.0 is None && (r.1 matches DownloadAction::UseYtDlp {
            remove,
        } && remove == Some(temp_file)),
        (NativeStep::Measuring { file_path, metadata }, DownloadEvent::Measured(Ok(size))) => r.0 is None && (r.1 matches DownloadAction::Finish {
            report,
            result,
        } && finished(report, file_path, size) && result.file_path == file_path && result.metadata == metadata
            && result.format == job.format && result.file_size_bytes == size),
        (NativeStep::Measuring { file_path, metadata }, DownloadEvent::Measured(Err(e))) => r.0 is None && (r.1 matches DownloadAction::Fail(
            YoutubeAudioError::Io(m),
        ) && m == e),
        _ => r.0 is None && (r.1 matches DownloadAction::UseYtDlp { remove } && remove is None),
    }
}

/// The step after `step` gave `event`. A best stream is fetched to
/// `temp_<id>.<container>` after its description is reported; a fetched
/// file is converted after the conversion to the job's format is reported;
/// a converted file is measured once the temporary file is removed; a
/// measured file finishes the download: the `Finished` report with the file
/// and its size, and the result with the description and the job's format.
/// A failed extraction, fetch or conversion gives way to `yt-dlp` (after
/// the temporary file is removed when there is one); a file that cannot be
/// measured ends the download with that I/O error. An event that does not
/// answer the step also gives way to `yt-dlp`.
pub fn native_next(step: NativeStep, job: &DownloadJob, event: DownloadEvent) -> (r: (
    Option<NativeStep>,
    DownloadAction,
))
    ensures
        native_step_ok(step, *job, event, r),
{
    match (step, event) {
        (NativeStep::Extracting, DownloadEvent::Extracted(Some((m, s)))) => {
            let temp_file = temp_file_name(job.video_id.as_str(), s.container.as_str());
            let t = temp_file.clone();
            let report = ProgressEvent::MetadataFetched { title: m.title.clone(), author: m.author.clone() };
            (Some(NativeStep::Fetching { temp_file, metadata: m }), DownloadAction::Fetch { url: s.url, temp_file: t, report })
        },
        (NativeStep::Fetching { temp_file, metadata }, DownloadEvent::Fetched(ok)) => {
            if ok {
                let t = temp_file.clone();
                let report = ProgressEvent::Converting { target_format: job.format.clone() };
                (Some(NativeStep::Converting { temp_file, metadata }), DownloadAction::Convert { temp_file: t, report })
            } else {
                (None, DownloadAction::UseYtDlp { remove: Some(temp_file) })
            }
        },
        (NativeStep::Converting { temp_file, metadata }, DownloadEvent::Converted(converted)) => {
            match converted {
                Some(path) => {
                    let p = path.clone();
                    (Some(NativeStep::Measuring { file_path: path, metadata }), DownloadAction::Measure { temp_file, file_path: p })
                },
                None => (None, DownloadAction::UseYtDlp { remove: Some(temp_file) }),
            }
        },
        (NativeStep::Measuring { file_path, metadata }, DownloadEvent::Measured(measured)) => {
            match measured {
                Ok(size) => {
                    let (report, result) = finish_download(file_path, metadata, job.format.clone(), size);
                    (None, DownloadAction::Finish { report, result })
                },
                Err(e) => (None, DownloadAction::Fail(YoutubeAudioError::Io(e))),
            }
        },
        _ => (None, DownloadAction::UseYtDlp { remove: None }),
    }
}

/// The step the `i`-th event of a native run answers: the extraction first,
/// then the step the previous event led to.
pub open spec fn step_before(outs: Seq<(Option<NativeStep>, DownloadAction)>, i: int) -> NativeStep {
    if i == 0 {
        NativeStep::Extracting
    } else {
        outs[i - 1].0->0
    }
}

/// Whether `outs` is what `native_next` gave, event by event, for the
/// native path of `job` started by `download_begin`: each event answers the
/// step the previous one led to, and the run goes on only while there is a
/// step.
pub open spec fn native_run(
    job: DownloadJob,
    events: Seq<DownloadEvent>,
    outs: Seq<(Option<NativeStep>, DownloadAction)>,
) -> bool {
    &&& outs.len() == events.len()
    &&& forall|i: int| 0 < i < outs.len() ==> (#[trigger] outs[i - 1]).0 is Some
    &&& forall|i: int| 0 <= i < outs.len() ==> native_step_ok(step_before(outs, i), job, events[i], #[trigger] outs[i])
}

/// A native download that finishes took exactly four steps and reported,
/// after the start, the video's description, the conversion to the job's
/// format, and last the finished file with its size; the result keeps the
/// job's format and the reported description.
pub proof fn lemma_native_run_reports(
    job: DownloadJob,
    events: Seq<DownloadEvent>,
    outs: Seq<(Option<NativeStep>, DownloadAction)>,
)
    requires
        native_run(job, events, outs),
        outs.len() > 0,
        outs.last().1 is Finish,
    ensures
        outs.len() == 4,
        outs[0].1 matches DownloadAction::Fetch { report, .. } && outs[3].1 matches DownloadAction::Finish {
            report: last,
            result,
        } && metadata_fetched(report, result.metadata) && finished(last, result.file_path, result.file_size_bytes)
            && result.format == job.format,
        outs[1].1 matches DownloadAction::Convert { report, .. } && (report matches ProgressEvent::Converting {
            target_format,
        } && target_format == job.format),
        outs[2].1 is Measure,
{
    let n = outs.len() as int;
    assert(native_step_ok(step_before(outs, n - 1), job, events[n - 1], outs[n - 1]));
    let s3 = step_before(outs, n - 1);
    assert(s3 is Measuring);
    assert(n >= 2);
    assert(outs[n - 2].0 is Some);
    assert(native_step_ok(step_before(outs, n - 2), job, events[n - 2], outs[n - 2]));
    assert(step_before(outs, n - 2) is Converting);
    assert(n >= 3);
    assert(outs[n - 3].0 is Some);
    assert(native_step_ok(step_before(outs, n - 3), job, events[n - 3], outs[n - 3]));
    assert(step_before(outs, n - 3) is Fetching);
    assert(n >= 4);
    assert(outs[n - 4].0 is Some);
    assert(native_step_ok(step_before(outs, n - 4), job, events[n - 4], outs[n - 4]));
    assert(step_before(outs, n - 4) is Extracting);
    if n > 4 {
        assert(outs[n - 5].0 is Some);
        assert(native_step_ok(step_before(outs, n - 5), job, events[n - 5], outs[n - 5]));
        assert(false);
    }
}

} // verus!
