//! The steps of a download with `yt-dlp`: the video's description first,
//! then the run (with its format argument and output template), then the
//! file it wrote, found and measured.
//!
//! Fetching the description, running the program and looking at the disk
//! are the caller's part: it starts with the step `FetchingInfo` and the
//! action `FetchInfo`, carries out each action (reporting the events the
//! actions carry), and hands the outcome to `ytdlp_next` until the
//! download is finished or failed.
use crate::adb_device::commands::lossy_decode;
use crate::text::{chars_of, push_seq, starts_with_text, string_from, views};
use crate::youtube::downloader::{finish_download, finished, metadata_fetched, ytdlp_reports, DownloadedAudio, ProgressEvent};
use crate::youtube::models::{VideoMetadata, YoutubeAudioError};
use crate::youtube::ytdlp::{download_args, download_args_spec, launch_error, run_outcome};
use vstd::prelude::*;

verus! {

/// `dir` joined with `name` as `Path::join` joins them: a `name` that
/// starts with `/` replaces `dir`, an empty `dir` gives `name`, and a
/// separator is put between them unless `dir` ends with one.
pub open spec fn join_path(dir: Seq<char>, name: Seq<char>) -> Seq<char> {
    if name.len() > 0 && name[0] == '/' {
        name
    } else if dir.len() == 0 {
        name
    } else if dir.last() == '/' {
        dir + name
    } else {
        dir + seq!['/'] + name
    }
}

/// `dir` joined with `name` (see `join_path`).
pub fn path_join(dir: &str, name: &str) -> (r: String)
    ensures
        r@ == join_path(dir@, name@),
{
    let d = chars_of(dir);
    let n = chars_of(name);
    if n.len() > 0 && n[0] == '/' {
        return string_from(name);
    }
    if d.len() == 0 {
        return string_from(name);
    }
    let mut r = string_from(dir);
    if d[d.len() - 1] != '/' {
        crate::text::push_char(&mut r, '/');
    }
    push_seq(&mut r, name);
    r
}

/// What a `yt-dlp` download is for: the link or id, the output directory,
/// the format by its extension (and whether it is the "best" format, which
/// `yt-dlp` picks itself), the quality argument, and whether the metadata
/// is embedded.
#[derive(Debug)]
pub struct YtDlpJob {
    pub url_or_id: String,
    pub output_dir: String,
    pub format: String,
    pub best: bool,
    pub quality: String,
    pub embed_metadata: bool,
}

/// The `--audio-format` argument: `best` for the best format, else the
/// format's extension.
pub open spec fn format_arg_spec(job: YtDlpJob) -> Seq<char> {
    if job.best {
        "best"@
    } else {
        job.format@
    }
}

/// The output template of a run for the file title `title`:
/// `<dir>/<title>.%(ext)s`.
pub open spec fn output_template(job: YtDlpJob, title: Seq<char>) -> Seq<char> {
    join_path(job.output_dir@, title + ".%(ext)s"@)
}

/// The file a run for the file title `title` is expected to write:
/// `<dir>/<title>.<format>`.
pub open spec fn expected_file(job: YtDlpJob, title: Seq<char>) -> Seq<char> {
    join_path(job.output_dir@, title + "."@ + job.format@)
}

/// The first of `names` that begins with `title`, if any.
pub open spec fn first_with_prefix(names: Seq<Seq<char>>, title: Seq<char>) -> Option<Seq<char>>
    decreases names.len(),
{
    if names.len() == 0 {
        None
    } else if title.len() <= names[0].len() && names[0].take(title.len() as int) == title {
        Some(names[0])
    } else {
        first_with_prefix(names.drop_first(), title)
    }
}

/// Where a `yt-dlp` download stands.
#[derive(Debug)]
pub enum YtDlpStep {
    /// The video's description was asked for.
    FetchingInfo,
    /// `yt-dlp` runs; `file_title` is the description's title made fit for
    /// a file name.
    Running { metadata: VideoMetadata, file_title: String },
    /// Whether the expected file exists is asked.
    Checking { metadata: VideoMetadata, file_title: String, expected: String },
    /// The output directory is listed.
    Listing { metadata: VideoMetadata, file_title: String, expected: String },
    /// The written file is measured.
    Measuring { metadata: VideoMetadata, file_path: String },
}

/// What the caller does next.
#[derive(Debug)]
pub enum YtDlpAction {
    /// Ask for the video's description.
    FetchInfo,
    /// Report `reports`, then run `yt-dlp` with `args`.
    Run { reports: Vec<ProgressEvent>, args: Vec<String> },
    /// Ask whether `path` exists.
    CheckExists { path: String },
    /// List the names in the output directory, in the order read, up to the
    /// first entry that cannot be read.
    ListDir,
    /// Ask for the size of `path`.
    Measure { path: String },
    /// Report `report` and answer with `result`.
    Finish { report: ProgressEvent, result: DownloadedAudio },
    /// Answer with this error.
    Fail(YoutubeAudioError),
}

/// What came of the last action.
#[derive(Debug)]
pub enum YtDlpEvent {
    /// The description and its title made fit for a file name, or the
    /// error of the request.
    InfoFetched(Result<(VideoMetadata, String), YoutubeAudioError>),
    /// The run: whether it succeeded, its exit code and its error output;
    /// or, when it could not be started, whether the program is missing
    /// and the error's message.
    Ran(Result<(bool, Option<i32>, Vec<u8>), (bool, String)>),
    /// Whether the expected file exists.
    Exists(bool),
    /// The names listed, or the reason the directory could not be read.
    Listed(Result<Vec<String>, String>),
    /// The size of the file, or `None` when it could not be read.
    Measured(Option<u64>),
}

/// Whether `event` is the outcome of the action that goes with `step`.
pub open spec fn answers(step: YtDlpStep, event: YtDlpEvent) -> bool {
    match step {
        YtDlpStep::FetchingInfo => event is InfoFetched,
        YtDlpStep::Running { .. } => event is Ran,
        YtDlpStep::Checking { .. } => event is Exists,
        YtDlpStep::Listing { .. } => event is Listed,
        YtDlpStep::Measuring { .. } => event is Measured,
    }
}

/// What `ytdlp_next` does: the step after `step` gave `event`, and the
/// action that goes with it (see `ytdlp_next`).
pub open spec fn ytdlp_step_ok(
    step: YtDlpStep,
    job: YtDlpJob,
    event: YtDlpEvent,
    r: (Option<YtDlpStep>, YtDlpAction),
) -> bool {
    match (step, event) {
        (YtDlpStep::FetchingInfo, YtDlpEvent::InfoFetched(Err(e))) => r.0 is None && r.1 == YtDlpAction::Fail(e),
        (YtDlpStep::FetchingInfo, YtDlpEvent::InfoFetched(Ok((m, t)))) => r.0 == Some(
            YtDlpStep::Running { metadata: m, file_title: t },
        ) && (r.1 matches YtDlpAction::Run { reports, args } && reports@.len() == 2 && metadata_fetched(
            reports@[0],
            m,
        ) && (reports@[1] matches ProgressEvent::Downloading { bytes_downloaded, total_bytes }
            && bytes_downloaded == 0 && total_bytes is None) && views(args@) == download_args_spec(
            format_arg_spec(job),
            job.quality@,
            output_template(job, t@),
            job.embed_metadata,
            job.url_or_id@,
        )),
        (YtDlpStep::Running { .. }, YtDlpEvent::Ran(Err((not_found, message)))) => r.0 is None && (if not_found {
            r.1 == YtDlpAction::Fail(YoutubeAudioError::YtDlpNotFound)
        } else {
            r.1 == YtDlpAction::Fail(YoutubeAudioError::Io(message))
        }),
        (YtDlpStep::Running { metadata, file_title }, YtDlpEvent::Ran(Ok((success, code, stderr)))) => if success {
            (r.0 matches Some(YtDlpStep::Checking { metadata: m, file_title: t, expected }) && m == metadata
                && t == file_title && expected@ == expected_file(job, file_title@)) && (r.1 matches YtDlpAction::CheckExists {
                path,
            } && path@ == expected_file(job, file_title@))
        } else {
            r.0 is None && (r.1 matches YtDlpAction::Fail(YoutubeAudioError::YtDlpFailed { status, stderr: e })
                && status == code && e@ == lossy_decode(stderr@))
        },
        (YtDlpStep::Checking { metadata, file_title, expected }, YtDlpEvent::Exists(exists)) => if exists {
            r.0 == Some(YtDlpStep::Measuring { metadata, file_path: expected }) && (r.1 matches YtDlpAction::Measure {
                path,
            } && path == expected)
        } else {
            r.0 == Some(YtDlpStep::Listing { metadata, file_title, expected }) && r.1 is ListDir
        },
        (YtDlpStep::Listing { .. }, YtDlpEvent::Listed(Err(e))) => r.0 is None && r.1 == YtDlpAction::Fail(
            YoutubeAudioError::Io(e),
        ),
        (YtDlpStep::Listing { metadata, file_title, expected }, YtDlpEvent::Listed(Ok(names))) => {
            let path = match first_with_prefix(views(names@), file_title@) {
                Some(n) => join_path(job.output_dir@, n),
                None => expected@,
            };
            (r.0 matches Some(YtDlpStep::Measuring { metadata: m, file_path }) && m == metadata && file_path@ == path)
                && (r.1 matches YtDlpAction::Measure { path: p } && p@ == path)
        },
        (YtDlpStep::Measuring { metadata, file_path }, YtDlpEvent::Measured(size)) => {
            let n = match size {
                Some(s) => s,
                None => 0,
            };
            r.0 is None && (r.1 matches YtDlpAction::Finish { report, result } && finished(report, file_path, n)
                && result.file_path == file_path && result.metadata == metadata && result.format == job.format
                && result.file_size_bytes == n)
        },
        _ => false,
    }
}

/// The first of `names` beginning with `title`, by position.
fn find_prefixed(names: &Vec<String>, title: &str) -> (r: Option<usize>)
    ensures
        match r {
            Some(i) => i < names@.len() && first_with_prefix(views(names@), title@) == Some(names@[i as int]@),
            None => first_with_prefix(views(names@), title@) is None,
        },
{
    let ghost all = views(names@);
    let mut i: usize = 0;
    assert(all.skip(0) =~= all);
    while i < names.len()
        invariant
            all == views(names@),
            i <= names@.len(),
            first_with_prefix(all, title@) == first_with_prefix(all.skip(i as int), title@),
        decreases names@.len() - i,
    {
        let ghost rest = all.skip(i as int);
        assert(rest[0] == names@[i as int]@);
        assert(rest.drop_first() =~= all.skip(i + 1));
        if starts_with_text(names[i].as_str(), title) {
            return Some(i);
        }
        i = i + 1;
    }
    assert(all.skip(i as int).len() == 0);
    None
}

/// The step after `step` gave `event` (which answers it). The description
/// is reported and `yt-dlp` is run with the format argument (`best`, or the
/// format's extension), the quality, the output template
/// `<dir>/<title>.%(ext)s`, `--add-metadata` when asked, and the link. A
/// run that could not be started fails with `YtDlpNotFound` or the I/O
/// error; one that failed fails with its exit code and error output. After
/// a successful run, the expected file `<dir>/<title>.<format>` is used
/// when it exists, else the first listed name that begins with the title
/// (joined to the directory), else the expected file; a directory that
/// cannot be listed fails with the I/O error. The file is measured (an
/// unreadable size counts as 0) and the download finishes with the
/// `Finished` report and the result in the job's format.
pub fn ytdlp_next(step: YtDlpStep, job: &YtDlpJob, event: YtDlpEvent) -> (r: (Option<YtDlpStep>, YtDlpAction))
    requires
        answers(step, event),
    ensures
        ytdlp_step_ok(step, *job, event, r),
{
    match (step, event) {
        (YtDlpStep::FetchingInfo, YtDlpEvent::InfoFetched(fetched)) => match fetched {
            Err(e) => (None, YtDlpAction::Fail(e)),
            Ok((m, t)) => {
                let reports = ytdlp_reports(&m);
                let format_arg = if job.best {
                    string_from("best")
                } else {
                    string_from(job.format.as_str())
                };
                let mut name = string_from(t.as_str());
                push_seq(&mut name, ".%(ext)s");
                let template = path_join(job.output_dir.as_str(), name.as_str());
                let args = download_args(
                    format_arg.as_str(),
                    job.quality.as_str(),
                    template.as_str(),
                    job.embed_metadata,
                    job.url_or_id.as_str(),
                );
                (Some(YtDlpStep::Running { metadata: m, file_title: t }), YtDlpAction::Run { reports, args })
            },
        },
        (YtDlpStep::Running { metadata, file_title }, YtDlpEvent::Ran(ran)) => match ran {
            Err((not_found, message)) => (None, YtDlpAction::Fail(launch_error(not_found, message))),
            Ok((success, code, stderr)) => match run_outcome(success, code, &stderr) {
                Err(e) => (None, YtDlpAction::Fail(e)),
                Ok(()) => {
                    let mut name = string_from(file_title.as_str());
                    push_seq(&mut name, ".");
                    push_seq(&mut name, job.format.as_str());
                    let expected = path_join(job.output_dir.as_str(), name.as_str());
                    let path = expected.clone();
                    (Some(YtDlpStep::Checking { metadata, file_title, expected }), YtDlpAction::CheckExists { path })
                },
            },
        },
        (YtDlpStep::Checking { metadata, file_title, expected }, YtDlpEvent::Exists(exists)) => {
            if exists {
                let path = expected.clone();
                (Some(YtDlpStep::Measuring { metadata, file_path: expected }), YtDlpAction::Measure { path })
            } else {
                (Some(YtDlpStep::Listing { metadata, file_title, expected }), YtDlpAction::ListDir)
            }
        },
        (YtDlpStep::Listing { metadata, file_title, expected }, YtDlpEvent::Listed(listed)) => match listed {
            Err(e) => (None, YtDlpAction::Fail(YoutubeAudioError::Io(e))),
            Ok(names) => {
                let file_path = match find_prefixed(&names, file_title.as_str()) {
                    Some(i) => path_join(job.output_dir.as_str(), names[i].as_str()),
                    None => expected,
                };
                let path = file_path.clone();
                (Some(YtDlpStep::Measuring { metadata, file_path }), YtDlpAction::Measure { path })
            },
        },
        (YtDlpStep::Measuring { metadata, file_path }, YtDlpEvent::Measured(size)) => {
            let n: u64 = match size {
                Some(s) => s,
                None => 0,
            };
            let (report, result) = finish_download(file_path, metadata, job.format.clone(), n);
            (None, YtDlpAction::Finish { report, result })
        },
        _ => {
            proof {
                assert(false);
            }
            (None, YtDlpAction::ListDir)
        },
    }
}

/// The step the `i`-th event of a `yt-dlp` download answers: the request
/// for the description first, then the step the previous event led to.
pub open spec fn ytdlp_step_before(outs: Seq<(Option<YtDlpStep>, YtDlpAction)>, i: int) -> YtDlpStep {
    if i == 0 {
        YtDlpStep::FetchingInfo
    } else {
        outs[i - 1].0->0
    }
}

/// Whether `outs` is what `ytdlp_next` gave, event by event, for `job`:
/// each event answers the step the previous one led to, and the download
/// goes on only while there is a step.
pub open spec fn ytdlp_run(job: YtDlpJob, events: Seq<YtDlpEvent>, outs: Seq<(Option<YtDlpStep>, YtDlpAction)>) -> bool {
    &&& outs.len() == events.len()
    &&& forall|i: int| 0 < i < outs.len() ==> (#[trigger] outs[i - 1]).0 is Some
    &&& forall|i: int|
        0 <= i < outs.len() ==> ytdlp_step_ok(ytdlp_step_before(outs, i), job, events[i], #[trigger] outs[i])
}

/// A `yt-dlp` download that finishes ran `yt-dlp` once, first of all its
/// actions but the request for the description, after reporting that
/// description; it ends with the `Finished` report of the file and its
/// size, and the result keeps the job's format and the description.
pub proof fn lemma_ytdlp_run_reports(job: YtDlpJob, events: Seq<YtDlpEvent>, outs: Seq<(Option<YtDlpStep>, YtDlpAction)>)
    requires
        ytdlp_run(job, events, outs),
        outs.len() > 0,
        outs.last().1 is Finish,
    ensures
        outs.len() == 4 || outs.len() == 5,
        outs[0].1 matches YtDlpAction::Run { reports, .. } && outs.last().1 matches YtDlpAction::Finish {
            report,
            result,
        } && metadata_fetched(reports@[0], result.metadata) && finished(report, result.file_path, result.file_size_bytes)
            && result.format == job.format,
        outs[1].1 is CheckExists,
{
    let n = outs.len() as int;
    assert(ytdlp_step_ok(ytdlp_step_before(outs, n - 1), job, events[n - 1], outs[n - 1]));
    assert(ytdlp_step_before(outs, n - 1) is Measuring);
    assert(n >= 2);
    assert(outs[n - 2].0 is Some);
    assert(ytdlp_step_ok(ytdlp_step_before(outs, n - 2), job, events[n - 2], outs[n - 2]));
    let s2 = ytdlp_step_before(outs, n - 2);
    assert(s2 is Checking || s2 is Listing);
    assert(n >= 3);
    assert(outs[n - 3].0 is Some);
    assert(ytdlp_step_ok(ytdlp_step_before(outs, n - 3), job, events[n - 3], outs[n - 3]));
    let s3 = ytdlp_step_before(outs, n - 3);
    if s2 is Listing {
        assert(s3 is Checking);
        assert(n >= 4);
        assert(outs[n - 4].0 is Some);
        assert(ytdlp_step_ok(ytdlp_step_before(outs, n - 4), job, events[n - 4], outs[n - 4]));
        assert(ytdlp_step_before(outs, n - 4) is Running);
        assert(n >= 5);
        assert(outs[n - 5].0 is Some);
        assert(ytdlp_step_ok(ytdlp_step_before(outs, n - 5), job, events[n - 5], outs[n - 5]));
        assert(ytdlp_step_before(outs, n - 5) is FetchingInfo);
        if n > 5 {
            assert(outs[n - 6].0 is Some);
            assert(ytdlp_step_ok(ytdlp_step_before(outs, n - 6), job, events[n - 6], outs[n - 6]));
            assert(false);
        }
    } else {
        assert(s3 is Running);
        assert(n >= 4);
        assert(outs[n - 4].0 is Some);
        assert(ytdlp_step_ok(ytdlp_step_before(outs, n - 4), job, events[n - 4], outs[n - 4]));
        assert(ytdlp_step_before(outs, n - 4) is FetchingInfo);
        if n > 4 {
            assert(outs[n - 5].0 is Some);
            assert(ytdlp_step_ok(ytdlp_step_before(outs, n - 5), job, events[n - 5], outs[n - 5]));
            assert(false);
        }
    }
}

} // verus!
