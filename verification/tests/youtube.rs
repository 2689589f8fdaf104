use vortexdl::youtube::downloader::{
    download_begin, finish_download, native_next, temp_file_name, ytdlp_reports, DownloadAction,
    DownloadEvent, NativeStep, ProgressEvent,
};
use vortexdl::text::{char_is_whitespace, contains_text, parse_u32, parse_u64, starts_with_text, trimmed};
use vortexdl::youtube::extractor::YoutubeExtractor;
use vortexdl::youtube::ytdlp_download::{path_join, ytdlp_next, YtDlpAction, YtDlpEvent, YtDlpJob, YtDlpStep};
use vortexdl::youtube::id::extract_video_id;
use vortexdl::youtube::innertube::{
    audio_streams, innertube_media, sort_by_bitrate, video_metadata, RawFormat, RawVideoDetails,
};
use vortexdl::youtube::models::{AudioStreamInfo, VideoMetadata, YoutubeAudioError};
use vortexdl::youtube::ytdlp::{
    download_args, launch_error, pick_downloaded_file, probe_args, run_outcome, ytdlp_media,
    RawYtDlpInfo, YtDlpExtractor,
};

fn strings(v: &[&str]) -> Vec<String> {
    v.iter().map(|s| s.to_string()).collect()
}

#[test]
fn video_ids_from_links() {
    assert_eq!(extract_video_id("dQw4w9WgXcQ").unwrap(), "dQw4w9WgXcQ");
    assert_eq!(extract_video_id("  dQw4w9WgXcQ \n").unwrap(), "dQw4w9WgXcQ");
    assert_eq!(extract_video_id("https://www.youtube.com/watch?v=dQw4w9WgXcQ&t=1").unwrap(), "dQw4w9WgXcQ");
    assert_eq!(extract_video_id("https://youtu.be/dQw4w9WgXcQ?si=x").unwrap(), "dQw4w9WgXcQ");
    assert_eq!(extract_video_id("https://www.youtube.com/shorts/abcdefghijk").unwrap(), "abcdefghijk");
    assert_eq!(extract_video_id("https://www.youtube.com/embed/a_b-c_d-e_f").unwrap(), "a_b-c_d-e_f");
    match extract_video_id("https://example.com/watch") {
        Err(YoutubeAudioError::VideoIdNotFound(s)) => assert_eq!(s, "https://example.com/watch"),
        other => panic!("unexpected {other:?}"),
    }
    // Eleven characters but one of them is not allowed: read as a link.
    assert!(extract_video_id("abc def ghi").is_err());
}

#[test]
fn numbers_and_texts() {
    assert_eq!(parse_u64("123"), Some(123));
    assert_eq!(parse_u64("+7"), Some(7));
    assert_eq!(parse_u64("18446744073709551615"), Some(u64::MAX));
    assert_eq!(parse_u64("18446744073709551616"), None);
    for bad in ["", "+", "-1", " 1", "1a"] {
        assert_eq!(parse_u64(bad), None, "{bad}");
    }
    for n in [0u64, 7, 10, 12345, u64::MAX] {
        assert_eq!(parse_u64(&n.to_string()), Some(n));
    }
    assert_eq!(parse_u32("4294967295"), Some(u32::MAX));
    assert_eq!(parse_u32("4294967296"), None);
    assert!(contains_text("audio/webm; codecs=\"opus\"", "opus"));
    assert!(!contains_text("audio/mp4", "webm"));
    assert!(contains_text("x", ""));
    assert!(starts_with_text("audio/webm", "audio/"));
    assert!(!starts_with_text("video/mp4", "audio/"));
    assert_eq!(trimmed("  a b \t"), "a b");
}

fn details() -> RawVideoDetails {
    RawVideoDetails {
        title: Some("Song".into()),
        author: None,
        length_seconds: Some("215".into()),
        view_count: Some("not a number".into()),
        thumbnails: Some(vec![Some("small".into()), Some("large".into())]),
        short_description: None,
    }
}

fn format(mime: &str, url: Option<&str>, bitrate: Option<u64>) -> RawFormat {
    RawFormat {
        mime_type: Some(mime.into()),
        url: url.map(String::from),
        bitrate,
        audio_sample_rate: Some("48000".into()),
        content_length: Some("1234".into()),
    }
}

#[test]
fn innertube_metadata_defaults() {
    let m = video_metadata("vid".into(), &details());
    assert_eq!(m.id, "vid");
    assert_eq!(m.title, "Song");
    assert_eq!(m.author, "Unknown");
    assert_eq!(m.duration_seconds, 215);
    assert_eq!(m.view_count, 0);
    assert_eq!(m.thumbnail_url.as_deref(), Some("large"));
}

#[test]
fn innertube_streams_classified_and_sorted() {
    let formats = vec![
        format("audio/mp4; codecs=\"mp4a.40.2\"", Some("u1"), Some(128_000)),
        format("video/mp4", Some("u2"), Some(900_000)),
        format("audio/webm; codecs=\"opus\"", Some("u3"), Some(160_000)),
        format("audio/webm; codecs=\"opus\"", None, Some(999_999)),
        format("audio/ogg", Some("u4"), Some(128_000)),
        format("audio/x", Some("u5"), None),
    ];
    let listed = audio_streams(&formats);
    assert_eq!(listed.iter().map(|s| s.url.as_str()).collect::<Vec<_>>(), vec!["u1", "u3", "u4", "u5"]);
    assert_eq!((listed[0].container.as_str(), listed[0].audio_codec.as_str()), ("m4a", "aac"));
    assert_eq!((listed[1].container.as_str(), listed[1].audio_codec.as_str()), ("webm", "opus"));
    assert_eq!((listed[2].container.as_str(), listed[2].audio_codec.as_str()), ("audio", "unknown"));
    assert_eq!(listed[0].sample_rate, Some(48000));
    assert_eq!(listed[0].content_length, Some(1234));
    assert_eq!(listed[3].bitrate, 0);

    let sorted = sort_by_bitrate(&listed);
    // Highest first; the two of 128 kbit/s keep their order.
    assert_eq!(sorted.iter().map(|s| s.url.as_str()).collect::<Vec<_>>(), vec!["u3", "u1", "u4", "u5"]);

    let media = innertube_media("vid".into(), Some(details()), Some(formats)).unwrap();
    assert_eq!(media.streams[0].url, "u3");
    assert_eq!(media.metadata.id, "vid");
}

#[test]
fn innertube_errors() {
    match innertube_media("v".into(), None, None) {
        Err(YoutubeAudioError::DownloadFailed(m)) => assert_eq!(m, "Missing videoDetails"),
        other => panic!("unexpected {other:?}"),
    }
    let only_video = vec![format("video/mp4", Some("u"), Some(1))];
    assert!(matches!(
        innertube_media("v".into(), Some(details()), Some(only_video)),
        Err(YoutubeAudioError::NoAudioStreamFound)
    ));
    assert!(matches!(innertube_media("v".into(), Some(details()), None), Err(YoutubeAudioError::NoAudioStreamFound)));
}

#[test]
fn bitrate_cut_to_32_bits() {
    let listed = audio_streams(&vec![format("audio/webm", Some("u"), Some((1u64 << 32) + 5))]);
    assert_eq!(listed[0].bitrate, 5);
}

fn info(url: Option<&str>) -> RawYtDlpInfo {
    RawYtDlpInfo {
        id: None,
        title: None,
        uploader: None,
        channel: Some(Some("Chan".into())),
        duration_seconds: Some(200),
        view_count: None,
        thumbnail: Some("t".into()),
        description: None,
        url: url.map(String::from),
    }
}

#[test]
fn ytdlp_answers() {
    let media = ytdlp_media(&info(Some("https://stream"))).unwrap();
    assert_eq!(media.metadata.id, "");
    assert_eq!(media.metadata.title, "Audio");
    assert_eq!(media.metadata.author, "Chan");
    assert_eq!(media.metadata.duration_seconds, 200);
    assert_eq!(media.streams.len(), 1);
    let s: &AudioStreamInfo = &media.streams[0];
    assert_eq!((s.url.as_str(), s.mime_type.as_str(), s.container.as_str(), s.audio_codec.as_str()), ("https://stream", "audio/webm", "webm", "unknown"));
    assert_eq!(s.bitrate, 0);

    let mut present_but_not_text = info(Some("u"));
    present_but_not_text.uploader = Some(None);
    assert_eq!(ytdlp_media(&present_but_not_text).unwrap().metadata.author, "Unknown");

    assert!(matches!(ytdlp_media(&info(None)), Err(YoutubeAudioError::NoAudioStreamFound)));
    assert!(matches!(ytdlp_media(&info(Some(""))), Err(YoutubeAudioError::NoAudioStreamFound)));
}

#[test]
fn ytdlp_runs() {
    assert_eq!(probe_args("t"), strings(&["-j", "-f", "bestaudio/best", "--no-playlist", "--no-warnings", "t"]));
    assert!(matches!(launch_error(true, "x".into()), YoutubeAudioError::YtDlpNotFound));
    assert!(matches!(launch_error(false, "x".into()), YoutubeAudioError::Io(ref m) if m == "x"));
    assert!(run_outcome(true, Some(0), &Vec::new()).is_ok());
    match run_outcome(false, Some(1), &b"ERROR: bad".to_vec()) {
        Err(YoutubeAudioError::YtDlpFailed { status, stderr }) => {
            assert_eq!(status, Some(1));
            assert_eq!(stderr, "ERROR: bad");
        }
        other => panic!("unexpected {other:?}"),
    }
    assert_eq!(
        download_args("mp3", "320", "/out/T.%(ext)s", true, "url"),
        strings(&["-x", "--audio-format", "mp3", "--audio-quality", "320", "-o", "/out/T.%(ext)s", "--no-playlist", "--no-warnings", "--add-metadata", "url"])
    );
    assert_eq!(download_args("best", "0", "o", false, "u").len(), 10);
    let entries = strings(&["other.mp3", "Title.opus", "Title.mp3"]);
    assert_eq!(pick_downloaded_file(true, &entries, "Title"), None);
    assert_eq!(pick_downloaded_file(false, &entries, "Title"), Some(1));
    assert_eq!(pick_downloaded_file(false, &entries, "Nope"), None);
    let _ = YtDlpExtractor::new();
    let _ = YoutubeExtractor::new(reqwest::Client::new());
}

fn meta() -> VideoMetadata {
    VideoMetadata {
        id: "vid".into(),
        title: "Song".into(),
        author: "Band".into(),
        duration_seconds: 1,
        view_count: 2,
        thumbnail_url: None,
        description: None,
    }
}

#[test]
fn native_download_steps() {
    assert_eq!(temp_file_name("abc", "webm"), "temp_abc.webm");
    let (first, job, next, action) = download_begin("dQw4w9WgXcQ", "mp3".into(), true).unwrap();
    assert!(matches!(first, ProgressEvent::Initializing { ref video_id } if video_id == "dQw4w9WgXcQ"));
    assert_eq!(job.format, "mp3");
    assert!(next.is_none());
    assert!(matches!(action, DownloadAction::UseYtDlp { remove: None }));
    assert!(matches!(
        download_begin("https://example.com/x", "mp3".into(), false),
        Err(YoutubeAudioError::VideoIdNotFound(_))
    ));
    let (_, job, next, action) = download_begin("https://youtu.be/dQw4w9WgXcQ", "mp3".into(), false).unwrap();
    assert_eq!(job.video_id, "dQw4w9WgXcQ");
    assert!(matches!(next, Some(NativeStep::Extracting)));
    assert!(matches!(action, DownloadAction::Extract));

    let best = AudioStreamInfo {
        url: "https://s".into(),
        mime_type: "audio/webm".into(),
        bitrate: 1,
        sample_rate: None,
        content_length: None,
        container: "webm".into(),
        audio_codec: "opus".into(),
    };
    let (next, action) = native_next(NativeStep::Extracting, &job, DownloadEvent::Extracted(Some((meta(), best))));
    match action {
        DownloadAction::Fetch { url, temp_file, report } => {
            assert_eq!(url, "https://s");
            assert_eq!(temp_file, "temp_dQw4w9WgXcQ.webm");
            assert!(matches!(report, ProgressEvent::MetadataFetched { ref title, ref author } if title == "Song" && author == "Band"));
        }
        other => panic!("unexpected {other:?}"),
    }
    let (next, action) = native_next(next.unwrap(), &job, DownloadEvent::Fetched(true));
    match action {
        DownloadAction::Convert { temp_file, report } => {
            assert_eq!(temp_file, "temp_dQw4w9WgXcQ.webm");
            assert!(matches!(report, ProgressEvent::Converting { ref target_format } if target_format == "mp3"));
        }
        other => panic!("unexpected {other:?}"),
    }
    let (next, action) = native_next(next.unwrap(), &job, DownloadEvent::Converted(Some("/out/Song.mp3".into())));
    assert!(matches!(action, DownloadAction::Measure { ref temp_file, ref file_path } if temp_file == "temp_dQw4w9WgXcQ.webm" && file_path == "/out/Song.mp3"));
    let (done, action) = native_next(next.unwrap(), &job, DownloadEvent::Measured(Ok(4096)));
    assert!(done.is_none());
    match action {
        DownloadAction::Finish { report, result } => {
            assert!(matches!(report, ProgressEvent::Finished { ref output_path, total_bytes: 4096 } if output_path == "/out/Song.mp3"));
            assert_eq!(result.file_path, "/out/Song.mp3");
            assert_eq!(result.format, "mp3");
            assert_eq!(result.file_size_bytes, 4096);
            assert_eq!(result.metadata.title, "Song");
        }
        other => panic!("unexpected {other:?}"),
    }
    let (_, action) = native_next(
        NativeStep::Measuring { file_path: "f".into(), metadata: meta() },
        &job,
        DownloadEvent::Measured(Err("gone".into())),
    );
    assert!(matches!(action, DownloadAction::Fail(YoutubeAudioError::Io(ref m)) if m == "gone"));
    let (_, action) = native_next(
        NativeStep::Fetching { temp_file: "t".into(), metadata: meta() },
        &job,
        DownloadEvent::Fetched(false),
    );
    assert!(matches!(action, DownloadAction::UseYtDlp { remove: Some(ref t) } if t == "t"));
    let (_, action) = native_next(NativeStep::Extracting, &job, DownloadEvent::Extracted(None));
    assert!(matches!(action, DownloadAction::UseYtDlp { remove: None }));

    let reports = ytdlp_reports(&meta());
    assert!(matches!(reports[0], ProgressEvent::MetadataFetched { .. }));
    assert!(matches!(reports[1], ProgressEvent::Downloading { bytes_downloaded: 0, total_bytes: None }));
    let (report, result) = finish_download("/o".into(), meta(), "flac".into(), 7);
    assert!(matches!(report, ProgressEvent::Finished { total_bytes: 7, .. }));
    assert_eq!((result.format.as_str(), result.file_size_bytes), ("flac", 7));
}

#[test]
fn whitespace_is_std_whitespace() {
    for c in (0u32..=0x10FFFF).filter_map(char::from_u32) {
        assert_eq!(char_is_whitespace(c), c.is_whitespace(), "{:#x}", c as u32);
    }
    assert_eq!(trimmed("   "), "");
    assert_eq!(trimmed("\u{3000} a b\u{2028}"), "a b");
}

fn ytdlp_job(best: bool, embed: bool) -> YtDlpJob {
    YtDlpJob {
        url_or_id: "dQw4w9WgXcQ".into(),
        output_dir: "/music".into(),
        format: "mp3".into(),
        best,
        quality: "192".into(),
        embed_metadata: embed,
    }
}

#[test]
fn paths_join_as_std_does() {
    for (dir, name) in [("/music", "a.mp3"), ("/music/", "a.mp3"), ("", "a.mp3"), ("/music", "/abs.mp3"), ("d", "")] {
        assert_eq!(
            path_join(dir, name),
            std::path::Path::new(dir).join(name).to_str().unwrap(),
            "{dir} {name}"
        );
    }
}

#[test]
fn ytdlp_download_steps() {
    let job = ytdlp_job(false, true);
    // The description, then the run with its arguments.
    let (step, action) = ytdlp_next(YtDlpStep::FetchingInfo, &job, YtDlpEvent::InfoFetched(Ok((meta(), "Song".into()))));
    let step = step.unwrap();
    match action {
        YtDlpAction::Run { reports, args } => {
            assert!(matches!(&reports[0], ProgressEvent::MetadataFetched { title, .. } if title == "Song"));
            assert!(matches!(reports[1], ProgressEvent::Downloading { bytes_downloaded: 0, total_bytes: None }));
            assert_eq!(
                args,
                vec![
                    "-x", "--audio-format", "mp3", "--audio-quality", "192", "-o", "/music/Song.%(ext)s",
                    "--no-playlist", "--no-warnings", "--add-metadata", "dQw4w9WgXcQ",
                ]
            );
        }
        other => panic!("unexpected {other:?}"),
    }
    // A successful run: the expected file is checked.
    let (step, action) = ytdlp_next(step, &job, YtDlpEvent::Ran(Ok((true, Some(0), vec![]))));
    let step = step.unwrap();
    assert!(matches!(action, YtDlpAction::CheckExists { ref path } if path == "/music/Song.mp3"));
    // It is not there: the directory is listed, and the first name with the
    // title is used.
    let (step, action) = ytdlp_next(step, &job, YtDlpEvent::Exists(false));
    assert!(matches!(action, YtDlpAction::ListDir));
    let names = vec!["Other.mp3".to_string(), "Song.m4a".to_string(), "Song.opus".to_string()];
    let (step, action) = ytdlp_next(step.unwrap(), &job, YtDlpEvent::Listed(Ok(names)));
    assert!(matches!(action, YtDlpAction::Measure { ref path } if path == "/music/Song.m4a"));
    // An unreadable size counts as 0.
    let (step, action) = ytdlp_next(step.unwrap(), &job, YtDlpEvent::Measured(None));
    assert!(step.is_none());
    match action {
        YtDlpAction::Finish { report, result } => {
            assert!(matches!(report, ProgressEvent::Finished { ref output_path, total_bytes: 0 } if output_path == "/music/Song.m4a"));
            assert_eq!(result.file_path, "/music/Song.m4a");
            assert_eq!(result.format, "mp3");
            assert_eq!(result.file_size_bytes, 0);
            assert_eq!(result.metadata.title, "Song");
        }
        other => panic!("unexpected {other:?}"),
    }
}

#[test]
fn ytdlp_download_failures_and_best_format() {
    let job = ytdlp_job(true, false);
    let (step, action) = ytdlp_next(YtDlpStep::FetchingInfo, &job, YtDlpEvent::InfoFetched(Ok((meta(), "Song".into()))));
    match action {
        YtDlpAction::Run { args, .. } => {
            assert_eq!(args[2], "best");
            assert_eq!(args.len(), 10);
        }
        other => panic!("unexpected {other:?}"),
    }
    let step = step.unwrap();
    let (none, action) = ytdlp_next(step, &job, YtDlpEvent::Ran(Err((true, "missing".into()))));
    assert!(none.is_none());
    assert!(matches!(action, YtDlpAction::Fail(YoutubeAudioError::YtDlpNotFound)));

    let (step, _) = ytdlp_next(YtDlpStep::FetchingInfo, &job, YtDlpEvent::InfoFetched(Ok((meta(), "Song".into()))));
    let (_, action) = ytdlp_next(step.unwrap(), &job, YtDlpEvent::Ran(Ok((false, Some(2), b"bad \xff".to_vec()))));
    match action {
        YtDlpAction::Fail(YoutubeAudioError::YtDlpFailed { status, stderr }) => {
            assert_eq!(status, Some(2));
            assert_eq!(stderr, "bad \u{FFFD}");
        }
        other => panic!("unexpected {other:?}"),
    }

    let (step, _) = ytdlp_next(YtDlpStep::FetchingInfo, &job, YtDlpEvent::InfoFetched(Ok((meta(), "Song".into()))));
    let (step, _) = ytdlp_next(step.unwrap(), &job, YtDlpEvent::Ran(Ok((true, Some(0), vec![]))));
    let (step, action) = ytdlp_next(step.unwrap(), &job, YtDlpEvent::Exists(true));
    assert!(matches!(action, YtDlpAction::Measure { ref path } if path == "/music/Song.mp3"));
    let (_, action) = ytdlp_next(step.unwrap(), &job, YtDlpEvent::Measured(Some(42)));
    assert!(matches!(action, YtDlpAction::Finish { ref result, .. } if result.file_size_bytes == 42));

    let (_, action) = ytdlp_next(
        YtDlpStep::FetchingInfo,
        &job,
        YtDlpEvent::InfoFetched(Err(YoutubeAudioError::Network("down".into()))),
    );
    assert!(matches!(action, YtDlpAction::Fail(YoutubeAudioError::Network(ref m)) if m == "down"));
    let step = YtDlpStep::Listing { metadata: meta(), file_title: "Song".into(), expected: "/music/Song.mp3".into() };
    let (_, action) = ytdlp_next(step, &job, YtDlpEvent::Listed(Err("denied".into())));
    assert!(matches!(action, YtDlpAction::Fail(YoutubeAudioError::Io(ref m)) if m == "denied"));
}

#[test]
fn ascii_video_id_is_taken_as_is() {
    assert_eq!(extract_video_id("  a-b_C9dEfGh ").unwrap(), "a-b_C9dEfGh");
}
