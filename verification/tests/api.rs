use vortexdl::adb_device::commands::AdbError;
use vortexdl::adb_device::AdbDeviceSettings;
use vortexdl::api::devices::{
    device_list_update, list_devices_failed, lists_differ, manual_sync_dir, sorted_devices,
    storages_failed, sync_failed,
};
use vortexdl::api::errors::{ApiError, ErrorCode};
use vortexdl::api::models::{
    accept_collection, accept_download, check_file_name, file_extension, health_response,
    is_known_extension, known_extensions, track_extension, Collection, DownloadRequest, TrackExtension,
};
use vortexdl::api::proxy::{is_client_error, relayed_headers, relayed_status, retry_usable};
use vortexdl::api::search::{
    matches_duration, plan_search, search_response, soundcloud_results, youtube_meta_to_item,
    youtube_results, SearchDurationFilter, SearchProviderParam, SearchQuery, SoundcloudHit, YoutubeHit,
};
use vortexdl::api::settings::{
    proxy_test_result, settings_update_failed, snapshot_response, soundcloud_check_answer, requested_proxies, ProxyProbe,
};
use vortexdl::api::state::{client_reusable, AppCache};
use vortexdl::api::stream::{
    cache_is_fresh, parsed_link, pick_target_url, resolve_begin, resolve_next, youtube_video_of, ResolveAction,
    ResolveStage,
};
use vortexdl::api::tracks::{
    file_not_found, list_order, remove_track_answer, remove_tracks_failed, sort_positions,
    stream_failed, text_before, track_not_found, RemoveOutcome, TrackSortKey, TracksQuery,
};

fn strings(v: &[&str]) -> Vec<String> {
    v.iter().map(|s| s.to_string()).collect()
}

// ---------------------------------------------------------------------------
// errors and models
// ---------------------------------------------------------------------------

#[test]
fn api_error_constructors() {
    let e = ApiError::bad_request("m".to_string());
    assert_eq!((e.status, e.code, e.message.as_str()), (400, ErrorCode::BadRequest, "m"));
    let e = ApiError::internal("m".to_string());
    assert_eq!((e.status, e.code), (500, ErrorCode::InternalError));
    let e = ApiError::not_found("m".to_string()).with_code(ErrorCode::TrackNotFound);
    assert_eq!((e.status, e.code), (404, ErrorCode::TrackNotFound));
    let e = ApiError::conflict("m".to_string());
    assert_eq!((e.status, e.code), (409, ErrorCode::Conflict));
}

#[test]
fn adb_errors_as_api_errors() {
    let e = ApiError::from_adb(AdbError::AlreadyInProgress);
    assert_eq!((e.status, e.code, e.message.as_str()), (409, ErrorCode::AlreadyProcessing, "Device is currently syncing"));
    let e = ApiError::from_adb(AdbError::NotAvailable);
    assert_eq!((e.status, e.code, e.message.as_str()), (500, ErrorCode::AdbError, "ADB binary not found in PATH"));
    let e = ApiError::from_adb(AdbError::Other("x".to_string()));
    assert_eq!((e.status, e.code, e.message.as_str()), (500, ErrorCode::AdbError, "x"));
    assert_eq!(ApiError::from_io("io".into()).code, ErrorCode::IoError);
    assert_eq!(ApiError::from_network("n".into()).status, 400);
    assert_eq!(ApiError::from_soundcloud("s".into()).code, ErrorCode::SoundCloudError);
    assert_eq!(ApiError::from_backup("b".into()).code, ErrorCode::DatabaseError);
}

#[test]
fn extensions_and_file_names() {
    assert_eq!(track_extension("mp3"), TrackExtension::Mp3);
    assert_eq!(track_extension("flac"), TrackExtension::Flac);
    assert_eq!(track_extension("wav"), TrackExtension::Wav);
    assert_eq!(track_extension("MP3"), TrackExtension::Unknown);
    assert_eq!(known_extensions(), [TrackExtension::Mp3, TrackExtension::Flac, TrackExtension::Wav]);
    assert!(is_known_extension(TrackExtension::Wav));
    assert!(!is_known_extension(TrackExtension::Unknown));
    assert_eq!(file_extension("song.mp3"), Some("mp3".to_string()));
    assert_eq!(file_extension("a.tar.gz"), Some("gz".to_string()));
    assert_eq!(file_extension("name."), Some(String::new()));
    assert_eq!(file_extension(".hidden"), None);
    assert_eq!(file_extension("plain"), None);
    assert_eq!(file_extension(".."), None);
    assert!(check_file_name("song.mp3").is_ok());
    for bad in ["../x", "a/b", "a\\b", "x..y"] {
        let e = check_file_name(bad).unwrap_err();
        assert_eq!((e.status, e.message.as_str()), (400, "Invalid filename"));
    }
}

#[test]
fn download_requests() {
    let e = accept_download(&DownloadRequest { url: String::new() }).unwrap_err();
    assert_eq!((e.status, e.message.as_str()), (400, "Empty URL"));
    let a = accept_download(&DownloadRequest { url: "u".into() }).unwrap();
    assert_eq!((a.status.as_str(), a.message.as_str()), ("queued", "Started for: u"));
    let a = accept_collection(Collection::Playlist, "p").unwrap();
    assert_eq!(a.message, "Playlist download started: p");
    let a = accept_collection(Collection::Likes, "l").unwrap();
    assert_eq!(a.message, "Likes download started: l");
    let e = accept_collection(Collection::Likes, "").unwrap_err();
    assert_eq!(e.message, "Field `url` must not be empty");
    assert_eq!(health_response().status, "ok");
}

// ---------------------------------------------------------------------------
// search
// ---------------------------------------------------------------------------

fn query(q: &str) -> SearchQuery {
    SearchQuery { query: q.to_string(), limit: None, offset: None, provider: None, duration: None }
}

#[test]
fn search_plan_defaults_and_errors() {
    let e = plan_search(&query("  \t ")).unwrap_err();
    assert_eq!((e.status, e.code, e.message.as_str()), (400, ErrorCode::EmptyUrl, "Search query cannot be empty"));
    let p = plan_search(&query("  lofi  ")).unwrap();
    assert_eq!(p.query, "lofi");
    assert_eq!((p.limit, p.offset), (20, 0));
    assert!(p.soundcloud && !p.youtube);
    assert_eq!(p.duration, SearchDurationFilter::Any);
    assert!(p.direct_lookup && !p.use_continuation);
    let mut q = query("x");
    q.limit = Some(5);
    q.offset = Some(10);
    q.provider = Some(SearchProviderParam::Youtube);
    q.duration = Some(SearchDurationFilter::Long);
    let p = plan_search(&q).unwrap();
    assert_eq!((p.limit, p.offset), (5, 10));
    assert!(p.youtube && !p.soundcloud);
    assert!(!p.direct_lookup && p.use_continuation);
    assert_eq!(p.duration, SearchDurationFilter::Long);
}

#[test]
fn duration_filter_bounds() {
    let (short, medium, long, epic) = (
        SearchDurationFilter::Short,
        SearchDurationFilter::Medium,
        SearchDurationFilter::Long,
        SearchDurationFilter::Epic,
    );
    assert!(matches_duration(short, 119) && !matches_duration(short, 120));
    assert!(matches_duration(medium, 120) && matches_duration(medium, 600) && !matches_duration(medium, 601));
    assert!(matches_duration(long, 601) && matches_duration(long, 1800) && !matches_duration(long, 600));
    assert!(matches_duration(epic, 1801) && !matches_duration(epic, 1800));
    assert!(matches_duration(SearchDurationFilter::Any, 0));
}

fn hit(id: i64, secs: u64) -> YoutubeHit {
    YoutubeHit {
        id,
        video_id: format!("vid{id:08}"),
        artist: "Art".into(),
        title: format!("T{id}"),
        thumbnail_url: None,
        duration_seconds: secs,
        view_count: 7,
    }
}

#[test]
fn youtube_item_fields() {
    let item = youtube_meta_to_item(&hit(1, 61));
    assert_eq!(item.id, 1);
    assert_eq!(item.duration, Some(61_000));
    assert_eq!(item.playback_count, Some(7));
    assert_eq!(item.permalink_url.as_deref(), Some("https://www.youtube.com/watch?v=vid00000001"));
    assert!(item.genre.is_none());
}

#[test]
fn youtube_results_filter_and_limit() {
    let hits = vec![hit(1, 30), hit(2, 300), hit(3, 60), hit(4, 90)];
    let (items, ids) = youtube_results(&hits, SearchDurationFilter::Short, 2);
    assert_eq!(items.iter().map(|i| i.id).collect::<Vec<_>>(), vec![1, 3]);
    assert_eq!(ids, vec![(1, "vid00000001".to_string()), (3, "vid00000003".to_string())]);
    // A limit of zero keeps nothing.
    let (items, ids) = youtube_results(&hits, SearchDurationFilter::Any, 0);
    assert!(items.is_empty() && ids.is_empty());
    let (items, _) = youtube_results(&hits, SearchDurationFilter::Epic, 10);
    assert!(items.is_empty());
}

fn sc(id: Option<i64>, title: Option<&str>, user: Option<&str>) -> SoundcloudHit {
    SoundcloudHit {
        id,
        title: title.map(String::from),
        username: user.map(String::from),
        artwork_url: None,
        duration: Some(1000),
        playback_count: None,
        permalink_url: Some("https://sc/t".into()),
        genre: Some("house".into()),
    }
}

#[test]
fn soundcloud_results_defaults() {
    let items = soundcloud_results(&vec![sc(Some(1), Some("A"), Some("U")), sc(None, None, None), sc(Some(2), None, None)]);
    assert_eq!(items.len(), 2);
    assert_eq!((items[0].title.as_str(), items[0].artist.as_str()), ("A", "U"));
    assert_eq!((items[1].title.as_str(), items[1].artist.as_str()), ("", "Unknown"));
    assert_eq!(items[1].genre.as_deref(), Some("house"));
}

#[test]
fn search_response_merges_providers() {
    let (resp, ids) = search_response(
        Some((vec![hit(1, 30)], true)),
        Some((vec![sc(Some(9), Some("S"), None)], false)),
        SearchDurationFilter::Any,
        20,
    );
    assert_eq!(resp.tracks.iter().map(|t| t.id).collect::<Vec<_>>(), vec![1, 9]);
    assert!(!resp.has_more);
    assert_eq!(ids.len(), 1);
    let (resp, _) = search_response(Some((vec![], true)), None, SearchDurationFilter::Any, 20);
    assert!(resp.has_more && resp.tracks.is_empty());
    let (resp, _) = search_response(None, None, SearchDurationFilter::Any, 20);
    assert!(!resp.has_more);
}

// ---------------------------------------------------------------------------
// stream resolution and relaying
// ---------------------------------------------------------------------------

#[test]
fn stream_target_and_cache() {
    assert!(cache_is_fresh(10_799_999_999_999) && !cache_is_fresh(10_800_000_000_000));
    assert_eq!(pick_target_url(Some("g".into()), Some("v"), Some("s".into())), Some("g".into()));
    assert_eq!(
        pick_target_url(None, Some("dQw4w9WgXcQ"), Some("s".into())),
        Some("https://www.youtube.com/watch?v=dQw4w9WgXcQ".into())
    );
    assert_eq!(pick_target_url(None, None, Some("s".into())), Some("s".into()));
    assert_eq!(pick_target_url(None, None, None), None);
    assert_eq!(
        youtube_video_of(Some("https://youtu.be/dQw4w9WgXcQ"), true),
        Some("dQw4w9WgXcQ".to_string())
    );
    assert_eq!(youtube_video_of(Some("https://youtu.be/dQw4w9WgXcQ"), false), None);
    assert_eq!(youtube_video_of(Some("https://example.com/x"), true), None);
    assert_eq!(youtube_video_of(None, true), None);
}

#[test]
fn stream_resolution_steps() {
    let (stage, action) = resolve_begin(Some("vid".into()));
    assert!(matches!(action, ResolveAction::AskYoutube { ref video_id } if video_id == "vid"));
    let (next, action) = resolve_next(stage, true, 2, Err("timeout".into()));
    assert!(matches!(next, Some(ResolveStage::YoutubeProxies)));
    assert!(matches!(action, ResolveAction::RaceYoutubeProxies { ref video_id } if video_id == "vid"));
    let (next, action) = resolve_next(next.unwrap(), true, 2, Err("all down".into()));
    assert!(next.is_none());
    match action {
        ResolveAction::Answer(Err(e)) => {
            assert_eq!(e.code, ErrorCode::NetworkError);
            assert_eq!(e.message, "YouTube stream resolution failed on all proxies: all down");
        }
        _ => panic!("expected an error"),
    }

    let (stage, _) = resolve_begin(Some("vid".into()));
    let (next, action) = resolve_next(stage, false, 2, Err("timeout".into()));
    assert!(next.is_none());
    match action {
        ResolveAction::Answer(Err(e)) => assert_eq!(e.message, "YouTube stream resolution failed: timeout"),
        _ => panic!("expected an error"),
    }

    let (stage, action) = resolve_begin(None);
    assert!(matches!(action, ResolveAction::AskSoundcloud));
    let (next, action) = resolve_next(stage, true, 0, Err("x".into()));
    assert!(next.is_none());
    match action {
        ResolveAction::Answer(Err(e)) => {
            assert_eq!(e.code, ErrorCode::SoundCloudError);
            assert_eq!(e.message, "Direct resolution failed and no fallback proxies configured");
        }
        _ => panic!("expected an error"),
    }
    let (next, action) = resolve_next(ResolveStage::SoundcloudDirect, true, 1, Err("x".into()));
    assert!(matches!(next, Some(ResolveStage::SoundcloudProxies)));
    assert!(matches!(action, ResolveAction::RaceSoundcloudProxies));
    let (_, action) = resolve_next(ResolveStage::SoundcloudProxies, true, 1, Err("y".into()));
    match action {
        ResolveAction::Answer(Err(e)) => assert_eq!(e.message, "Proxy resolution failed: y"),
        _ => panic!("expected an error"),
    }
    let (next, action) = resolve_next(ResolveStage::SoundcloudProxies, true, 1, Ok("https://s".into()));
    assert!(next.is_none());
    assert!(matches!(action, ResolveAction::Answer(Ok(ref u)) if u == "https://s"));
}

#[test]
fn relayed_response_parts() {
    assert!(is_client_error(404) && !is_client_error(500) && !is_client_error(399));
    assert!(retry_usable(200) && retry_usable(206) && !retry_usable(403));
    assert_eq!(relayed_status(206), 206);
    assert_eq!(relayed_status(42), 200);
    let headers = vec![
        ("content-type".to_string(), b"audio/webm".to_vec()),
        ("x-secret".to_string(), b"1".to_vec()),
        ("content-length".to_string(), b"10".to_vec()),
    ];
    let out = relayed_headers(&headers);
    assert_eq!(
        out,
        vec![
            ("content-type".to_string(), b"audio/webm".to_vec()),
            ("content-length".to_string(), b"10".to_vec()),
            ("accept-ranges".to_string(), b"bytes".to_vec()),
        ]
    );
    let with_ranges = vec![("accept-ranges".to_string(), b"none".to_vec())];
    assert_eq!(relayed_headers(&with_ranges), with_ranges);
}

// ---------------------------------------------------------------------------
// settings, caches, tracks, devices
// ---------------------------------------------------------------------------

#[test]
fn proxy_checks_and_answers() {
    let r = proxy_test_result("p".into(), ProxyProbe::Healthy);
    assert!(r.valid && r.error.is_none());
    let r = proxy_test_result("p".into(), ProxyProbe::Unhealthy);
    assert_eq!(r.error.as_deref(), Some("Proxy is not able to reach SoundCloud API"));
    let r = proxy_test_result("p".into(), ProxyProbe::BuildFailed("bad".into()));
    assert!(!r.valid);
    assert_eq!(r.error.as_deref(), Some("Failed to build client: bad"));
    assert_eq!(soundcloud_check_answer(Ok(())).unwrap(), "SoundCloud URL is valid and accessible");
    let e = soundcloud_check_answer(Err("404".into())).unwrap_err();
    assert_eq!((e.code, e.message.as_str()), (ErrorCode::SoundCloudError, "SoundCloud verification failed: 404"));
    let e = settings_update_failed("disk");
    assert_eq!((e.status, e.code, e.message.as_str()), (500, ErrorCode::DatabaseError, "Failed to update settings: disk"));
    assert_eq!(snapshot_response(&vec![1, 2, 3]).sync_records_count, 3);
    assert_eq!(requested_proxies(Some("[\"http://a:1\", \"socks5://b\"]")), Some(strings(&["http://a:1", "socks5://b"])));
    assert_eq!(requested_proxies(Some("not json")), None);
    assert_eq!(requested_proxies(Some("[1, 2]")), None);
    assert_eq!(requested_proxies(None), None);
}

#[test]
fn caches_read_after_write() {
    let mut c = AppCache::new();
    assert_eq!(c.get_youtube_id(1), None);
    c.insert_youtube_id(1, "v1".into());
    assert_eq!(c.get_youtube_id(1), Some("v1".into()));
    c.insert_stream(1, "https://s".into(), 100);
    assert_eq!(c.get_stream(1, 100 + 10_799_999_999_999), Some("https://s".into()));
    assert_eq!(c.get_stream(1, 100 + 10_800_000_000_000), None);
    assert_eq!(c.get_stream(1, 50), Some("https://s".into()));
    c.remove_stream(1);
    assert_eq!(c.get_stream(1, 100), None);
    c.set_continuation("Lo Fi", Some("tok".into()));
    assert_eq!(c.get_continuation("lo fi"), Some("tok".into()));
    assert_eq!(c.get_continuation("LO FI"), Some("tok".into()));
    c.set_continuation("LO fi", None);
    assert_eq!(c.get_continuation("lo fi"), None);
    assert!(client_reusable(&None, &None));
    assert!(client_reusable(&Some("p".into()), &Some("p".into())));
    assert!(!client_reusable(&Some("p".into()), &None));
}

#[test]
fn text_order_is_str_order() {
    for (a, b) in [("a", "b"), ("a", "ab"), ("", "a"), ("b", "a"), ("abc", "abc"), ("Z", "a"), ("é", "z")] {
        assert_eq!(text_before(a, b), a < b, "{a} {b}");
    }
}

fn key(id: i64, title: &str, created: u64) -> TrackSortKey {
    TrackSortKey::new(id, title, created)
}

#[test]
fn library_listing_order() {
    let keys = vec![key(1, "beta", 10), key(2, "Alpha", 30), key(3, "alpha", 20)];
    assert_eq!(keys[1].title, "alpha");
    // By name ascending, ties by id.
    assert_eq!(sort_positions(&keys, true, false), vec![1, 2, 0]);
    // By name, reversed.
    assert_eq!(sort_positions(&keys, true, true), vec![0, 2, 1]);
    // By date: newest first, then reversed by `desc`.
    assert_eq!(sort_positions(&keys, false, false), vec![1, 2, 0]);
    assert_eq!(sort_positions(&keys, false, true), vec![0, 2, 1]);
    let q = TracksQuery { sort: Some("name".into()), order: Some("asc".into()), limit: Some(2) };
    assert_eq!(list_order(&keys, &q), vec![1, 2]);
    let q = TracksQuery { sort: None, order: None, limit: None };
    assert_eq!(list_order(&keys, &q), vec![0, 2, 1]);
}

#[test]
fn ascending_listing_is_descending_reversed() {
    let keys = vec![key(4, "b", 5), key(1, "a", 5), key(3, "c", 9), key(2, "a", 1), key(7, "B", 5)];
    for by_name in [false, true] {
        let mut desc = sort_positions(&keys, by_name, true);
        desc.reverse();
        assert_eq!(sort_positions(&keys, by_name, false), desc);
    }
    // Default listing: oldest first, same time by descending id.
    assert_eq!(sort_positions(&keys, false, true), vec![3, 4, 0, 1, 2]);
}

#[test]
fn track_answers() {
    assert!(remove_track_answer(5, RemoveOutcome::Removed).is_ok());
    let e = remove_track_answer(-5, RemoveOutcome::NotFound).unwrap_err();
    assert_eq!((e.status, e.code, e.message.as_str()), (404, ErrorCode::TrackNotFound, "Track with ID -5 not found"));
    let e = remove_track_answer(5, RemoveOutcome::Failed("busy".into())).unwrap_err();
    assert_eq!((e.status, e.code, e.message.as_str()), (500, ErrorCode::IoError, "Failed to delete file: busy"));
    assert_eq!(track_not_found(i64::MIN).message, format!("Track with ID {} not found", i64::MIN));
    assert_eq!(file_not_found("\"/x\"").message, "File not found: \"/x\"");
    assert_eq!(stream_failed("e").code, ErrorCode::IoError);
    assert_eq!(remove_tracks_failed("e").message, "Failed to delete tracks: e");
}

#[test]
fn device_endpoints() {
    assert_eq!(sorted_devices(&strings(&["b", "a", "c", "a"])), strings(&["a", "a", "b", "c"]));
    assert!(lists_differ(&strings(&["a"]), &strings(&["b"])));
    assert!(!lists_differ(&strings(&["a"]), &strings(&["a"])));
    assert_eq!(device_list_update(&strings(&["y", "x"]), &Vec::new()), Some(strings(&["x", "y"])));
    assert_eq!(device_list_update(&strings(&["y", "x"]), &strings(&["x", "y"])), None);
    let cfgs = vec![
        AdbDeviceSettings { device_id: "a".into(), enabled: false, remote_music_dir: "/m".into() },
        AdbDeviceSettings { device_id: "b".into(), enabled: true, remote_music_dir: String::new() },
    ];
    assert_eq!(manual_sync_dir(&cfgs, "a").unwrap(), "/m");
    let e = manual_sync_dir(&cfgs, "b").unwrap_err();
    assert_eq!((e.status, e.message.as_str()), (400, "Device configuration or remote music directory is not set"));
    assert!(manual_sync_dir(&cfgs, "c").is_err());
    let e = sync_failed("d", true, "x");
    assert_eq!((e.status, e.code), (409, ErrorCode::AlreadyProcessing));
    let e = sync_failed("d", false, "x");
    assert_eq!(e.message, "Failed to sync device d: x");
    assert_eq!(list_devices_failed("x").message, "Failed to list ADB devices: x");
    assert_eq!(storages_failed("d", "x").message, "Failed to list storage partitions for device d: x");
}

#[test]
fn links_are_parsed_to_normal_form() {
    assert_eq!(parsed_link(Some("HTTPS://YouTube.com/watch?v=dQw4w9WgXcQ")).as_deref(), Some("https://youtube.com/watch?v=dQw4w9WgXcQ"));
    assert_eq!(parsed_link(Some("not a link")), None);
    assert_eq!(parsed_link(None), None);
}
