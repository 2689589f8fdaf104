use vortexdl::adb::ui as log_ui;
use vortexdl::adb_device::commands::{
    adb, adb_outcome, delete_dir, shell_escape, delete_file, ensure_dir, get_device_storages, list_devices,
    list_files, push, run_adb_error, sync_device_fs, AdbError, CommandOutput, StorageType,
};
use vortexdl::adb_device::state::{DeviceRegistry, SyncGuard};
use vortexdl::adb_device::sync::{
    invalid_path_note, mkdir_failed_note, push_failed_note, sync_steps, tally, PushOutcome, SyncStep,
};
use vortexdl::adb_device::{
    fail_status_error, server_address, start_server_error, track_devices_request, unexpected_status_error,
};
use vortexdl::adb_device::sync::{
    diff_local_and_remote, parent_dir, parents_to_clean, plan_sync, recently_synced, remote_path,
    LocalTrack, SyncPlan,
};
use vortexdl::adb_device::ui::{self as console, Level};
use vortexdl::adb_device::{
    decode_packet_length, device_list_update, subscribe_status, sync_connected, tracker_step,
    AdbDeviceSettings, AdbSettings, SubscribeStatus, TaskOutcome, TaskState, TrackerAction,
};

fn strings(v: &[&str]) -> Vec<String> {
    v.iter().map(|s| s.to_string()).collect()
}

#[test]
fn test_read_device_list_update() {
    let first: &[u8] = b"0011device123\tdevice\n";
    let mut header = [0u8; 4];
    header.copy_from_slice(&first[..4]);
    let len = decode_packet_length(&header).unwrap();
    assert_eq!(len, 17);
    let devices = device_list_update(&first[4..4 + len].to_vec()).unwrap();
    assert_eq!(devices.len(), 1);
    assert!(devices.contains(&"device123".to_string()));

    let second: &[u8] = b"0000";
    header.copy_from_slice(second);
    let len = decode_packet_length(&header).unwrap();
    assert_eq!(len, 0);
    let devices = device_list_update(&Vec::new()).unwrap();
    assert!(devices.is_empty());
}

#[test]
fn packet_length_errors() {
    match decode_packet_length(b"00zz") {
        Err(AdbError::Other(m)) => {
            assert_eq!(m, "Length not valid hex '00zz': invalid digit found in string")
        }
        _ => panic!("expected an error"),
    }
    match decode_packet_length(&[0xff, b'0', b'0', b'0']) {
        Err(AdbError::Other(m)) => assert!(m.starts_with("Length not valid UTF-8: ")),
        _ => panic!("expected an error"),
    }
    assert_eq!(decode_packet_length(b"00ff").unwrap(), 255);
    assert_eq!(decode_packet_length(b"00FF").unwrap(), 255);
}

#[test]
fn device_list_skips_offline_and_duplicates() {
    let payload = b"a\tdevice\nb\toffline\na\tdevice\n".to_vec();
    let devices = device_list_update(&payload).unwrap();
    assert_eq!(devices, strings(&["a"]));
    assert!(device_list_update(&vec![0xc3, 0x28]).is_err());
}

#[test]
fn adb_devices_output() {
    let out = CommandOutput {
        success: true,
        stdout: b"List of devices attached\nemulator-5554\tdevice\nX1\tunauthorized\nR58\tdevice product:x\n"
            .to_vec(),
        stderr: Vec::new(),
    };
    let mut devices = list_devices(&out).unwrap();
    devices.sort();
    assert_eq!(devices, strings(&["R58", "emulator-5554"]));

    let failed = CommandOutput { success: false, stdout: Vec::new(), stderr: b"  no server \n".to_vec() };
    match list_devices(&failed) {
        Err(AdbError::Other(m)) => assert_eq!(m, "adb devices: no server"),
        _ => panic!("expected an error"),
    }
}

#[test]
fn adb_outcome_and_errors() {
    let ok = CommandOutput { success: true, stdout: b"out".to_vec(), stderr: Vec::new() };
    assert_eq!(adb_outcome(&ok), Ok("out".to_string()));
    let bad = CommandOutput { success: false, stdout: Vec::new(), stderr: b" err\n".to_vec() };
    assert_eq!(adb_outcome(&bad), Err("err".to_string()));
    assert!(matches!(run_adb_error(&strings(&["push"]), true, "x"), AdbError::NotAvailable));
    match run_adb_error(&strings(&["push", "a"]), false, "denied") {
        AdbError::Other(m) => assert_eq!(m, "Failed to run adb push: denied"),
        _ => panic!("expected Other"),
    }
    assert_eq!(AdbError::NotAvailable.message(), "adb binary not found in PATH");
    assert_eq!(AdbError::AlreadyInProgress.message(), "Sync already in progress");
}

#[test]
fn argument_lists_quote_paths() {
    assert_eq!(adb("dev", strings(&["push", "a", "b"])), strings(&["-s", "dev", "push", "a", "b"]));
    assert_eq!(ensure_dir("dev", "/sdcard/Mu sic"), strings(&["-s", "dev", "shell", "mkdir -p '/sdcard/Mu sic'"]));
    assert_eq!(delete_file("dev", "it's.mp3"), strings(&["-s", "dev", "shell", "rm -f 'it'\\''s.mp3'"]));
    assert_eq!(delete_dir("dev", "/d"), strings(&["-s", "dev", "shell", "rmdir '/d'"]));
    assert_eq!(push("dev", "/l", "/r"), strings(&["-s", "dev", "push", "/l", "/r"]));
    assert_eq!(sync_device_fs("dev"), strings(&["-s", "dev", "shell", "sync"]));
}

#[test]
fn remote_file_listing() {
    let mut files = list_files("/sdcard/Music/", &Ok("/sdcard/Music/A/x.mp3\n  /sdcard/Music/B/y.mp3 \n/other/z\n".to_string()));
    files.sort();
    assert_eq!(files, strings(&["A/x.mp3", "B/y.mp3"]));
    assert!(list_files("/sdcard/Music", &Err("fail".to_string())).is_empty());
}

#[test]
fn storage_listing() {
    let s = get_device_storages(&Ok("emulated\nself\n1234-ABCD\n\n".to_string()));
    assert_eq!(s.len(), 2);
    assert_eq!(s[0].name, "Internal Storage");
    assert_eq!(s[0].path, "/storage/emulated/0/Music");
    assert_eq!(s[0].storage_type, StorageType::Internal);
    assert_eq!(s[1].name, "SD Card (1234-ABCD)");
    assert_eq!(s[1].path, "/storage/1234-ABCD/Music");
    assert_eq!(s[1].storage_type, StorageType::SdCard);

    let legacy = get_device_storages(&Err("no".to_string()));
    assert_eq!(legacy.len(), 1);
    assert_eq!(legacy[0].name, "Internal Storage (Legacy)");
    assert_eq!(legacy[0].path, "/sdcard/Music");
}

fn local(artist: &str, file: Option<&str>, archived: bool) -> LocalTrack {
    LocalTrack {
        artist_dir: artist.to_string(),
        file_name: file.map(|f| f.to_string()),
        local_path: format!("/lib/{artist}/{}", file.unwrap_or("?")),
        archived,
    }
}

#[test]
fn sync_diff_pushes_missing_and_deletes_orphans() {
    let tracks = vec![
        local("A", Some("one.mp3"), false),
        local("B", Some("two.mp3"), false),
        local("C", Some("old.mp3"), true),
        local("D", None, false),
    ];
    let remote = strings(&["A/one.mp3", "X/gone.mp3"]);
    let diff = diff_local_and_remote(&tracks, &remote);
    assert_eq!(diff.to_push.len(), 1);
    assert_eq!(diff.to_push[0].rel_path, "B/two.mp3");
    assert_eq!(diff.to_push[0].artist_dir, "B");
    assert_eq!(diff.to_push[0].local_path, "/lib/B/two.mp3");
    assert_eq!(diff.to_delete, strings(&["X/gone.mp3"]));

    assert!(matches!(plan_sync(&Vec::new(), &remote), SyncPlan::LibraryEmpty));
    let synced = strings(&["A/one.mp3", "B/two.mp3"]);
    assert!(matches!(plan_sync(&tracks, &synced), SyncPlan::UpToDate));
    assert!(matches!(plan_sync(&tracks, &remote), SyncPlan::Apply(_)));
}

#[test]
fn paths_and_parents() {
    assert_eq!(remote_path("/sdcard/Music", "A/one.mp3"), "/sdcard/Music/A/one.mp3");
    assert_eq!(parent_dir("A/one.mp3"), Some("A".to_string()));
    assert_eq!(parent_dir("one.mp3"), None);
    let mut parents = parents_to_clean(&strings(&["A/1.mp3", "A/2.mp3", "top.mp3", "B/3.mp3"]));
    parents.sort();
    assert_eq!(parents, strings(&["A", "B"]));
}

#[test]
fn sync_cooldown() {
    assert!(!recently_synced(None, 1000));
    assert!(recently_synced(Some(1000), 1000 + 9_999));
    assert!(!recently_synced(Some(1000), 1000 + 10_000));
    assert!(recently_synced(Some(5000), 1000));
}

#[test]
fn sync_slot_is_exclusive() {
    let mut registry = DeviceRegistry::new();
    let guard = SyncGuard::try_acquire(&mut registry, "dev").unwrap();
    assert!(SyncGuard::try_acquire(&mut registry, "dev").is_none());
    let other = SyncGuard::try_acquire(&mut registry, "dev2").unwrap();
    guard.release(&mut registry);
    assert!(SyncGuard::try_acquire(&mut registry, "dev").is_some());
    other.release(&mut registry);
}

#[test]
fn sync_slots_of_other_devices_do_not_interfere() {
    let mut registry = DeviceRegistry::new();
    let held = SyncGuard::try_acquire(&mut registry, "a").unwrap();
    let b = SyncGuard::try_acquire(&mut registry, "b").unwrap();
    assert!(SyncGuard::try_acquire(&mut registry, "a").is_none());
    b.release(&mut registry);
    assert!(SyncGuard::try_acquire(&mut registry, "a").is_none());
    let b = SyncGuard::try_acquire(&mut registry, "b").unwrap();
    held.release(&mut registry);
    let again = SyncGuard::try_acquire(&mut registry, "a").unwrap();
    assert!(SyncGuard::try_acquire(&mut registry, "b").is_none());
    again.release(&mut registry);
    b.release(&mut registry);
}

#[test]
fn shell_escape_quotes_one_word() {
    assert_eq!(shell_escape("it's"), "'it'\\''s'");
    assert_eq!(shell_escape(""), "''");
    assert_eq!(shell_escape("a b$(x)"), "'a b$(x)'");
}

#[test]
fn last_sync_times_and_connected() {
    let mut registry = DeviceRegistry::new();
    assert_eq!(registry.get_last_sync_time("d"), None);
    registry.update_last_sync_time("d", 42);
    assert_eq!(registry.get_last_sync_time("d"), Some(42));
    registry.update_last_sync_time("d", 43);
    assert_eq!(registry.get_last_sync_time("d"), Some(43));
    registry.set_connected(&strings(&["x", "y"]));
    let mut c = registry.lock_connected().clone();
    c.sort();
    assert_eq!(c, strings(&["x", "y"]));
    registry.clear_connected();
    assert!(registry.lock_connected().is_empty());
}

#[test]
fn connected_devices_to_sync() {
    let settings = AdbSettings {
        enabled: true,
        auto_sync: true,
        devices: vec![
            AdbDeviceSettings { device_id: "a".into(), enabled: true, remote_music_dir: "/m".into() },
            AdbDeviceSettings { device_id: "b".into(), enabled: false, remote_music_dir: "/n".into() },
        ],
    };
    let targets = sync_connected(&settings, &strings(&["a", "b", "c"]));
    assert_eq!(targets, vec![("a".to_string(), "/m".to_string())]);
    let off = AdbSettings { auto_sync: false, ..settings };
    assert!(sync_connected(&off, &strings(&["a"])).is_empty());
}

#[test]
fn tracker_decisions() {
    assert_eq!(tracker_step(true, true, TaskState::Absent), (true, TrackerAction::Spawn));
    assert_eq!(tracker_step(true, true, TaskState::Running), (true, TrackerAction::Wait));
    assert_eq!(
        tracker_step(true, true, TaskState::Finished(TaskOutcome::AdbMissing)),
        (false, TrackerAction::Reap)
    );
    assert_eq!(
        tracker_step(true, true, TaskState::Finished(TaskOutcome::Failed)),
        (true, TrackerAction::Spawn)
    );
    assert_eq!(tracker_step(false, true, TaskState::Running), (true, TrackerAction::Abort));
    assert_eq!(tracker_step(true, false, TaskState::Absent), (false, TrackerAction::Wait));
    assert_eq!(subscribe_status(b"OKAY"), SubscribeStatus::Okay);
    assert_eq!(subscribe_status(b"FAIL"), SubscribeStatus::Fail);
    assert_eq!(subscribe_status(b"WHAT"), SubscribeStatus::Unexpected);
}

#[test]
fn console_messages() {
    let m = console::sync_start("dev", "/m");
    assert_eq!(m.level, Level::Info);
    assert_eq!(m.text, "Syncing [dev] → /m");
    assert_eq!(console::sync_complete("dev").text, "Sync complete [dev]");
    assert_eq!(console::removing(3, "dev").text, "Removing 3 orphaned tracks from [dev]");
    assert_eq!(console::pushing(12, "dev").text, "Pushing 12 tracks to [dev]");
    assert!(console::push_results(5, 0).is_none());
    let r = console::push_results(5, 2).unwrap();
    assert_eq!(r.level, Level::Warn);
    assert_eq!(r.text, "5 pushed, 2 failed");
    assert_eq!(console::deleted("/p").text, "Deleted: /p");
    assert_eq!(console::delete_failed("/p", "e").text, "Failed to delete /p: e");
    let f = console::remote_access_failed("/m", "dev", "e");
    assert_eq!(f.level, Level::Error);
    assert_eq!(f.text, "Cannot access /m on dev: e");
    assert_eq!(
        console::progress_template("dev"),
        "{spinner:.cyan} [dev] [{bar:30.green/white}] {pos}/{len} {msg}"
    );
}

#[test]
fn log_records() {
    let r = log_ui::sync_start("dev", "/m");
    assert_eq!(r.message, "Syncing ADB device");
    assert!(r.fields.contains(&("device".to_string(), "dev".to_string())));
    assert_eq!(log_ui::sync_not_needed("dev").fields, vec![("device".to_string(), "dev".to_string())]);
    let p = log_ui::push_results(4, 1);
    assert!(p.fields.contains(&("pushed".to_string(), "4".to_string())));
    assert!(p.fields.contains(&("failed".to_string(), "1".to_string())));
}

#[test]
fn server_connection_helpers() {
    assert_eq!(server_address(None, None), "127.0.0.1:5037");
    assert_eq!(server_address(Some("host".into()), Some("6000".into())), "host:6000");
    assert_eq!(server_address(None, Some("70000".into())), "127.0.0.1:5037");
    assert_eq!(server_address(None, Some("x".into())), "127.0.0.1:5037");
    assert_eq!(track_devices_request(), b"0012host:track-devices".to_vec());
    match fail_status_error(&b"no".to_vec()) {
        AdbError::Other(m) => assert_eq!(m, "ADB server returned FAIL: no"),
        _ => panic!("expected Other"),
    }
    match unexpected_status_error(b"WHAT") {
        AdbError::Other(m) => assert_eq!(m, format!("ADB server returned unexpected status: {:?}", *b"WHAT")),
        _ => panic!("expected Other"),
    }
    match start_server_error(&b" boom \n".to_vec()) {
        AdbError::Other(m) => assert_eq!(m, "adb start-server failed: boom"),
        _ => panic!("expected Other"),
    }
}

#[test]
fn sync_step_lists_and_tally() {
    assert!(sync_steps(&SyncPlan::LibraryEmpty).is_empty());
    assert_eq!(sync_steps(&SyncPlan::UpToDate), vec![SyncStep::ReportNotNeeded, SyncStep::RecordTime]);
    let tracks = vec![local("A", Some("one.mp3"), false)];
    let plan = plan_sync(&tracks, &strings(&["Z/old.mp3"]));
    assert_eq!(
        sync_steps(&plan),
        vec![
            SyncStep::ReportStart,
            SyncStep::Remove(1),
            SyncStep::FlushFs,
            SyncStep::Push(1),
            SyncStep::FlushFs,
            SyncStep::RecordTime,
            SyncStep::ReportComplete
        ]
    );
    let outcomes = vec![PushOutcome::Pushed, PushOutcome::MkdirFailed, PushOutcome::Pushed, PushOutcome::PushFailed, PushOutcome::InvalidPath];
    assert_eq!(tally(&outcomes), (2, 3));
    assert_eq!(mkdir_failed_note("/m/A", "e"), "mkdir /m/A: e");
    assert_eq!(push_failed_note("A/x", "e"), "push A/x: e");
    assert_eq!(invalid_path_note("/p"), "Invalid path: /p");
}
