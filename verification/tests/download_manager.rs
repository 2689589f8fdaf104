use vortexdl::api::download::{
    finish_download, forward, opening_events, queue_updates, start_download, Delivery, Received,
};
use vortexdl::api::download_manager::cancellation::CancellationRegistry;
use vortexdl::api::download_manager::types::{
    DiscoveredMusicTrack, DownloadItem, DownloadStatus, MessageLevel, ServerEvent, PROGRESS_FULL,
    PROGRESS_NONE,
};
use vortexdl::api::download_manager::DownloadManager;
use vortexdl::api::errors::ErrorCode;

fn track(id: i64) -> DiscoveredMusicTrack {
    DiscoveredMusicTrack {
        id,
        title: format!("Title {id}"),
        artist: "Artist".to_string(),
        artwork_url: Some("https://img/a.jpg".to_string()),
        permalink_url: Some("https://src/t".to_string()),
    }
}

fn item_of(event: ServerEvent) -> DownloadItem {
    match event {
        ServerEvent::TrackUpdate { item } => *item,
        other => panic!("not a track update: {other:?}"),
    }
}

#[test]
fn test_cancellation_registry_flow() {
    let mut registry = CancellationRegistry::default();
    let rx1 = registry.register(100);
    assert!(!*rx1.borrow());

    registry.trigger_cancel(100);
    assert!(*rx1.borrow());

    let rx_after = registry.get_receiver(100).unwrap();
    assert!(*rx_after.borrow());

    registry.unregister(100);
    assert!(registry.get_receiver(100).is_none());
    assert!(!*registry.register(100).borrow());
}

#[test]
fn test_cancel_before_get_receiver() {
    let mut registry = CancellationRegistry::default();
    registry.trigger_cancel(200);

    let rx = registry.get_receiver(200).unwrap();
    assert!(*rx.borrow());
}

#[test]
fn register_after_cancel_starts_cancelled() {
    let mut registry = CancellationRegistry::default();
    registry.trigger_cancel(5);
    let rx = registry.register(5);
    assert!(*rx.borrow());
    assert!(registry.get_receiver(6).is_none());
}

#[test]
fn add_task_queues_and_announces() {
    let mut dm = DownloadManager::new();
    let mut events = dm.subscribe();
    let rx = dm.add_task(track(1));
    assert!(!*rx.borrow());
    let queue = dm.get_queue();
    assert_eq!(queue.len(), 1);
    assert_eq!(queue[0].id, 1);
    assert_eq!(queue[0].status, DownloadStatus::Queued);
    assert_eq!(queue[0].details.title, "Title 1");
    assert_eq!(queue[0].details.source_url.as_deref(), Some("https://src/t"));
    let item = item_of(events.try_recv().unwrap());
    assert_eq!(item.id, 1);
    assert_eq!(item.status, DownloadStatus::Queued);
    assert!(item.progress.is_none());
}

#[test]
fn downloading_and_progress_updates() {
    let mut dm = DownloadManager::new();
    let mut events = dm.subscribe();
    let _rx = dm.add_task(track(2));
    let _ = events.try_recv().unwrap();
    dm.update_downloading(2);
    let item = item_of(events.try_recv().unwrap());
    assert_eq!(item.status, DownloadStatus::Downloading);
    assert_eq!(item.progress, Some(PROGRESS_NONE));
    assert_eq!(f64::from_bits(PROGRESS_NONE), 0.0);
    assert_eq!(dm.task_progress(2), Some(Some(PROGRESS_NONE)));

    dm.update_progress(2, 12.5f64.to_bits(), true);
    let item = item_of(events.try_recv().unwrap());
    assert_eq!(item.status, DownloadStatus::Downloading);
    assert_eq!(item.progress, Some(12.5f64.to_bits()));
    assert_eq!(dm.task_progress(2), Some(Some(12.5f64.to_bits())));

    // A percentage that did not move enough is neither shown nor announced.
    dm.update_progress(2, 12.6f64.to_bits(), false);
    assert!(events.try_recv().is_err());
    assert_eq!(dm.task_progress(2), Some(Some(12.5f64.to_bits())));

    // A task that shows no percentage yet takes the first one it gets.
    let _rx3 = dm.add_task(track(3));
    let _ = events.try_recv().unwrap();
    assert_eq!(dm.task_progress(3), Some(None));
    dm.update_progress(3, 0.1f64.to_bits(), false);
    let item = item_of(events.try_recv().unwrap());
    assert_eq!(item.progress, Some(0.1f64.to_bits()));

    // Unknown ids change nothing.
    dm.update_progress(99, 1.0f64.to_bits(), true);
    dm.update_downloading(99);
    assert_eq!(dm.task_progress(99), None);
    assert!(events.try_recv().is_err());
}

#[test]
fn finished_task_leaves_queue() {
    let mut dm = DownloadManager::new();
    let mut events = dm.subscribe();
    let _rx = dm.add_task(track(3));
    let _ = events.try_recv().unwrap();
    dm.update_finished(3, "mp3", 1700000000, Some("https://final/url"), 4096);
    assert!(dm.get_queue().is_empty());
    let item = item_of(events.try_recv().unwrap());
    assert_eq!(item.status, DownloadStatus::Finished);
    assert_eq!(item.format.as_deref(), Some("mp3"));
    assert_eq!(item.created_at, Some(1700000000));
    assert_eq!(item.details.source_url.as_deref(), Some("https://final/url"));
    assert_eq!(item.progress, Some(PROGRESS_FULL));
    assert_eq!(f64::from_bits(PROGRESS_FULL), 100.0);
    assert_eq!(item.size, Some(4096));
    assert!(dm.get_cancel_receiver(3).is_none());
    // Finishing an unknown task announces nothing.
    dm.update_finished(3, "mp3", 1, None, 1);
    assert!(events.try_recv().is_err());
}

#[test]
fn failed_task_leaves_queue_with_error() {
    let mut dm = DownloadManager::new();
    let mut events = dm.subscribe();
    let _rx = dm.add_task(track(4));
    let _ = events.try_recv().unwrap();
    dm.update_failed(4, "network down");
    assert!(dm.is_idle());
    let item = item_of(events.try_recv().unwrap());
    assert_eq!(item.status, DownloadStatus::Failed);
    assert_eq!(item.error.as_deref(), Some("network down"));
}

#[test]
fn removed_task_is_cancelled() {
    let mut dm = DownloadManager::new();
    let mut events = dm.subscribe();
    let rx = dm.add_task(track(5));
    let _ = events.try_recv().unwrap();
    assert!(!*rx.borrow());
    assert!(!*dm.get_cancel_receiver(5).unwrap().borrow());
    dm.remove_task(5);
    assert!(*rx.borrow());
    let item = item_of(events.try_recv().unwrap());
    assert_eq!(item.status, DownloadStatus::Canceled);
    assert!(item.error.is_none());
    assert!(dm.get_queue().is_empty());
    // A receiver asked for later still sees the cancellation.
    assert!(*dm.get_cancel_receiver(5).unwrap().borrow());
    // The mark stays: the task queued again starts out cancelled.
    let again = dm.add_task(track(5));
    assert!(*again.borrow());
    // Once it ends, the mark is cleared.
    dm.update_failed(5, "stopped");
    assert!(dm.get_cancel_receiver(5).is_none());
    let fresh = dm.add_task(track(5));
    assert!(!*fresh.borrow());
}

#[test]
fn reservation_is_exclusive() {
    let mut dm = DownloadManager::new();
    assert!(dm.is_idle());
    assert!(dm.reserve_url("https://a"));
    assert!(!dm.reserve_url("https://a"));
    assert!(!dm.is_idle());
    assert_eq!(dm.get_reserved_urls(), vec!["https://a".to_string()]);
    dm.release_url("https://a");
    assert!(dm.is_idle());
    assert!(dm.reserve_url("https://a"));
}

#[test]
fn start_and_finish_download_events() {
    let mut dm = DownloadManager::new();
    let mut events = dm.subscribe();
    let ok = start_download(&mut dm, "https://x").unwrap();
    assert_eq!(ok.status, "queued");
    assert_eq!(ok.message, "Started for: https://x");
    match events.try_recv().unwrap() {
        ServerEvent::SyncStarted { url } => assert_eq!(url, "https://x"),
        other => panic!("unexpected {other:?}"),
    }
    let err = start_download(&mut dm, "https://x").unwrap_err();
    assert_eq!(err.status, 409);
    assert_eq!(err.code, ErrorCode::AlreadyProcessing);
    assert_eq!(err.message, "This URL is already being processed");

    finish_download(&mut dm, "https://x", Some("boom".to_string()));
    match events.try_recv().unwrap() {
        ServerEvent::Error { message } => assert_eq!(message, "Download failed: boom"),
        other => panic!("unexpected {other:?}"),
    }
    match events.try_recv().unwrap() {
        ServerEvent::SyncFinished { url } => assert_eq!(url.as_deref(), Some("https://x")),
        other => panic!("unexpected {other:?}"),
    }
    assert!(dm.is_idle());
}

#[test]
fn opening_events_welcome_then_queue() {
    let mut dm = DownloadManager::new();
    let _a = dm.add_task(track(7));
    let queue = dm.get_queue();
    let events = opening_events(&queue);
    assert_eq!(events.len(), 2);
    match &events[0] {
        ServerEvent::Message { message, level } => {
            assert_eq!(message, "Connected to event stream");
            assert_eq!(*level, MessageLevel::Info);
        }
        other => panic!("unexpected {other:?}"),
    }
    assert_eq!(item_of(events[1].clone()).id, 7);
    let again = queue_updates(&queue);
    assert_eq!(again.len(), 1);
    assert_eq!(item_of(again[0].clone()).id, 7);
}

#[test]
fn forward_subscription_outcomes() {
    assert!(matches!(forward(Received::Lagged), Delivery::Resync));
    assert!(matches!(forward(Received::Closed), Delivery::Stop));
    let e = forward(Received::Event(ServerEvent::Error { message: "m".to_string() }));
    assert!(matches!(e, Delivery::Send(ServerEvent::Error { .. })));
}
