//! The download queue: the tasks and their states, the cancellation of
//! tasks, and the events announced to clients.
pub mod cancellation;
pub mod event_bus;
pub mod queue;
pub mod types;

use crate::api::download_manager::cancellation::CancellationRegistry;
use crate::api::download_manager::event_bus::EventBus;
use crate::api::download_manager::queue::TaskQueue;
use crate::api::download_manager::types::{
    DiscoveredMusicTrack, DownloadItem, DownloadStatus, DownloadTrackDetails, ServerEvent, PROGRESS_FULL,
    PROGRESS_NONE,
};
use crate::text::{string_from, views};
use vstd::prelude::*;

verus! {

/// The size a caller assumes for a download whose size is unknown, in
/// bytes, when it computes the percentage done.
pub const ASSUMED_TOTAL: u64 = 3500000;

// ---------------------------------------------------------------------------
// The queue's transitions
// ---------------------------------------------------------------------------

/// A task marked as running, from its very start.
pub open spec fn started(item: DownloadItem) -> DownloadItem {
    DownloadItem {
        status: DownloadStatus::Downloading,
        progress: Some(PROGRESS_NONE),
        ..item
    }
}

/// A running task with new progress.
pub open spec fn advanced(item: DownloadItem, p: u64) -> DownloadItem {
    DownloadItem { status: DownloadStatus::Downloading, progress: Some(p), ..item }
}

/// `item` is `before` finished: saved in `format`, at `created_at`, from
/// `source_url`, with full progress and `size` bytes.
pub open spec fn finished_as(
    item: DownloadItem,
    before: DownloadItem,
    format: Seq<char>,
    created_at: u64,
    source_url: Option<Seq<char>>,
    size: u64,
) -> bool {
    &&& item == DownloadItem {
        details: DownloadTrackDetails { source_url: item.details.source_url, ..before.details },
        status: DownloadStatus::Finished,
        format: item.format,
        created_at: Some(created_at),
        progress: Some(PROGRESS_FULL),
        size: Some(size),
        ..before
    }
    &&& item.format matches Some(f) && f@ == format
    &&& match source_url {
        Some(u) => item.details.source_url matches Some(s) && s@ == u,
        None => item.details.source_url is None,
    }
}

/// `item` is `before` failed with the message `message`.
pub open spec fn failed_as(item: DownloadItem, before: DownloadItem, message: Seq<char>) -> bool {
    &&& item == DownloadItem { status: DownloadStatus::Failed, error: item.error, ..before }
    &&& item.error matches Some(m) && m@ == message
}

/// The text of an optional string.
pub open spec fn opt_view(o: Option<&str>) -> Option<Seq<char>> {
    match o {
        Some(s) => Some(s@),
        None => None,
    }
}

/// The announcement of the last change of `item`.
pub open spec fn update_of(item: DownloadItem) -> ServerEvent {
    ServerEvent::TrackUpdate { item: Box::new(item) }
}

/// The facade of the download queue: the tasks, their cancellation, and
/// the events announced about them.
pub struct DownloadManager {
    queue: TaskQueue,
    events: EventBus,
    cancellation: CancellationRegistry,
}

impl DownloadManager {
    /// The queue is well formed, and holds only tasks that are waiting or
    /// running.
    pub closed spec fn wf(&self) -> bool {
        &&& self.queue.wf()
        &&& self.cancellation.wf()
        &&& forall|k: i64| #[trigger] self.queue.tasks().contains_key(k) ==> self.queue.tasks()[k].active()

    }

    /// The tasks by id.
    pub closed spec fn tasks(&self) -> Map<i64, DownloadItem> {
        self.queue.tasks()
    }

    /// The source URLs being processed.
    pub closed spec fn reserved(&self) -> Set<Seq<char>> {
        self.queue.reserved()
    }

    /// The tasks with a cancellation channel.
    pub closed spec fn registered(&self) -> Set<i64> {
        self.cancellation.registered()
    }

    /// The tasks cancelled and not yet unregistered.
    pub closed spec fn canceled(&self) -> Set<i64> {
        self.cancellation.canceled()
    }

    /// Every value handed to a cancellation channel, oldest first, with its
    /// task (see `CancellationRegistry::handed`).
    pub closed spec fn handed(&self) -> Seq<(i64, bool)> {
        self.cancellation.handed()
    }

    /// The events announced so far, oldest first.
    pub closed spec fn sent(&self) -> Seq<ServerEvent> {
        self.events.sent()
    }

    /// An empty queue.
    pub fn new() -> (r: Self)
        ensures
            r.wf(),
            r.tasks() == Map::<i64, DownloadItem>::empty(),
            r.reserved() == Set::<Seq<char>>::empty(),
            r.registered() == Set::<i64>::empty(),
            r.canceled() == Set::<i64>::empty(),
            r.handed() == Seq::<(i64, bool)>::empty(),
            r.sent() == Seq::<ServerEvent>::empty(),
    {
        DownloadManager {
            queue: TaskQueue::new(),
            events: EventBus::default(),
            cancellation: CancellationRegistry::default(),
        }
    }

    /// Reserves the source URL `url`: true when nobody was processing it.
    pub fn reserve_url(&mut self, url: &str) -> (r: bool)
        requires
            old(self).wf(),
        ensures
            final(self).wf(),
            r == !old(self).reserved().contains(url@),
            final(self).reserved() == old(self).reserved().insert(url@),
            final(self).tasks() == old(self).tasks(),
            final(self).registered() == old(self).registered(),
            final(self).canceled() == old(self).canceled(),
            final(self).handed() == old(self).handed(),
            final(self).sent() == old(self).sent(),
    {
        self.queue.reserve_url(url)
    }

    /// Gives up the reservation of `url`.
    pub fn release_url(&mut self, url: &str)
        requires
            old(self).wf(),
        ensures
            final(self).wf(),
            final(self).reserved() == old(self).reserved().remove(url@),
            final(self).tasks() == old(self).tasks(),
            final(self).registered() == old(self).registered(),
            final(self).canceled() == old(self).canceled(),
            final(self).handed() == old(self).handed(),
            final(self).sent() == old(self).sent(),
    {
        self.queue.release_url(url)
    }

    /// Queues a newly discovered track, gives it a cancellation channel (whose
    /// receiver is returned) and announces it.
    pub fn add_task(&mut self, task: DiscoveredMusicTrack) -> (r: tokio::sync::watch::Receiver<bool>)
        requires
            old(self).wf(),
        ensures
            final(self).wf(),
            final(self).tasks() == old(self).tasks().insert(task.id, DownloadItem::from_spec(task)),
            final(self).tasks()[task.id].details.title == task.title,
            final(self).tasks()[task.id].details.artist == task.artist,
            final(self).tasks()[task.id].details.artwork_url == task.artwork_url,
            final(self).tasks()[task.id].details.source_url == task.permalink_url,
            final(self).tasks()[task.id].status == DownloadStatus::Queued,
            final(self).registered() == old(self).registered().insert(task.id),
            final(self).canceled() == old(self).canceled(),
            final(self).handed() == old(self).handed().push((task.id, old(self).canceled().contains(task.id))),
            final(self).reserved() == old(self).reserved(),
            final(self).sent() == old(self).sent().push(
                ServerEvent::TrackUpdate { item: Box::new(DownloadItem::from_spec(task)) },
            ),
    {
        let item = DownloadItem::from(task);
        let rx = self.cancellation.register(item.id);
        self.queue.insert(item.duplicate());
        self.events.notify_track_update(item);
        rx
    }

    /// A receiver of the cancellation of task `id`, if one can be had: one of
    /// a new channel created with `true` when the task was cancelled, one of
    /// its channel (last handed `false`) when it is registered and not
    /// cancelled.
    pub fn get_cancel_receiver(&mut self, id: i64) -> (r: Option<tokio::sync::watch::Receiver<bool>>)
        requires
            old(self).wf(),
        ensures
            final(self).wf(),
            r is Some == cancellation::receiver_available(old(self).registered(), old(self).canceled(), id),
            old(self).canceled().contains(id) ==> final(self).handed() == old(self).handed().push((id, true)),
            !old(self).canceled().contains(id) ==> final(self).handed() == old(self).handed(),
            !old(self).canceled().contains(id) && old(self).registered().contains(id)
                ==> cancellation::last_handed(old(self).handed(), id) == Some(false),
            final(self).tasks() == old(self).tasks(),
            final(self).registered() == old(self).registered(),
            final(self).canceled() == old(self).canceled(),
            final(self).reserved() == old(self).reserved(),
            final(self).sent() == old(self).sent(),
    {
        self.cancellation.get_receiver(id)
    }

    /// Marks task `id` as running and announces it; nothing happens when it
    /// is not in the queue.
    pub fn update_downloading(&mut self, id: i64)
        requires
            old(self).wf(),
        ensures
            final(self).wf(),
            old(self).tasks().contains_key(id) ==> final(self).tasks() == old(self).tasks().insert(
                id,
                started(old(self).tasks()[id]),
            ) && final(self).sent() == old(self).sent().push(
                ServerEvent::TrackUpdate { item: Box::new(started(old(self).tasks()[id])) },
            ),
            !old(self).tasks().contains_key(id) ==> final(self).tasks() == old(self).tasks()
                && final(self).sent() == old(self).sent(),
            final(self).registered() == old(self).registered(),
            final(self).canceled() == old(self).canceled(),
            final(self).handed() == old(self).handed(),
            final(self).reserved() == old(self).reserved(),
    {
        if let Some(mut item) = self.queue.get(id) {
            item.status = DownloadStatus::Downloading;
            item.progress = Some(PROGRESS_NONE);
            self.queue.insert(item.duplicate());
            self.events.notify_track_update(item);
            proof {
                assert(self.queue.tasks() =~= old(self).queue.tasks().insert(id, started(old(self).tasks()[id])));
            }
        }
    }

    /// The progress shown for task `id` (`None` when it is not in the queue).
    pub fn task_progress(&self, id: i64) -> (r: Option<Option<u64>>)
        requires
            self.wf(),
        ensures
            match r {
                Some(p) => self.tasks().contains_key(id) && p == self.tasks()[id].progress,
                None => !self.tasks().contains_key(id),
            },
    {
        match self.queue.get(id) {
            Some(item) => Some(item.progress),
            None => None,
        }
    }

    /// Shows the progress `progress` (a percentage, as the bit pattern of an
    /// `f64`) for task `id` when it has shown none yet or the percentage
    /// moved enough (`moved_enough`: by half a point or more from the one
    /// shown, a floating-point comparison the caller makes): the task is
    /// marked running with it and announced. Otherwise, and when the task is
    /// not in the queue, nothing happens.
    pub fn update_progress(&mut self, id: i64, progress: u64, moved_enough: bool)
        requires
            old(self).wf(),
        ensures
            final(self).wf(),
            old(self).tasks().contains_key(id) && (old(self).tasks()[id].progress is None || moved_enough)
                ==> final(self).tasks() == old(self).tasks().insert(id, advanced(old(self).tasks()[id], progress))
                && final(self).sent() == old(self).sent().push(
                ServerEvent::TrackUpdate { item: Box::new(advanced(old(self).tasks()[id], progress)) },
            ),
            !(old(self).tasks().contains_key(id) && (old(self).tasks()[id].progress is None || moved_enough))
                ==> final(self).tasks() == old(self).tasks() && final(self).sent() == old(self).sent(),
            final(self).registered() == old(self).registered(),
            final(self).canceled() == old(self).canceled(),
            final(self).handed() == old(self).handed(),
            final(self).reserved() == old(self).reserved(),
    {
        if let Some(mut item) = self.queue.get(id) {
            if item.progress.is_none() || moved_enough {
                item.progress = Some(progress);
                item.status = DownloadStatus::Downloading;
                self.queue.insert(item.duplicate());
                self.events.notify_track_update(item);
                proof {
                    assert(self.queue.tasks() =~= old(self).queue.tasks().insert(
                        id,
                        advanced(old(self).tasks()[id], progress),
                    ));
                }
            }
        }
    }

    /// Records that task `id` finished: it leaves the queue and its
    /// cancellation channel is dropped; when it was queued, it is announced
    /// as finished with its format, time, source, full progress and size.
    pub fn update_finished(
        &mut self,
        id: i64,
        format: &str,
        created_at: u64,
        source_url: Option<&str>,
        size: u64,
    )
        requires
            old(self).wf(),
        ensures
            final(self).wf(),
            final(self).tasks() == old(self).tasks().remove(id),
            final(self).registered() == old(self).registered().remove(id),
            final(self).canceled() == old(self).canceled().remove(id),
            final(self).handed() == old(self).handed(),
            final(self).reserved() == old(self).reserved(),
            !old(self).tasks().contains_key(id) ==> final(self).sent() == old(self).sent(),
            old(self).tasks().contains_key(id) ==> exists|item: DownloadItem|
                #![trigger update_of(item)]
                final(self).sent() == old(self).sent().push(update_of(item)) && finished_as(
                    item,
                    old(self).tasks()[id],
                    format@,
                    created_at,
                    opt_view(source_url),
                    size,
                ),
    {
        self.cancellation.unregister(id);
        if let Some(mut item) = self.queue.remove(id) {
            item.status = DownloadStatus::Finished;
            item.format = Some(string_from(format));
            item.created_at = Some(created_at);
            item.details.source_url = match source_url {
                Some(u) => Some(string_from(u)),
                None => None,
            };
            item.progress = Some(PROGRESS_FULL);
            item.size = Some(size);
            let ghost done = item;
            self.events.notify_track_update(item);
            proof {
                assert(finished_as(done, old(self).tasks()[id], format@, created_at, opt_view(source_url), size));
                assert(self.sent() == old(self).sent().push(update_of(done)));
            }
        }
    }

    /// Records that task `id` failed with `error_message`: it leaves the
    /// queue, its cancellation channel is dropped, and, when it was queued,
    /// it is announced as failed with that message.
    pub fn update_failed(&mut self, id: i64, error_message: &str)
        requires
            old(self).wf(),
        ensures
            final(self).wf(),
            final(self).tasks() == old(self).tasks().remove(id),
            final(self).registered() == old(self).registered().remove(id),
            final(self).canceled() == old(self).canceled().remove(id),
            final(self).handed() == old(self).handed(),
            final(self).reserved() == old(self).reserved(),
            !old(self).tasks().contains_key(id) ==> final(self).sent() == old(self).sent(),
            old(self).tasks().contains_key(id) ==> exists|item: DownloadItem|
                #![trigger update_of(item)]
                final(self).sent() == old(self).sent().push(update_of(item)) && failed_as(
                    item,
                    old(self).tasks()[id],
                    error_message@,
                ),
    {
        self.cancellation.unregister(id);
        if let Some(mut item) = self.queue.remove(id) {
            item.status = DownloadStatus::Failed;
            item.error = Some(string_from(error_message));
            let ghost failed = item;
            self.events.notify_track_update(item);
            proof {
                assert(failed_as(failed, old(self).tasks()[id], error_message@));
                assert(self.sent() == old(self).sent().push(update_of(failed)));
            }
        }
    }

    /// Cancels task `id`: it is marked cancelled (also when it is not
    /// registered yet), it leaves the queue, and, when it was queued, it is
    /// announced as cancelled with no error.
    pub fn remove_task(&mut self, id: i64)
        requires
            old(self).wf(),
        ensures
            final(self).wf(),
            final(self).tasks() == old(self).tasks().remove(id),
            final(self).canceled() == old(self).canceled().insert(id),
            final(self).registered() == old(self).registered(),
            old(self).registered().contains(id) ==> final(self).handed() == old(self).handed().push((id, true)),
            !old(self).registered().contains(id) ==> final(self).handed() == old(self).handed(),
            final(self).reserved() == old(self).reserved(),
            !old(self).tasks().contains_key(id) ==> final(self).sent() == old(self).sent(),
            old(self).tasks().contains_key(id) ==> final(self).sent() == old(self).sent().push(
                ServerEvent::TrackUpdate {
                    item: Box::new(
                        DownloadItem {
                            status: DownloadStatus::Canceled,
                            error: None,
                            ..old(self).tasks()[id]
                        },
                    ),
                },
            ),
    {
        self.cancellation.trigger_cancel(id);
        if let Some(mut item) = self.queue.remove(id) {
            item.status = DownloadStatus::Canceled;
            item.error = None;
            self.events.notify_track_update(item);
        }
    }

    /// Announces `event` to every client watching.
    pub fn broadcast_event(&mut self, event: ServerEvent)
        requires
            old(self).wf(),
        ensures
            final(self).wf(),
            final(self).sent() == old(self).sent().push(event),
            final(self).tasks() == old(self).tasks(),
            final(self).registered() == old(self).registered(),
            final(self).canceled() == old(self).canceled(),
            final(self).handed() == old(self).handed(),
            final(self).reserved() == old(self).reserved(),
    {
        self.events.broadcast(event);
    }

    /// The tasks in the queue, each once (all of them are waiting or
    /// running).
    pub fn get_queue(&self) -> (r: Vec<DownloadItem>)
        requires
            self.wf(),
        ensures
            r@.map_values(|it: DownloadItem| it.id).no_duplicates(),
            forall|i: int| 0 <= i < r@.len() ==> #[trigger] self.tasks().contains_key(r@[i].id)
                && self.tasks()[r@[i].id] == r@[i] && r@[i].active(),
            forall|k: i64| #[trigger] self.tasks().contains_key(k) ==> exists|i: int|
                0 <= i < r@.len() && r@[i].id == k,
    {
        let r = self.queue.active_items();
        assert forall|i: int| 0 <= i < r@.len() implies #[trigger] self.tasks().contains_key(r@[i].id)
            && self.tasks()[r@[i].id] == r@[i] && r@[i].active() by {
            assert(self.queue.tasks().contains_key(r@[i].id));
        }
        assert forall|k: i64| #[trigger] self.tasks().contains_key(k) implies exists|i: int|
            0 <= i < r@.len() && r@[i].id == k by {
            assert(self.queue.tasks().contains_key(k) && self.queue.tasks()[k].active());
        }
        r
    }

    /// The source URLs being processed, each once.
    pub fn get_reserved_urls(&self) -> (r: Vec<String>)
        requires
            self.wf(),
        ensures
            views(r@).no_duplicates(),
            views(r@).to_set() == self.reserved(),
    {
        self.queue.get_reserved_urls()
    }

    /// Whether no task is queued and no URL is being processed.
    pub fn is_idle(&self) -> (r: bool)
        requires
            self.wf(),
        ensures
            r == (self.tasks().dom().len() == 0 && self.reserved().len() == 0),
    {
        let empty = self.queue.is_empty();
        let urls = self.queue.get_reserved_urls();
        proof {
            if urls@.len() == 0 {
                assert(views(urls@).to_set() =~= Set::<Seq<char>>::empty());
            } else {
                assert(views(urls@).to_set().contains(views(urls@)[0]));
                assert(self.reserved().len() > 0) by {
                    vstd::set_lib::lemma_set_empty_equivalency_len(self.reserved());
                }
            }
        }
        empty && urls.len() == 0
    }

    /// A receiver of the events announced from now on.
    pub fn subscribe(&self) -> tokio::sync::broadcast::Receiver<ServerEvent> {
        self.events.subscribe()
    }
}

// ---------------------------------------------------------------------------
// Laws
// ---------------------------------------------------------------------------

/// Only downloads that are waiting or running are ever in the queue, each
/// filed under its own id.
pub proof fn lemma_queue_holds_only_active(m: &DownloadManager, id: i64)
    requires
        m.wf(),
        m.tasks().contains_key(id),
    ensures
        m.tasks()[id].active(),
        m.tasks()[id].id == id,
{
    m.queue.lemma_filed_under_id(id);
}

/// A URL cannot be reserved twice: once `reserve_url` took it, a second
/// `reserve_url` of it answers false until `release_url` gives it up, and
/// after that it can be reserved again.
pub proof fn lemma_reservation_exclusive(
    m0: &DownloadManager,
    m1: &DownloadManager,
    m2: &DownloadManager,
    url: Seq<char>,
)
    requires
        m1.reserved() == m0.reserved().insert(url),
        m2.reserved() == m1.reserved().remove(url),
    ensures
        m1.reserved().contains(url),
        !m2.reserved().contains(url),
{
}

/// A task that finished, failed or was cancelled is out of the queue, and
/// nothing else in the queue changed.
pub proof fn lemma_ended_task_leaves(before: &DownloadManager, after: &DownloadManager, id: i64)
    requires
        after.tasks() == before.tasks().remove(id),
    ensures
        !after.tasks().contains_key(id),
        forall|k: i64| k != id ==> (#[trigger] after.tasks().contains_key(k) == before.tasks().contains_key(k)),
        forall|k: i64| k != id && before.tasks().contains_key(k) ==> #[trigger] after.tasks()[k] == before.tasks()[k],
{
}

/// The cancellation channel of a task in the queue's registry was last
/// handed `true` exactly when the task is cancelled: receivers handed out
/// for a task not cancelled read `false`, and `true` once it is.
pub proof fn lemma_task_channel_follows_cancel(m: &DownloadManager, id: i64)
    requires
        m.wf(),
        m.registered().contains(id),
    ensures
        cancellation::last_handed(m.handed(), id) == Some(m.canceled().contains(id)),
{
    cancellation::lemma_channel_follows_cancel(&m.cancellation, id);
}

} // verus!
