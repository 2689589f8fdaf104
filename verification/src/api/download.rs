//! The download endpoints: accepting a download, announcing its end, and
//! what a client watching the queue is sent.
use crate::api::download_manager::types::{welcome_event, DownloadItem, MessageLevel, ServerEvent};
use crate::api::download_manager::DownloadManager;
use crate::api::errors::{ApiError, ErrorCode, STATUS_CONFLICT};
use crate::api::models::ActionStatus;
use crate::text::{push_seq, string_from};
use vstd::prelude::*;

verus! {

/// The announcement that the processing of `url` started.
pub open spec fn started_event(e: ServerEvent, url: Seq<char>) -> bool {
    e matches ServerEvent::SyncStarted { url: u } && u@ == url
}

/// Accepts the download of `url`: refused as a conflict (code
/// `AlreadyProcessing`) while the URL is being processed; else the URL is
/// reserved, its start announced, and the answer says it is queued.
pub fn start_download(dm: &mut DownloadManager, url: &str) -> (r: Result<ActionStatus, ApiError>)
    requires
        old(dm).wf(),
    ensures
        final(dm).wf(),
        final(dm).tasks() == old(dm).tasks(),
        final(dm).registered() == old(dm).registered(),
        final(dm).canceled() == old(dm).canceled(),
        old(dm).reserved().contains(url@) ==> (r matches Err(e) && e.status == STATUS_CONFLICT && e.code
            == ErrorCode::AlreadyProcessing && e.message@ == "This URL is already being processed"@)
            && final(dm).reserved() == old(dm).reserved() && final(dm).sent() == old(dm).sent(),
        !old(dm).reserved().contains(url@) ==> (r matches Ok(a) && a.status@ == "queued"@ && a.message@
            == "Started for: "@ + url@) && final(dm).reserved() == old(dm).reserved().insert(url@)
            && final(dm).sent().len() == old(dm).sent().len() + 1 && final(dm).sent().drop_last()
            == old(dm).sent() && started_event(final(dm).sent().last(), url@),
{
    if !dm.reserve_url(url) {
        let e = ApiError::conflict(string_from("This URL is already being processed"));
        return Err(e.with_code(ErrorCode::AlreadyProcessing));
    }
    dm.broadcast_event(ServerEvent::SyncStarted { url: string_from(url) });
    proof {
        assert(dm.sent().drop_last() =~= old(dm).sent());
    }
    let mut message = string_from("Started for: ");
    push_seq(&mut message, url);
    Ok(ActionStatus { status: string_from("queued"), message })
}

/// Announces the end of the processing of `url`: its failure first, when
/// it failed (with the reason), then the end of the processing; the URL is
/// given up.
pub fn finish_download(dm: &mut DownloadManager, url: &str, failure: Option<String>)
    requires
        old(dm).wf(),
    ensures
        final(dm).wf(),
        final(dm).tasks() == old(dm).tasks(),
        final(dm).registered() == old(dm).registered(),
        final(dm).canceled() == old(dm).canceled(),
        final(dm).reserved() == old(dm).reserved().remove(url@),
        final(dm).sent().len() == old(dm).sent().len() + if failure is Some {
            2int
        } else {
            1int
        },
        final(dm).sent().take(old(dm).sent().len() as int) == old(dm).sent(),
        failure matches Some(f) ==> (final(dm).sent()[old(dm).sent().len() as int] matches ServerEvent::Error {
            message,
        } && message@ == "Download failed: "@ + f@),
        final(dm).sent().last() matches ServerEvent::SyncFinished { url: u } && (u matches Some(v) && v@
            == url@),
{
    let ghost before = dm.sent();
    match failure {
        Some(f) => {
            let mut m = string_from("Download failed: ");
            push_seq(&mut m, f.as_str());
            dm.broadcast_event(ServerEvent::Error { message: m });
        },
        None => {},
    }
    let ghost mid = dm.sent();
    dm.release_url(url);
    dm.broadcast_event(ServerEvent::SyncFinished { url: Some(string_from(url)) });
    proof {
        assert(dm.sent().take(before.len() as int) =~= before);
        assert(dm.sent() =~= mid.push(dm.sent().last()));
    }
}

/// The state of each download in `queue`, as announcements, in order.
pub fn queue_updates(queue: &Vec<DownloadItem>) -> (r: Vec<ServerEvent>)
    ensures
        r@.len() == queue@.len(),
        forall|i: int|
            0 <= i < queue@.len() ==> #[trigger] r@[i] == (ServerEvent::TrackUpdate { item: Box::new(queue@[i]) }),
{
    let mut r: Vec<ServerEvent> = Vec::new();
    let mut i: usize = 0;
    while i < queue.len()
        invariant
            i <= queue@.len(),
            r@.len() == i,
            forall|j: int| 0 <= j < i ==> #[trigger] r@[j] == (ServerEvent::TrackUpdate { item: Box::new(queue@[j]) }),
        decreases queue@.len() - i,
    {
        let item = queue[i].duplicate();
        r.push(ServerEvent::TrackUpdate { item: Box::new(item) });
        i = i + 1;
    }
    r
}

/// What a client that starts watching the queue is sent first: the welcome
/// message, then the state of each download in the queue.
pub fn opening_events(queue: &Vec<DownloadItem>) -> (r: Vec<ServerEvent>)
    ensures
        r@.len() == queue@.len() + 1,
        r@[0] matches ServerEvent::Message { message, level } && message@ == "Connected to event stream"@
            && level == MessageLevel::Info,
        forall|i: int|
            0 <= i < queue@.len() ==> #[trigger] r@[i + 1] == (ServerEvent::TrackUpdate {
                item: Box::new(queue@[i]),
            }),
{
    let mut r: Vec<ServerEvent> = Vec::new();
    r.push(welcome_event());
    let mut updates = queue_updates(queue);
    r.append(&mut updates);
    r
}

/// What came out of the subscription to the queue's events.
pub enum Received {
    /// The next event.
    Event(ServerEvent),
    /// Some events were missed because the client was too slow.
    Lagged,
    /// The queue stopped announcing.
    Closed,
}

/// What is done with what came out of the subscription.
#[derive(Debug)]
pub enum Delivery {
    /// Send this event on.
    Send(ServerEvent),
    /// Send the state of every download in the queue again (events were
    /// missed).
    Resync,
    /// End the stream.
    Stop,
}

/// What is done with what came out of the subscription: an event is sent
/// on, missed events are made up for by the queue's current state, and a
/// closed subscription ends the stream.
pub fn forward(received: Received) -> (r: Delivery)
    ensures
        received matches Received::Event(e) ==> (r matches Delivery::Send(f) && f == e),
        received is Lagged ==> r is Resync,
        received is Closed ==> r is Stop,
{
    match received {
        Received::Event(e) => Delivery::Send(e),
        Received::Lagged => Delivery::Resync,
        Received::Closed => Delivery::Stop,
    }
}

} // verus!
