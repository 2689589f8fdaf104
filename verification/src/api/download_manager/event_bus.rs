//! The broadcasting of events to the clients that watch the queue. The bus
//! keeps, as a ghost log, every event it was asked to send, so that the
//! contracts of the queue can say what it announces.
use super::types::{DownloadItem, ServerEvent};
use tokio::sync::broadcast::{Receiver, Sender};
use vstd::prelude::*;

verus! {

/// The sending half of a `tokio::sync::broadcast` channel.
#[verifier::external_type_specification]
#[verifier::external_body]
#[verifier::reject_recursive_types(T)]
pub struct ExBroadcastSender<T>(Sender<T>);

/// The receiving half of a `tokio::sync::broadcast` channel.
#[verifier::external_type_specification]
#[verifier::external_body]
#[verifier::reject_recursive_types(T)]
pub struct ExBroadcastReceiver<T>(Receiver<T>);

/// Calls `tokio::sync::broadcast::channel(capacity)`, which panics on a
/// capacity of 0 or above `usize::MAX / 2` (hence the precondition). The
/// channel's contents are shared state that Verus does not see.
#[verifier::external_body]
fn broadcast_channel(capacity: usize) -> (Sender<ServerEvent>, Receiver<ServerEvent>)
    requires
        0 < capacity <= usize::MAX / 2,
{
    tokio::sync::broadcast::channel(capacity)
}

/// Calls `Sender::send`, which queues `event` for every live receiver and
/// fails when there is none; the outcome is dropped, as the bus has no use
/// for it.
#[verifier::external_body]
fn broadcast_send(tx: &Sender<ServerEvent>, event: ServerEvent) {
    let _ = tx.send(event);
}

/// Calls `Sender::subscribe`: a receiver of the events sent from now on.
/// Nothing is stated of the receiver: what it will receive is the channel's
/// shared state, which Verus does not see.
#[verifier::external_body]
fn broadcast_subscribe(tx: &Sender<ServerEvent>) -> Receiver<ServerEvent> {
    tx.subscribe()
}

/// The event bus of the download queue.
pub struct EventBus {
    tx: Sender<ServerEvent>,
    sent: Ghost<Seq<ServerEvent>>,
}

impl EventBus {
    /// The events the bus was asked to send, oldest first.
    pub closed spec fn sent(&self) -> Seq<ServerEvent> {
        self.sent@
    }

    /// Sends `event` to every client watching.
    pub fn broadcast(&mut self, event: ServerEvent)
        ensures
            final(self).sent() == old(self).sent().push(event),
    {
        let ghost e = event;
        broadcast_send(&self.tx, event);
        proof {
            self.sent@ = self.sent@.push(e);
        }
    }

    /// Announces the new state of a download.
    pub fn notify_track_update(&mut self, item: DownloadItem)
        ensures
            final(self).sent() == old(self).sent().push(ServerEvent::TrackUpdate { item: Box::new(item) }),
    {
        self.broadcast(ServerEvent::TrackUpdate { item: Box::new(item) });
    }

    /// A receiver of the events sent from now on.
    pub fn subscribe(&self) -> Receiver<ServerEvent> {
        broadcast_subscribe(&self.tx)
    }
}

impl Default for EventBus {
    fn default() -> (r: Self)
        ensures
            r.sent() == Seq::<ServerEvent>::empty(),
    {
        let (tx, _) = broadcast_channel(10240);
        EventBus { tx, sent: Ghost(Seq::empty()) }
    }
}

} // verus!
