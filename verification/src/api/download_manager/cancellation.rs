//! The cancellation of download tasks. Each registered task gets a watch
//! channel whose value turns `true` when the task is cancelled; a task can
//! be cancelled before it is registered, and then starts out cancelled.
use std::collections::{HashMap, HashSet};
use tokio::sync::watch::{Receiver, Sender};
use vstd::prelude::*;

verus! {

broadcast use vstd::std_specs::hash::group_hash_axioms;

/// The sending half of a `tokio::sync::watch` channel.
#[verifier::external_type_specification]
#[verifier::external_body]
#[verifier::reject_recursive_types(T)]
pub struct ExWatchSender<T>(Sender<T>);

/// The receiving half of a `tokio::sync::watch` channel.
#[verifier::external_type_specification]
#[verifier::external_body]
#[verifier::reject_recursive_types(T)]
pub struct ExWatchReceiver<T>(Receiver<T>);

/// Calls `tokio::sync::watch::channel(init)`: a new channel whose value is
/// `init`. The value a channel holds is shared state that Verus does not
/// see, so nothing is stated of it.
#[verifier::external_body]
fn watch_channel(init: bool) -> (Sender<bool>, Receiver<bool>) {
    tokio::sync::watch::channel(init)
}

/// Calls `Sender::send`, which sets the channel's value when a receiver
/// is alive and fails otherwise; the outcome is dropped, as the registry
/// has no use for it. Nothing is stated of the channel's value.
#[verifier::external_body]
fn watch_send(tx: &Sender<bool>, value: bool) {
    let _ = tx.send(value);
}

/// Calls `Sender::subscribe`: a new receiver of the same channel. Nothing
/// is stated of the channel's value.
#[verifier::external_body]
fn watch_subscribe(tx: &Sender<bool>) -> Receiver<bool> {
    tx.subscribe()
}

/// The cancellation channels of the download tasks.
pub struct CancellationRegistry {
    senders: HashMap<i64, Sender<bool>>,
    canceled_ids: HashSet<i64>,
    /// Every value handed to a channel of a task, oldest first: the value
    /// a channel was created with, and each value sent on one.
    handed: Ghost<Seq<(i64, bool)>>,
}

/// The value last handed to a channel of task `id` in the record `h`.
pub open spec fn last_handed(h: Seq<(i64, bool)>, id: i64) -> Option<bool>
    decreases h.len(),
{
    if h.len() == 0 {
        None
    } else if h.last().0 == id {
        Some(h.last().1)
    } else {
        last_handed(h.drop_last(), id)
    }
}

/// Handing `value` to a channel of `id` changes what was last handed for
/// `id` only.
pub proof fn lemma_last_handed_push(h: Seq<(i64, bool)>, id: i64, value: bool, other: i64)
    ensures
        last_handed(h.push((id, value)), other) == if other == id {
            Some(value)
        } else {
            last_handed(h, other)
        },
{
    assert(h.push((id, value)).drop_last() =~= h);
}

/// Whether a receiver of the cancellation of `id` can be handed out: when
/// the task is registered, or when it was cancelled (then a receiver that
/// holds `true` from the start).
pub open spec fn receiver_available(registered: Set<i64>, canceled: Set<i64>, id: i64) -> bool {
    canceled.contains(id) || registered.contains(id)
}

impl CancellationRegistry {
    /// The tasks with a channel.
    pub closed spec fn registered(&self) -> Set<i64> {
        self.senders@.dom()
    }

    /// The tasks cancelled and not yet unregistered.
    pub closed spec fn canceled(&self) -> Set<i64> {
        self.canceled_ids@
    }

    /// Every value handed to a channel, oldest first, with its task.
    pub closed spec fn handed(&self) -> Seq<(i64, bool)> {
        self.handed@
    }

    /// The channel of each registered task was last handed `true` exactly
    /// when the task is cancelled.
    pub closed spec fn wf(&self) -> bool {
        forall|id: i64| #[trigger] self.senders@.dom().contains(id) ==> last_handed(self.handed@, id) == Some(
            self.canceled_ids@.contains(id),
        )
    }

    /// Gives task `id` a channel created with `true` exactly when the task
    /// was already cancelled (`false` otherwise); returns its receiver.
    pub fn register(&mut self, id: i64) -> (r: Receiver<bool>)
        requires
            old(self).wf(),
        ensures
            final(self).wf(),
            final(self).registered() == old(self).registered().insert(id),
            final(self).canceled() == old(self).canceled(),
            final(self).handed() == old(self).handed().push((id, old(self).canceled().contains(id))),
    {
        let initial = self.canceled_ids.contains(&id);
        let (tx, rx) = watch_channel(initial);
        self.senders.insert(id, tx);
        proof {
            self.handed@ = self.handed@.push((id, initial));
            assert forall|k: i64| #[trigger] self.senders@.dom().contains(k) implies last_handed(self.handed@, k)
                == Some(self.canceled_ids@.contains(k)) by {
                lemma_last_handed_push(old(self).handed@, id, initial, k);
            }
        }
        rx
    }

    /// A receiver of the cancellation of task `id`: one of a new channel
    /// created with `true` when the task was cancelled, one of its channel
    /// (last handed `false`) when it is registered and not cancelled, none
    /// otherwise.
    pub fn get_receiver(&mut self, id: i64) -> (r: Option<Receiver<bool>>)
        requires
            old(self).wf(),
        ensures
            final(self).wf(),
            r is Some == receiver_available(old(self).registered(), old(self).canceled(), id),
            old(self).canceled().contains(id) ==> final(self).handed() == old(self).handed().push((id, true)),
            !old(self).canceled().contains(id) ==> final(self).handed() == old(self).handed(),
            !old(self).canceled().contains(id) && old(self).registered().contains(id) ==> last_handed(
                old(self).handed(),
                id,
            ) == Some(false),
            final(self).registered() == old(self).registered(),
            final(self).canceled() == old(self).canceled(),
    {
        if self.canceled_ids.contains(&id) {
            let (_tx, rx) = watch_channel(true);
            proof {
                self.handed@ = self.handed@.push((id, true));
                assert forall|k: i64| #[trigger] self.senders@.dom().contains(k) implies last_handed(
                    self.handed@,
                    k,
                ) == Some(self.canceled_ids@.contains(k)) by {
                    lemma_last_handed_push(old(self).handed@, id, true, k);
                }
            }
            return Some(rx);
        }
        match self.senders.get(&id) {
            Some(tx) => Some(watch_subscribe(tx)),
            None => None,
        }
    }

    /// Cancels task `id`: marks it cancelled and, when it has a channel,
    /// sends `true` on it.
    pub fn trigger_cancel(&mut self, id: i64)
        requires
            old(self).wf(),
        ensures
            final(self).wf(),
            final(self).canceled() == old(self).canceled().insert(id),
            final(self).registered() == old(self).registered(),
            old(self).registered().contains(id) ==> final(self).handed() == old(self).handed().push((id, true)),
            !old(self).registered().contains(id) ==> final(self).handed() == old(self).handed(),
    {
        self.canceled_ids.insert(id);
        if let Some(tx) = self.senders.get(&id) {
            watch_send(tx, true);
            proof {
                self.handed@ = self.handed@.push((id, true));
                assert forall|k: i64| #[trigger] self.senders@.dom().contains(k) implies last_handed(
                    self.handed@,
                    k,
                ) == Some(self.canceled_ids@.contains(k)) by {
                    lemma_last_handed_push(old(self).handed@, id, true, k);
                }
            }
        }
    }

    /// Forgets task `id`: its channel and its cancellation mark.
    pub fn unregister(&mut self, id: i64)
        requires
            old(self).wf(),
        ensures
            final(self).wf(),
            final(self).registered() == old(self).registered().remove(id),
            final(self).canceled() == old(self).canceled().remove(id),
            final(self).handed() == old(self).handed(),
    {
        self.senders.remove(&id);
        self.canceled_ids.remove(&id);
    }
}

impl Default for CancellationRegistry {
    fn default() -> (r: Self)
        ensures
            r.wf(),
            r.registered() == Set::<i64>::empty(),
            r.canceled() == Set::<i64>::empty(),
            r.handed() == Seq::<(i64, bool)>::empty(),
    {
        CancellationRegistry { senders: HashMap::new(), canceled_ids: HashSet::new(), handed: Ghost(Seq::empty()) }
    }
}

/// The channel of a registered task was last handed `true` exactly when
/// the task is cancelled: so its receivers read `true` once it is
/// cancelled and `false` before.
pub proof fn lemma_channel_follows_cancel(reg: &CancellationRegistry, id: i64)
    requires
        reg.wf(),
        reg.registered().contains(id),
    ensures
        last_handed(reg.handed(), id) == Some(reg.canceled().contains(id)),
{
}

/// Cancelling ahead: a task cancelled before anyone asked for its receiver
/// still hands one out, whether it is registered or not; once it is
/// unregistered, it hands none out.
pub proof fn lemma_cancel_then_receive(registered: Set<i64>, canceled: Set<i64>, id: i64)
    ensures
        receiver_available(registered, canceled.insert(id), id),
        !receiver_available(registered.remove(id), canceled.remove(id), id),
{
}

} // verus!
