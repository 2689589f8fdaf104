//! The bookkeeping shared by the device tracker and the syncs: which devices
//! are connected, which devices are being synced right now, and when each
//! device was last synced.
//!
//! Times are milliseconds on a monotonic clock that the caller reads.
use crate::text::{push_unique, views};
use vstd::prelude::*;

verus! {

/// The shared state of the ADB side of the application.
pub struct DeviceRegistry {
    connected: Vec<String>,
    active_syncs: Vec<String>,
    last_sync: Vec<(String, u64)>,
}

/// The keys of a list of (device, time) pairs.
pub open spec fn sync_keys(v: Seq<(String, u64)>) -> Seq<Seq<char>> {
    v.map_values(|p: (String, u64)| p.0@)
}

/// A list of (device, time) pairs as a map.
pub open spec fn sync_map(v: Seq<(String, u64)>) -> Map<Seq<char>, u64> {
    Map::new(
        |k: Seq<char>| exists|i: int| 0 <= i < v.len() && v[i].0@ == k,
        |k: Seq<char>| v[choose|i: int| 0 <= i < v.len() && v[i].0@ == k].1,
    )
}

/// What acquiring the sync slot of `device` does to the set of running
/// syncs, and whether it succeeds: it succeeds when no sync of `device` is
/// running, and the device is marked as syncing either way.
pub open spec fn acquire_spec(syncs: Set<Seq<char>>, device: Seq<char>) -> (Set<Seq<char>>, bool) {
    (syncs.insert(device), !syncs.contains(device))
}

/// What releasing the sync slot of `device` does to the set of running syncs.
pub open spec fn release_spec(syncs: Set<Seq<char>>, device: Seq<char>) -> Set<Seq<char>> {
    syncs.remove(device)
}

impl DeviceRegistry {
    /// The registry is well formed: no list holds a device twice.
    pub closed spec fn wf(&self) -> bool {
        &&& views(self.connected@).no_duplicates()
        &&& views(self.active_syncs@).no_duplicates()
        &&& sync_keys(self.last_sync@).no_duplicates()
    }

    /// The connected devices.
    pub closed spec fn connected_set(&self) -> Set<Seq<char>> {
        views(self.connected@).to_set()
    }

    /// The devices being synced right now.
    pub closed spec fn syncing(&self) -> Set<Seq<char>> {
        views(self.active_syncs@).to_set()
    }

    /// When each device was last synced.
    pub closed spec fn last_sync_times(&self) -> Map<Seq<char>, u64> {
        sync_map(self.last_sync@)
    }

    /// An empty registry.
    pub fn new() -> (r: Self)
        ensures
            r.wf(),
            r.connected_set() == Set::<Seq<char>>::empty(),
            r.syncing() == Set::<Seq<char>>::empty(),
            r.last_sync_times() == Map::<Seq<char>, u64>::empty(),
    {
        let r = DeviceRegistry { connected: Vec::new(), active_syncs: Vec::new(), last_sync: Vec::new() };
        assert(views(r.connected@).to_set() =~= Set::<Seq<char>>::empty());
        assert(views(r.active_syncs@).to_set() =~= Set::<Seq<char>>::empty());
        assert(sync_map(r.last_sync@) =~= Map::<Seq<char>, u64>::empty());
        r
    }

    /// The connected devices, each once.
    pub fn lock_connected(&self) -> (r: &Vec<String>)
        requires
            self.wf(),
        ensures
            views(r@).no_duplicates(),
            views(r@).to_set() == self.connected_set(),
    {
        &self.connected
    }

    /// Replaces the set of connected devices by `current`.
    pub fn set_connected(&mut self, current: &Vec<String>)
        requires
            old(self).wf(),
        ensures
            final(self).wf(),
            final(self).connected_set() == views(current@).to_set(),
            final(self).syncing() == old(self).syncing(),
            final(self).last_sync_times() == old(self).last_sync_times(),
    {
        let mut c: Vec<String> = Vec::new();
        let mut i: usize = 0;
        assert(views(c@).to_set() =~= views(current@.take(0)).to_set());
        while i < current.len()
            invariant
                i <= current@.len(),
                views(c@).no_duplicates(),
                views(c@).to_set() == views(current@.take(i as int)).to_set(),
            decreases current@.len() - i,
        {
            push_unique(&mut c, current[i].clone());
            assert(views(current@.take(i + 1)) =~= views(current@.take(i as int)).push(
                current@[i as int]@,
            ));
            proof {
                views(current@.take(i as int)).lemma_push_to_set_commute(current@[i as int]@);
            }
            i = i + 1;
        }
        assert(current@.take(current@.len() as int) =~= current@);
        self.connected = c;
    }

    /// Forgets every connected device.
    pub fn clear_connected(&mut self)
        requires
            old(self).wf(),
        ensures
            final(self).wf(),
            final(self).connected_set() == Set::<Seq<char>>::empty(),
            final(self).syncing() == old(self).syncing(),
            final(self).last_sync_times() == old(self).last_sync_times(),
    {
        self.connected = Vec::new();
        assert(views(self.connected@).to_set() =~= Set::<Seq<char>>::empty());
    }

    /// When `device` was last synced, if ever.
    pub fn get_last_sync_time(&self, device: &str) -> (r: Option<u64>)
        requires
            self.wf(),
        ensures
            r is Some <==> self.last_sync_times().contains_key(device@),
            r is Some ==> r->0 == self.last_sync_times()[device@],
    {
        let d = crate::text::string_from(device);
        let mut i: usize = 0;
        while i < self.last_sync.len()
            invariant
                d@ == device@,
                self.wf(),
                i <= self.last_sync@.len(),
                forall|j: int| 0 <= j < i ==> self.last_sync@[j].0@ != device@,
            decreases self.last_sync@.len() - i,
        {
            if self.last_sync[i].0 == d {
                proof {
                    let m = sync_map(self.last_sync@);
                    assert(self.last_sync@[i as int].0@ == device@);
                    assert(m.contains_key(device@));
                    let k = choose|k: int|
                        0 <= k < self.last_sync@.len() && self.last_sync@[k].0@ == device@;
                    assert(sync_keys(self.last_sync@)[k] == sync_keys(self.last_sync@)[i as int]);
                    assert(sync_keys(self.last_sync@).no_duplicates());
                    assert(k == i);
                    assert(m[device@] == self.last_sync@[k].1);
                }
                return Some(self.last_sync[i].1);
            }
            i = i + 1;
        }
        None
    }

    /// Records `now` as the time `device` was last synced.
    pub fn update_last_sync_time(&mut self, device: &str, now: u64)
        requires
            old(self).wf(),
        ensures
            final(self).wf(),
            final(self).last_sync_times() == old(self).last_sync_times().insert(device@, now),
            final(self).connected_set() == old(self).connected_set(),
            final(self).syncing() == old(self).syncing(),
    {
        let ghost old_v = self.last_sync@;
        let d = crate::text::string_from(device);
        let mut i: usize = 0;
        while i < self.last_sync.len()
            invariant
                d@ == device@,
                self.last_sync@ == old_v,
                self.connected@ == old(self).connected@,
                self.active_syncs@ == old(self).active_syncs@,
                old_v == old(self).last_sync@,
                old(self).wf(),
                i <= old_v.len(),
                forall|j: int| 0 <= j < i ==> old_v[j].0@ != device@,
            decreases old_v.len() - i,
        {
            if self.last_sync[i].0 == d {
                let key = self.last_sync[i].0.clone();
                self.last_sync.set(i, (key, now));
                proof {
                    let nv = self.last_sync@;
                    assert(sync_keys(nv) =~= sync_keys(old_v));
                    assert forall|k: Seq<char>| #![auto]
                        sync_map(nv).contains_key(k) == sync_map(old_v).insert(device@, now).contains_key(k)
                    by {
                        if sync_map(old_v).contains_key(k) {
                            let j = choose|j: int| 0 <= j < old_v.len() && old_v[j].0@ == k;
                            assert(nv[j].0@ == k);
                        }
                        if sync_map(nv).contains_key(k) {
                            let j = choose|j: int| 0 <= j < nv.len() && nv[j].0@ == k;
                            assert(old_v[j].0@ == k);
                        }
                    }
                    assert forall|k: Seq<char>| #![auto] sync_map(nv).contains_key(k) implies sync_map(nv)[k]
                        == sync_map(old_v).insert(device@, now)[k] by {
                        let j = choose|j: int| 0 <= j < nv.len() && nv[j].0@ == k;
                        assert(sync_keys(nv)[j] == k);
                        if k == device@ {
                            assert(sync_keys(nv)[i as int] == k);
                            assert(j == i);
                        } else {
                            let j2 = choose|j2: int| 0 <= j2 < old_v.len() && old_v[j2].0@ == k;
                            assert(sync_keys(old_v)[j2] == k);
                            assert(j2 == j);
                        }
                    }
                    assert(sync_map(nv) =~= sync_map(old_v).insert(device@, now));
                }
                return;
            }
            i = i + 1;
        }
        self.last_sync.push((d, now));
        proof {
            let nv = self.last_sync@;
            assert(sync_keys(nv) =~= sync_keys(old_v).push(device@));
            assert forall|a: int, b: int| 0 <= a < b < sync_keys(nv).len() implies sync_keys(nv)[a]
                != sync_keys(nv)[b] by {
                if b == nv.len() - 1 {
                    assert(old_v[a].0@ != device@);
                } else {
                    assert(sync_keys(old_v)[a] != sync_keys(old_v)[b]);
                }
            }
            assert forall|k: Seq<char>| #![auto]
                sync_map(nv).contains_key(k) == sync_map(old_v).insert(device@, now).contains_key(k)
            by {
                if sync_map(old_v).contains_key(k) {
                    let j = choose|j: int| 0 <= j < old_v.len() && old_v[j].0@ == k;
                    assert(nv[j].0@ == k);
                }
                if sync_map(nv).contains_key(k) {
                    let j = choose|j: int| 0 <= j < nv.len() && nv[j].0@ == k;
                    if j < old_v.len() {
                        assert(old_v[j].0@ == k);
                    }
                }
                if k == device@ {
                    assert(nv[old_v.len() as int].0@ == k);
                }
            }
            assert forall|k: Seq<char>| #![auto] sync_map(nv).contains_key(k) implies sync_map(nv)[k]
                == sync_map(old_v).insert(device@, now)[k] by {
                let j = choose|j: int| 0 <= j < nv.len() && nv[j].0@ == k;
                assert(sync_keys(nv)[j] == k);
                if k == device@ {
                    assert(sync_keys(nv)[old_v.len() as int] == k);
                    assert(j == old_v.len());
                } else {
                    let j2 = choose|j2: int| 0 <= j2 < old_v.len() && old_v[j2].0@ == k;
                    assert(sync_keys(nv)[j2] == k);
                    assert(j2 == j);
                }
            }
            assert(sync_map(nv) =~= sync_map(old_v).insert(device@, now));
        }
    }
}

/// The right to sync one device, held while the sync runs.
pub struct SyncGuard {
    device: String,
}

impl SyncGuard {
    /// The device whose sync this guard holds.
    pub closed spec fn device(&self) -> Seq<char> {
        self.device@
    }

    /// Takes the sync slot of `device`: a guard when no sync of it is running,
    /// none otherwise.
    pub fn try_acquire(registry: &mut DeviceRegistry, device: &str) -> (r: Option<SyncGuard>)
        requires
            old(registry).wf(),
        ensures
            final(registry).wf(),
            final(registry).syncing() == acquire_spec(old(registry).syncing(), device@).0,
            r is Some == acquire_spec(old(registry).syncing(), device@).1,
            r is Some ==> r->0.device() == device@,
            final(registry).connected_set() == old(registry).connected_set(),
            final(registry).last_sync_times() == old(registry).last_sync_times(),
    {
        let d = crate::text::string_from(device);
        let present = crate::text::contains_string(&registry.active_syncs, &d);
        push_unique(&mut registry.active_syncs, d);
        if present {
            None
        } else {
            Some(SyncGuard { device: crate::text::string_from(device) })
        }
    }

    /// Gives the sync slot back once the sync is over.
    pub fn release(self, registry: &mut DeviceRegistry)
        requires
            old(registry).wf(),
        ensures
            final(registry).wf(),
            final(registry).syncing() == release_spec(old(registry).syncing(), self.device()),
            final(registry).connected_set() == old(registry).connected_set(),
            final(registry).last_sync_times() == old(registry).last_sync_times(),
    {
        let ghost old_v = registry.active_syncs@;
        let mut kept: Vec<String> = Vec::new();
        let mut i: usize = 0;
        while i < registry.active_syncs.len()
            invariant
                registry.active_syncs@ == old_v,
                views(old_v).no_duplicates(),
                i <= old_v.len(),
                views(kept@).no_duplicates(),
                views(kept@).to_set() == views(old_v.take(i as int)).to_set().remove(self.device@),
            decreases old_v.len() - i,
        {
            let ghost before = views(kept@).to_set();
            if registry.active_syncs[i] != self.device {
                push_unique(&mut kept, registry.active_syncs[i].clone());
            }
            proof {
                assert(views(old_v.take(i + 1)) =~= views(old_v.take(i as int)).push(old_v[i as int]@));
                views(old_v.take(i as int)).lemma_push_to_set_commute(old_v[i as int]@);
                assert(views(kept@).to_set() =~= views(old_v.take(i + 1)).to_set().remove(self.device@));
            }
            i = i + 1;
        }
        assert(old_v.take(old_v.len() as int) =~= old_v);
        registry.active_syncs = kept;
    }
}

/// Mutual exclusion of syncs: while a sync of a device holds its slot, a
/// second attempt on the same device fails; once the slot is released, the
/// next attempt succeeds.
pub proof fn lemma_sync_slot_exclusive(syncs: Set<Seq<char>>, device: Seq<char>)
    ensures
        !acquire_spec(acquire_spec(syncs, device).0, device).1,
        acquire_spec(release_spec(acquire_spec(syncs, device).0, device), device).1,
{
}

/// The running syncs after a series of slot operations, in the order the
/// registry's lock lets them through: `(true, d)` acquires the slot of `d`,
/// `(false, d)` releases it.
pub open spec fn run_slot_ops(syncs: Set<Seq<char>>, ops: Seq<(bool, Seq<char>)>) -> Set<Seq<char>>
    decreases ops.len(),
{
    if ops.len() == 0 {
        syncs
    } else {
        let next = if ops[0].0 {
            acquire_spec(syncs, ops[0].1).0
        } else {
            release_spec(syncs, ops[0].1)
        };
        run_slot_ops(next, ops.drop_first())
    }
}

/// Slots of different devices never exclude each other: acquiring or
/// releasing the slot of `other` leaves whether `device` is syncing as it was.
pub proof fn lemma_sync_slots_independent(syncs: Set<Seq<char>>, device: Seq<char>, other: Seq<char>)
    requires
        device != other,
    ensures
        acquire_spec(syncs, other).0.contains(device) == syncs.contains(device),
        release_spec(syncs, other).contains(device) == syncs.contains(device),
{
}

/// While a guard of `device` lives, whatever other acquisitions and releases
/// run in between (none releasing `device`), every attempt on `device` fails;
/// once it is released, the next attempt succeeds.
pub proof fn lemma_sync_slot_held(syncs: Set<Seq<char>>, device: Seq<char>, ops: Seq<(bool, Seq<char>)>)
    requires
        forall|i: int| 0 <= i < ops.len() ==> #[trigger] ops[i] != (false, device),
    ensures
        run_slot_ops(acquire_spec(syncs, device).0, ops).contains(device),
        !acquire_spec(run_slot_ops(acquire_spec(syncs, device).0, ops), device).1,
        acquire_spec(release_spec(run_slot_ops(acquire_spec(syncs, device).0, ops), device), device).1,
{
    lemma_slot_kept(acquire_spec(syncs, device).0, device, ops);
}

proof fn lemma_slot_kept(syncs: Set<Seq<char>>, device: Seq<char>, ops: Seq<(bool, Seq<char>)>)
    requires
        syncs.contains(device),
        forall|i: int| 0 <= i < ops.len() ==> #[trigger] ops[i] != (false, device),
    ensures
        run_slot_ops(syncs, ops).contains(device),
    decreases ops.len(),
{
    if ops.len() > 0 {
        assert(ops[0] != (false, device));
        let next = if ops[0].0 {
            acquire_spec(syncs, ops[0].1).0
        } else {
            release_spec(syncs, ops[0].1)
        };
        assert(next.contains(device));
        assert forall|i: int| 0 <= i < ops.drop_first().len() implies #[trigger] ops.drop_first()[i] != (
        false,
        device,
        ) by {
            assert(ops.drop_first()[i] == ops[i + 1]);
        }
        lemma_slot_kept(next, device, ops.drop_first());
    }
}

} // verus!
