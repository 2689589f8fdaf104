//! The plan of a sync of the music library onto a device: which tracks to
//! copy, which files on the device to remove, and when a sync is skipped.
use crate::text::{
    chars_of, contains_string, find_char, lemma_find_char, push_seq, push_unique, string_from,
    string_of_range, views,
};
use vstd::prelude::*;

verus! {

/// A track of the local library as the sync sees it.
#[derive(Debug)]
pub struct LocalTrack {
    /// The directory named after the artist (the artist's name as the
    /// library writes it in file names).
    pub artist_dir: String,
    /// The file name of the track, when its path has one that is valid
    /// Unicode.
    pub file_name: Option<String>,
    /// Where the file is on this machine.
    pub local_path: String,
    /// Archived tracks are not put on devices.
    pub archived: bool,
}

/// A file to copy onto the device.
#[derive(Debug)]
pub struct PushTask {
    /// Its path below the device's music directory: `artist/file`.
    pub rel_path: String,
    pub artist_dir: String,
    pub local_path: String,
}

/// What a sync has to do.
#[derive(Debug)]
pub struct SyncDiff {
    pub to_push: Vec<PushTask>,
    /// Paths below the device's music directory to remove.
    pub to_delete: Vec<String>,
}

/// Whether the sync puts `t` on devices.
pub open spec fn synced(t: LocalTrack) -> bool {
    !t.archived && t.file_name is Some
}

/// The path of `t` below the device's music directory.
pub open spec fn rel_path(t: LocalTrack) -> Seq<char> {
    t.artist_dir@ + "/"@ + t.file_name->0@
}

/// The paths below the device's music directory that the library holds.
pub open spec fn local_paths(tracks: Seq<LocalTrack>) -> Set<Seq<char>> {
    Set::new(|p: Seq<char>| exists|i: int| 0 <= i < tracks.len() && synced(tracks[i]) && rel_path(tracks[i]) == p)
}

/// A copy task as plain values: (relative path, artist directory, local path).
pub open spec fn push_view(p: PushTask) -> (Seq<char>, Seq<char>, Seq<char>) {
    (p.rel_path@, p.artist_dir@, p.local_path@)
}

/// The copy tasks for the tracks `tracks` that the device (holding `remote`)
/// lacks, in library order.
pub open spec fn to_push_spec(tracks: Seq<LocalTrack>, remote: Set<Seq<char>>) -> Seq<(Seq<char>, Seq<char>, Seq<char>)>
    decreases tracks.len(),
{
    if tracks.len() == 0 {
        seq![]
    } else {
        let init = to_push_spec(tracks.drop_last(), remote);
        let t = tracks.last();
        if synced(t) && !remote.contains(rel_path(t)) {
            init.push((rel_path(t), t.artist_dir@, t.local_path@))
        } else {
            init
        }
    }
}

/// The files of the device (listed in `remote`) that the library does not
/// hold, in the order of `remote`.
pub open spec fn to_delete_spec(tracks: Seq<LocalTrack>, remote: Seq<Seq<char>>) -> Seq<Seq<char>> {
    remote.filter(|f: Seq<char>| !local_paths(tracks).contains(f))
}

/// The plain values of a list of copy tasks.
pub open spec fn push_views(v: Seq<PushTask>) -> Seq<(Seq<char>, Seq<char>, Seq<char>)> {
    v.map_values(|p: PushTask| push_view(p))
}

/// The relative paths of a list of copy tasks as plain values.
pub open spec fn pushed_paths(v: Seq<(Seq<char>, Seq<char>, Seq<char>)>) -> Set<Seq<char>> {
    Set::new(|p: Seq<char>| exists|i: int| 0 <= i < v.len() && v[i].0 == p)
}

/// What the device (holding the files `remote`) has to be told to reach the
/// state of the library `tracks`.
pub fn diff_local_and_remote(tracks: &Vec<LocalTrack>, remote: &Vec<String>) -> (r: SyncDiff)
    ensures
        push_views(r.to_push@) == to_push_spec(tracks@, views(remote@).to_set()),
        views(r.to_delete@) == to_delete_spec(tracks@, views(remote@)),
{
    let ghost rset = views(remote@).to_set();
    let mut locals: Vec<String> = Vec::new();
    let mut to_push: Vec<PushTask> = Vec::new();
    let mut i: usize = 0;
    assert(views(locals@).to_set() =~= local_paths(tracks@.take(0)));
    while i < tracks.len()
        invariant
            i <= tracks@.len(),
            rset == views(remote@).to_set(),
            views(locals@).to_set() == local_paths(tracks@.take(i as int)),
            push_views(to_push@) == to_push_spec(tracks@.take(i as int), rset),
        decreases tracks@.len() - i,
    {
        let t = &tracks[i];
        let ghost pre = tracks@.take(i as int);
        let ghost post = tracks@.take(i + 1);
        assert(post.drop_last() =~= pre);
        assert(post.last() == tracks@[i as int]);
        if !t.archived {
            if let Some(name) = &t.file_name {
                let mut rel = t.artist_dir.clone();
                push_seq(&mut rel, "/");
                push_seq(&mut rel, name.as_str());
                assert(rel@ == rel_path(*t));
                let ghost old_locals = views(locals@).to_set();
                push_unique(&mut locals, rel.clone());
                if !contains_string(remote, &rel) {
                    let ghost old_push = to_push@;
                    to_push.push(PushTask {
                        rel_path: rel,
                        artist_dir: t.artist_dir.clone(),
                        local_path: t.local_path.clone(),
                    });
                    assert(push_views(to_push@) =~= push_views(old_push).push(push_view(to_push@.last())));
                }
                proof {
                    assert forall|p: Seq<char>| local_paths(post).contains(p) <==> old_locals.insert(rel@).contains(p) by {
                        if local_paths(post).contains(p) {
                            let k = choose|k: int| 0 <= k < post.len() && synced(post[k]) && rel_path(post[k]) == p;
                            if k < pre.len() {
                                assert(pre[k] == post[k]);
                            }
                        }
                        if local_paths(pre).contains(p) {
                            let k = choose|k: int| 0 <= k < pre.len() && synced(pre[k]) && rel_path(pre[k]) == p;
                            assert(post[k] == pre[k]);
                        }
                        if p == rel@ {
                            assert(post[post.len() - 1] == *t);
                        }
                    }
                    assert(views(locals@).to_set() =~= local_paths(post));
                }
            } else {
                proof {
                    assert forall|p: Seq<char>| local_paths(post).contains(p) <==> local_paths(pre).contains(p) by {
                        if local_paths(post).contains(p) {
                            let k = choose|k: int| 0 <= k < post.len() && synced(post[k]) && rel_path(post[k]) == p;
                            if k < pre.len() {
                                assert(pre[k] == post[k]);
                            }
                        }
                        if local_paths(pre).contains(p) {
                            let k = choose|k: int| 0 <= k < pre.len() && synced(pre[k]) && rel_path(pre[k]) == p;
                            assert(post[k] == pre[k]);
                        }
                    }
                    assert(local_paths(post) =~= local_paths(pre));
                }
            }
        } else {
            proof {
                assert forall|p: Seq<char>| local_paths(post).contains(p) <==> local_paths(pre).contains(p) by {
                    if local_paths(post).contains(p) {
                        let k = choose|k: int| 0 <= k < post.len() && synced(post[k]) && rel_path(post[k]) == p;
                        if k < pre.len() {
                            assert(pre[k] == post[k]);
                        }
                    }
                    if local_paths(pre).contains(p) {
                        let k = choose|k: int| 0 <= k < pre.len() && synced(pre[k]) && rel_path(pre[k]) == p;
                        assert(post[k] == pre[k]);
                    }
                }
                assert(local_paths(post) =~= local_paths(pre));
            }
        }
        i = i + 1;
    }
    assert(tracks@.take(tracks@.len() as int) =~= tracks@);
    let ghost lset = local_paths(tracks@);
    let ghost pred = |f: Seq<char>| !lset.contains(f);
    let mut to_delete: Vec<String> = Vec::new();
    let mut j: usize = 0;
    assert(views(remote@).take(0).filter(pred) =~= Seq::<Seq<char>>::empty());
    while j < remote.len()
        invariant
            j <= remote@.len(),
            views(locals@).to_set() == lset,
            pred == (|f: Seq<char>| !lset.contains(f)),
            views(to_delete@) == views(remote@).take(j as int).filter(pred),
        decreases remote@.len() - j,
    {
        let ghost pre = views(remote@).take(j as int);
        assert(views(remote@).take(j + 1) =~= pre.push(remote@[j as int]@));
        proof {
            pre.lemma_filter_push(remote@[j as int]@, pred);
        }
        if !contains_string(&locals, &remote[j]) {
            let ghost old_d = to_delete@;
            to_delete.push(remote[j].clone());
            assert(views(to_delete@) =~= views(old_d).push(remote@[j as int]@));
        }
        j = j + 1;
    }
    assert(views(remote@).take(remote@.len() as int) =~= views(remote@));
    SyncDiff { to_push, to_delete }
}

proof fn lemma_pushed_paths(tracks: Seq<LocalTrack>, remote: Set<Seq<char>>)
    ensures
        pushed_paths(to_push_spec(tracks, remote)) == local_paths(tracks).difference(remote),
    decreases tracks.len(),
{
    let ps = to_push_spec(tracks, remote);
    if tracks.len() == 0 {
        assert(pushed_paths(ps) =~= local_paths(tracks).difference(remote));
    } else {
        let pre = tracks.drop_last();
        let t = tracks.last();
        lemma_pushed_paths(pre, remote);
        let pp = to_push_spec(pre, remote);
        assert(tracks[tracks.len() - 1] == t);
        assert forall|p: Seq<char>| pushed_paths(ps).contains(p) implies local_paths(tracks).difference(remote).contains(p) by {
            let k = choose|k: int| 0 <= k < ps.len() && ps[k].0 == p;
            if k < pp.len() {
                assert(ps[k] == pp[k]);
                assert(pushed_paths(pp).contains(p));
                assert(local_paths(pre).difference(remote).contains(p));
                let m = choose|m: int| 0 <= m < pre.len() && synced(pre[m]) && rel_path(pre[m]) == p;
                assert(tracks[m] == pre[m]);
            }
        }
        assert forall|p: Seq<char>| local_paths(tracks).difference(remote).contains(p) implies pushed_paths(ps).contains(p) by {
            let m = choose|m: int| 0 <= m < tracks.len() && synced(tracks[m]) && rel_path(tracks[m]) == p;
            if m < pre.len() {
                assert(pre[m] == tracks[m]);
                assert(local_paths(pre).contains(p));
                assert(local_paths(pre).difference(remote).contains(p));
                assert(pushed_paths(pp).contains(p));
                let k = choose|k: int| 0 <= k < pp.len() && pp[k].0 == p;
                assert(ps[k] == pp[k]);
            } else {
                assert(ps[ps.len() - 1].0 == p);
            }
        }
        assert(pushed_paths(ps) =~= local_paths(tracks).difference(remote));
    }
}

/// Sync law: once the files to delete are removed from the device and the
/// missing tracks are copied onto it, the device holds exactly the library's
/// tracks. A sync neither removes a file the library holds nor copies a file
/// the device already has.
pub proof fn lemma_sync_converges(tracks: Seq<LocalTrack>, remote: Seq<Seq<char>>)
    ensures
        remote.to_set().difference(to_delete_spec(tracks, remote).to_set()).union(
            pushed_paths(to_push_spec(tracks, remote.to_set())),
        ) == local_paths(tracks),
        to_delete_spec(tracks, remote).to_set().disjoint(local_paths(tracks)),
        pushed_paths(to_push_spec(tracks, remote.to_set())).disjoint(remote.to_set()),
{
    let l = local_paths(tracks);
    let pred = |f: Seq<char>| !l.contains(f);
    let d = to_delete_spec(tracks, remote);
    lemma_pushed_paths(tracks, remote.to_set());
    assert forall|f: Seq<char>| d.to_set().contains(f) <==> remote.to_set().contains(f) && !l.contains(f) by {
        if d.to_set().contains(f) {
            let k = choose|k: int| 0 <= k < d.len() && d[k] == f;
            remote.lemma_filter_pred(pred, k);
            remote.lemma_filter_contains_rev(pred, f);
        }
        if remote.to_set().contains(f) && !l.contains(f) {
            let k = choose|k: int| 0 <= k < remote.len() && remote[k] == f;
            remote.lemma_filter_contains(pred, k);
        }
    }
    assert(remote.to_set().difference(d.to_set()).union(pushed_paths(to_push_spec(tracks, remote.to_set()))) =~= l);
    assert(d.to_set().disjoint(l));
}

// ---------------------------------------------------------------------------
// When to sync
// ---------------------------------------------------------------------------

/// How long after a sync another sync of the same device is skipped, in
/// milliseconds.
pub const SYNC_COOLDOWN_MS: u64 = 10000;

/// Whether a device last synced at `last` was synced too recently at `now`
/// (the clock's readings are compared saturating, as `Instant::elapsed` does).
pub open spec fn recently_synced_spec(last: Option<u64>, now: u64) -> bool {
    match last {
        Some(t) => (if now >= t {
            now - t
        } else {
            0
        }) < SYNC_COOLDOWN_MS,
        None => false,
    }
}

/// Whether a sync of a device last synced at `last` is skipped at `now`.
pub fn recently_synced(last: Option<u64>, now: u64) -> (r: bool)
    ensures
        r == recently_synced_spec(last, now),
{
    match last {
        Some(t) => now.saturating_sub(t) < SYNC_COOLDOWN_MS,
        None => false,
    }
}

/// What a sync does once it knows what the device holds.
#[derive(Debug)]
pub enum SyncPlan {
    /// The library is empty: nothing is done and the sync time is not
    /// recorded.
    LibraryEmpty,
    /// The device already holds exactly the library: only the sync time is
    /// recorded.
    UpToDate,
    /// Files have to be removed and/or copied.
    Apply(SyncDiff),
}

/// The plan of a sync of the library `tracks` onto a device holding `remote`.
pub fn plan_sync(tracks: &Vec<LocalTrack>, remote: &Vec<String>) -> (r: SyncPlan)
    ensures
        tracks@.len() == 0 ==> r is LibraryEmpty,
        tracks@.len() > 0 && to_push_spec(tracks@, views(remote@).to_set()).len() == 0
            && to_delete_spec(tracks@, views(remote@)).len() == 0 ==> r is UpToDate,
        tracks@.len() > 0 && (to_push_spec(tracks@, views(remote@).to_set()).len() > 0
            || to_delete_spec(tracks@, views(remote@)).len() > 0) ==> r is Apply && push_views(
            r->Apply_0.to_push@,
        ) == to_push_spec(tracks@, views(remote@).to_set()) && views(r->Apply_0.to_delete@)
            == to_delete_spec(tracks@, views(remote@)),
{
    if tracks.len() == 0 {
        return SyncPlan::LibraryEmpty;
    }
    let diff = diff_local_and_remote(tracks, remote);
    if diff.to_push.len() == 0 && diff.to_delete.len() == 0 {
        SyncPlan::UpToDate
    } else {
        SyncPlan::Apply(diff)
    }
}

// ---------------------------------------------------------------------------
// Paths on the device
// ---------------------------------------------------------------------------

/// `dir/rel`: a path below the device's music directory.
pub fn remote_path(dir: &str, rel: &str) -> (r: String)
    ensures
        r@ == dir@ + "/"@ + rel@,
{
    let mut r = string_from(dir);
    push_seq(&mut r, "/");
    push_seq(&mut r, rel);
    r
}

/// The first component of a relative path, when it has more than one (as
/// `str::split_once('/')` gives it).
pub open spec fn parent_dir_spec(rel: Seq<char>) -> Option<Seq<char>> {
    let k = find_char(rel, '/');
    if k < 0 {
        None
    } else {
        Some(rel.take(k))
    }
}

/// The first component of a relative path, when it has more than one.
pub fn parent_dir(rel: &str) -> (r: Option<String>)
    ensures
        r is Some == parent_dir_spec(rel@) is Some,
        r is Some ==> r->0@ == parent_dir_spec(rel@)->0,
{
    let v = chars_of(rel);
    let mut i: usize = 0;
    while i < v.len()
        invariant
            v@ == rel@,
            i <= v@.len(),
            forall|j: int| 0 <= j < i ==> v@[j] != '/',
        decreases v@.len() - i,
    {
        if v[i] == '/' {
            proof {
                lemma_find_char(v@, '/', i as int);
            }
            let p = string_of_range(&v, 0, i);
            assert(v@.subrange(0, i as int) =~= v@.take(i as int));
            return Some(p);
        }
        i = i + 1;
    }
    proof {
        lemma_find_char(v@, '/', v@.len() as int);
    }
    None
}

/// The directories to try to remove after the files `deleted` were removed:
/// the first component of each of them, each once.
pub open spec fn parents_spec(deleted: Seq<Seq<char>>) -> Set<Seq<char>> {
    Set::new(|p: Seq<char>| exists|i: int| 0 <= i < deleted.len() && parent_dir_spec(deleted[i]) == Some(p))
}

/// The artist directories left possibly empty by the removal of `deleted`.
pub fn parents_to_clean(deleted: &Vec<String>) -> (r: Vec<String>)
    ensures
        views(r@).no_duplicates(),
        views(r@).to_set() == parents_spec(views(deleted@)),
{
    let mut r: Vec<String> = Vec::new();
    let mut i: usize = 0;
    assert(views(r@).to_set() =~= parents_spec(views(deleted@).take(0)));
    while i < deleted.len()
        invariant
            i <= deleted@.len(),
            views(r@).no_duplicates(),
            views(r@).to_set() == parents_spec(views(deleted@).take(i as int)),
        decreases deleted@.len() - i,
    {
        let ghost pre = views(deleted@).take(i as int);
        let ghost post = views(deleted@).take(i + 1);
        let ghost cur = deleted@[i as int]@;
        assert(post =~= pre.push(cur));
        let ghost old_set = views(r@).to_set();
        match parent_dir(deleted[i].as_str()) {
            Some(p) => {
                push_unique(&mut r, p);
            },
            None => {},
        }
        proof {
            assert forall|p: Seq<char>| parents_spec(post).contains(p) <==> (parents_spec(pre).contains(p)
                || parent_dir_spec(cur) == Some(p)) by {
                if parents_spec(post).contains(p) {
                    let k = choose|k: int| 0 <= k < post.len() && parent_dir_spec(post[k]) == Some(p);
                    if k < pre.len() {
                        assert(pre[k] == post[k]);
                    }
                }
                if parents_spec(pre).contains(p) {
                    let k = choose|k: int| 0 <= k < pre.len() && parent_dir_spec(pre[k]) == Some(p);
                    assert(post[k] == pre[k]);
                }
                if parent_dir_spec(cur) == Some(p) {
                    assert(post[post.len() - 1] == cur);
                }
            }
            assert(views(r@).to_set() =~= parents_spec(post));
        }
        i = i + 1;
    }
    assert(views(deleted@).take(deleted@.len() as int) =~= views(deleted@));
    r
}

// ---------------------------------------------------------------------------
// The steps of a sync
// ---------------------------------------------------------------------------

/// One step of a sync once its plan is known.
#[derive(Clone, Copy, Debug, PartialEq, Eq, Structural)]
pub enum SyncStep {
    /// Report that nothing had to change.
    ReportNotNeeded,
    /// Report the start of the sync.
    ReportStart,
    /// Report and carry out the removal of this many files.
    Remove(usize),
    /// Report and carry out the copy of this many files.
    Push(usize),
    /// Flush the device's file system.
    FlushFs,
    /// Record the time of the sync.
    RecordTime,
    /// Report the end of the sync.
    ReportComplete,
}

/// The steps a sync takes to apply changes: the start, the removals (then
/// a flush) when there are any, the copies (then a flush) when there are
/// any, the recorded time and the end.
pub open spec fn apply_steps(deletes: nat, pushes: nat) -> Seq<SyncStep> {
    seq![SyncStep::ReportStart] + (if deletes > 0 {
        seq![SyncStep::Remove(deletes as usize), SyncStep::FlushFs]
    } else {
        Seq::empty()
    }) + (if pushes > 0 {
        seq![SyncStep::Push(pushes as usize), SyncStep::FlushFs]
    } else {
        Seq::empty()
    }) + seq![SyncStep::RecordTime, SyncStep::ReportComplete]
}

/// The steps of the sync planned as `plan`.
pub fn sync_steps(plan: &SyncPlan) -> (r: Vec<SyncStep>)
    ensures
        r@ == match plan {
            SyncPlan::LibraryEmpty => Seq::<SyncStep>::empty(),
            SyncPlan::UpToDate => seq![SyncStep::ReportNotNeeded, SyncStep::RecordTime],
            SyncPlan::Apply(d) => apply_steps(d.to_delete@.len(), d.to_push@.len()),
        },
{
    let mut r: Vec<SyncStep> = Vec::new();
    match plan {
        SyncPlan::LibraryEmpty => {
            assert(r@ =~= Seq::<SyncStep>::empty());
        },
        SyncPlan::UpToDate => {
            r.push(SyncStep::ReportNotNeeded);
            r.push(SyncStep::RecordTime);
            assert(r@ =~= seq![SyncStep::ReportNotNeeded, SyncStep::RecordTime]);
        },
        SyncPlan::Apply(d) => {
            let deletes = d.to_delete.len();
            let pushes = d.to_push.len();
            r.push(SyncStep::ReportStart);
            if deletes > 0 {
                r.push(SyncStep::Remove(deletes));
                r.push(SyncStep::FlushFs);
            }
            if pushes > 0 {
                r.push(SyncStep::Push(pushes));
                r.push(SyncStep::FlushFs);
            }
            r.push(SyncStep::RecordTime);
            r.push(SyncStep::ReportComplete);
            assert(r@ =~= apply_steps(deletes as nat, pushes as nat));
        },
    }
    r
}

/// How the copy of one file went.
#[derive(Clone, Copy, Debug, PartialEq, Eq, Structural)]
pub enum PushOutcome {
    /// Its local path is not valid Unicode.
    InvalidPath,
    /// Its artist directory could not be made on the device.
    MkdirFailed,
    /// The copy failed.
    PushFailed,
    /// The file was copied.
    Pushed,
}

/// The number of files copied among `outcomes`.
pub open spec fn pushed_count(outcomes: Seq<PushOutcome>) -> nat
    decreases outcomes.len(),
{
    if outcomes.len() == 0 {
        0
    } else {
        pushed_count(outcomes.drop_last()) + if outcomes.last() == PushOutcome::Pushed {
            1nat
        } else {
            0nat
        }
    }
}

/// The copied and the failed files among `outcomes`: every outcome other
/// than a copy is a failure.
pub fn tally(outcomes: &Vec<PushOutcome>) -> (r: (u64, u64))
    requires
        outcomes@.len() <= u64::MAX,
    ensures
        r.0 == pushed_count(outcomes@),
        r.0 + r.1 == outcomes@.len(),
{
    let mut pushed: u64 = 0;
    let mut failed: u64 = 0;
    let mut i: usize = 0;
    while i < outcomes.len()
        invariant
            outcomes@.len() <= u64::MAX,
            i <= outcomes@.len(),
            pushed == pushed_count(outcomes@.take(i as int)),
            pushed + failed == i,
        decreases outcomes@.len() - i,
    {
        assert(outcomes@.take(i + 1).drop_last() =~= outcomes@.take(i as int));
        if outcomes[i] == PushOutcome::Pushed {
            pushed = pushed + 1;
        } else {
            failed = failed + 1;
        }
        i = i + 1;
    }
    assert(outcomes@.take(outcomes@.len() as int) =~= outcomes@);
    (pushed, failed)
}

/// The note shown when the artist directory `parent` could not be made.
pub fn mkdir_failed_note(parent: &str, e: &str) -> (r: String)
    ensures
        r@ == "mkdir "@ + parent@ + ": "@ + e@,
{
    let mut r = string_from("mkdir ");
    push_seq(&mut r, parent);
    push_seq(&mut r, ": ");
    push_seq(&mut r, e);
    r
}

/// The note shown when the copy of `rel` failed.
pub fn push_failed_note(rel: &str, e: &str) -> (r: String)
    ensures
        r@ == "push "@ + rel@ + ": "@ + e@,
{
    let mut r = string_from("push ");
    push_seq(&mut r, rel);
    push_seq(&mut r, ": ");
    push_seq(&mut r, e);
    r
}

/// The note shown when a local path is not valid Unicode (`path` is its
/// lossy display form).
pub fn invalid_path_note(path: &str) -> (r: String)
    ensures
        r@ == "Invalid path: "@ + path@,
{
    let mut r = string_from("Invalid path: ");
    push_seq(&mut r, path);
    r
}

} // verus!
