//! The device endpoints: the sorted device list, and the answers to a
//! manual sync and to failures of `adb`.
use crate::adb_device::AdbDeviceSettings;
use crate::api::errors::{ApiError, ErrorCode, STATUS_BAD_REQUEST, STATUS_CONFLICT, STATUS_INTERNAL_SERVER_ERROR};
use crate::api::tracks::{lemma_text_lt_irreflexive, lemma_text_lt_total, lemma_text_lt_transitive, text_before, text_lt};
use crate::text::{push_seq, same_text, string_from, views};
use vstd::prelude::*;

verus! {

broadcast use vstd::seq_lib::group_seq_properties;

// ---------------------------------------------------------------------------
// The sorted device list
// ---------------------------------------------------------------------------

/// Whether the texts go in the order of `str`'s `Ord`.
pub open spec fn texts_sorted(s: Seq<Seq<char>>) -> bool {
    forall|i: int, j: int| 0 <= i < j < s.len() ==> !text_lt(s[j], s[i])
}

/// The texts equal to `k`.
pub open spec fn equal_to(k: Seq<char>) -> spec_fn(Seq<char>) -> bool {
    |t: Seq<char>| t == k
}

proof fn lemma_filter_none(q: Seq<Seq<char>>, f: spec_fn(Seq<char>) -> bool)
    requires
        forall|i: int| 0 <= i < q.len() ==> !f(#[trigger] q[i]),
    ensures
        q.filter(f) == Seq::<Seq<char>>::empty(),
    decreases q.len(),
{
    reveal(Seq::filter);
    if q.len() > 0 {
        lemma_filter_none(q.drop_last(), f);
    }
}

proof fn lemma_insert_filter(q: Seq<Seq<char>>, p: int, x: Seq<char>, k: Seq<char>)
    requires
        0 <= p <= q.len(),
        forall|j: int| p <= j < q.len() ==> text_lt(x, #[trigger] q[j]),
    ensures
        q.insert(p, x).filter(equal_to(k)) == if x == k {
            q.filter(equal_to(k)).push(x)
        } else {
            q.filter(equal_to(k))
        },
{
    let f = equal_to(k);
    let a = q.take(p);
    let b = q.skip(p);
    assert(q.insert(p, x) =~= a + seq![x] + b);
    assert(q =~= a + b);
    Seq::filter_distributes_over_add(a + seq![x], b, f);
    Seq::filter_distributes_over_add(a, seq![x], f);
    Seq::filter_distributes_over_add(a, b, f);
    reveal(Seq::filter);
    assert(seq![x].drop_last() =~= Seq::<Seq<char>>::empty());
    if x == k {
        assert forall|j: int| 0 <= j < b.len() implies !f(#[trigger] b[j]) by {
            lemma_text_lt_irreflexive(x);
            assert(text_lt(x, q[p + j]));
        }
        lemma_filter_none(b, f);
        assert(a.filter(f) + seq![x] =~= a.filter(f).push(x));
        assert(a.filter(f) + Seq::<Seq<char>>::empty() =~= a.filter(f));
    } else {
        assert(seq![x].filter(f) =~= Seq::<Seq<char>>::empty());
        assert(a.filter(f) + Seq::<Seq<char>>::empty() =~= a.filter(f));
    }
}

/// `devices` in the order of `str`'s `Ord` (a sort: each text kept as
/// often as it occurs).
pub fn sorted_devices(devices: &Vec<String>) -> (r: Vec<String>)
    ensures
        texts_sorted(views(r@)),
        forall|k: Seq<char>| #[trigger] views(r@).filter(equal_to(k)) == views(devices@).filter(equal_to(k)),
{
    let ghost dv = views(devices@);
    let mut r: Vec<String> = Vec::new();
    let mut i: usize = 0;
    while i < devices.len()
        invariant
            dv == views(devices@),
            i <= devices@.len(),
            texts_sorted(views(r@)),
            forall|k: Seq<char>| #[trigger] views(r@).filter(equal_to(k)) == dv.take(i as int).filter(equal_to(k)),
        decreases devices@.len() - i,
    {
        let x = devices[i].clone();
        let mut p: usize = 0;
        while p < r.len() && !text_before(x.as_str(), r[p].as_str())
            invariant
                p <= r@.len(),
                forall|j: int| 0 <= j < p ==> !text_lt(x@, #[trigger] r@[j]@),
            decreases r@.len() - p,
        {
            p = p + 1;
        }
        let ghost q = views(r@);
        let ghost xv = x@;
        proof {
            assert forall|j: int| p <= j < q.len() implies text_lt(xv, #[trigger] q[j]) by {
                if j > p {
                    lemma_text_lt_total(q[p as int], q[j]);
                    if text_lt(q[p as int], q[j]) {
                        lemma_text_lt_transitive(xv, q[p as int], q[j]);
                    }
                }
            }
        }
        r.insert(p, x);
        proof {
            let n = views(r@);
            assert(n =~= q.insert(p as int, xv));
            assert(dv.take(i + 1) =~= dv.take(i as int).push(xv));
            assert forall|k: Seq<char>| #[trigger] n.filter(equal_to(k)) == dv.take(i + 1).filter(equal_to(k)) by {
                lemma_insert_filter(q, p as int, xv, k);
                reveal(Seq::filter);
                assert(dv.take(i + 1).drop_last() =~= dv.take(i as int));
            }
            assert forall|a: int, b: int| 0 <= a < b < n.len() implies !text_lt(n[b], n[a]) by {
                if a < p && b == p {
                    assert(n[a] == q[a]);
                } else if a == p && b > p {
                    assert(n[b] == q[b - 1]);
                    lemma_text_lt_irreflexive(xv);
                    if text_lt(n[b], xv) {
                        lemma_text_lt_transitive(xv, n[b], xv);
                    }
                } else if b < p {
                    assert(n[a] == q[a] && n[b] == q[b]);
                } else if a < p && b > p {
                    assert(n[a] == q[a] && n[b] == q[b - 1]);
                } else {
                    assert(n[a] == q[a - 1] && n[b] == q[b - 1]);
                }
            }
        }
        i = i + 1;
    }
    proof {
        assert(dv.take(devices@.len() as int) =~= dv);
    }
    r
}

/// Whether two device lists differ (as lists of texts).
pub fn lists_differ(a: &Vec<String>, b: &Vec<String>) -> (r: bool)
    ensures
        r == (views(a@) != views(b@)),
{
    if a.len() != b.len() {
        return true;
    }
    let mut i: usize = 0;
    while i < a.len()
        invariant
            a@.len() == b@.len(),
            i <= a@.len(),
            forall|j: int| 0 <= j < i ==> #[trigger] a@[j]@ == b@[j]@,
        decreases a@.len() - i,
    {
        if !same_text(a[i].as_str(), b[i].as_str()) {
            assert(views(a@)[i as int] != views(b@)[i as int]);
            return true;
        }
        i = i + 1;
    }
    assert(views(a@) =~= views(b@));
    false
}

/// What the device watcher sends when it reads `devices`: the sorted list,
/// when it differs from the one sent last (`None`: nothing to send).
pub fn device_list_update(devices: &Vec<String>, last: &Vec<String>) -> (r: Option<Vec<String>>)
    ensures
        match r {
            Some(l) => texts_sorted(views(l@)) && (forall|k: Seq<char>| #[trigger] views(l@).filter(equal_to(k))
                == views(devices@).filter(equal_to(k))) && views(l@) != views(last@),
            None => exists|l: Seq<Seq<char>>| texts_sorted(l) && (forall|k: Seq<char>| #[trigger] l.filter(
                equal_to(k),
            ) == views(devices@).filter(equal_to(k))) && l == views(last@),
        },
{
    let list = sorted_devices(devices);
    if lists_differ(&list, last) {
        Some(list)
    } else {
        None
    }
}

// ---------------------------------------------------------------------------
// Answers
// ---------------------------------------------------------------------------

/// The music directory of the first configuration of device `id` (enabled
/// or not).
pub open spec fn configured_dir(cfgs: Seq<AdbDeviceSettings>, id: Seq<char>) -> Option<Seq<char>>
    decreases cfgs.len(),
{
    if cfgs.len() == 0 {
        None
    } else if cfgs[0].device_id@ == id {
        Some(cfgs[0].remote_music_dir@)
    } else {
        configured_dir(cfgs.drop_first(), id)
    }
}

/// The directory a manual sync of `device_id` writes to: that of its first
/// configuration; a bad request when it has none or it is empty.
pub fn manual_sync_dir(cfgs: &Vec<AdbDeviceSettings>, device_id: &str) -> (r: Result<String, ApiError>)
    ensures
        match configured_dir(cfgs@, device_id@) {
            Some(d) if d.len() > 0 => r matches Ok(s) && s@ == d,
            _ => r matches Err(e) && e.status == STATUS_BAD_REQUEST && e.code == ErrorCode::BadRequest
                && e.message@ == "Device configuration or remote music directory is not set"@,
        },
{
    let mut i: usize = 0;
    assert(cfgs@.skip(0) =~= cfgs@);
    while i < cfgs.len()
        invariant
            i <= cfgs@.len(),
            configured_dir(cfgs@, device_id@) == configured_dir(cfgs@.skip(i as int), device_id@),
        decreases cfgs@.len() - i,
    {
        assert(cfgs@.skip(i as int)[0] == cfgs@[i as int]);
        assert(cfgs@.skip(i as int).drop_first() =~= cfgs@.skip(i + 1));
        if same_text(cfgs[i].device_id.as_str(), device_id) {
            if cfgs[i].remote_music_dir.unicode_len() > 0 {
                return Ok(cfgs[i].remote_music_dir.clone());
            }
            return Err(
                ApiError::bad_request(string_from("Device configuration or remote music directory is not set")),
            );
        }
        i = i + 1;
    }
    Err(ApiError::bad_request(string_from("Device configuration or remote music directory is not set")))
}

/// The answer to a failed sync of `device_id`: a conflict (code
/// `AlreadyProcessing`) when a sync of it is already running, else an
/// internal error (code `AdbError`) with the reason.
pub fn sync_failed(device_id: &str, already_in_progress: bool, reason: &str) -> (r: ApiError)
    ensures
        already_in_progress ==> r.status == STATUS_CONFLICT && r.code == ErrorCode::AlreadyProcessing
            && r.message@ == "Device is currently syncing"@,
        !already_in_progress ==> r.status == STATUS_INTERNAL_SERVER_ERROR && r.code == ErrorCode::AdbError
            && r.message@ == "Failed to sync device "@ + device_id@ + ": "@ + reason@,
{
    if already_in_progress {
        ApiError::new(STATUS_CONFLICT, ErrorCode::AlreadyProcessing, string_from("Device is currently syncing"))
    } else {
        let mut m = string_from("Failed to sync device ");
        push_seq(&mut m, device_id);
        push_seq(&mut m, ": ");
        push_seq(&mut m, reason);
        ApiError::internal(m).with_code(ErrorCode::AdbError)
    }
}

/// The answer to a failed device listing: an internal error (code
/// `AdbError`).
pub fn list_devices_failed(reason: &str) -> (r: ApiError)
    ensures
        r.status == STATUS_INTERNAL_SERVER_ERROR,
        r.code == ErrorCode::AdbError,
        r.message@ == "Failed to list ADB devices: "@ + reason@,
{
    let mut m = string_from("Failed to list ADB devices: ");
    push_seq(&mut m, reason);
    ApiError::internal(m).with_code(ErrorCode::AdbError)
}

/// The answer to a failed listing of the storages of `device_id`: an
/// internal error (code `AdbError`).
pub fn storages_failed(device_id: &str, reason: &str) -> (r: ApiError)
    ensures
        r.status == STATUS_INTERNAL_SERVER_ERROR,
        r.code == ErrorCode::AdbError,
        r.message@ == "Failed to list storage partitions for device "@ + device_id@ + ": "@ + reason@,
{
    let mut m = string_from("Failed to list storage partitions for device ");
    push_seq(&mut m, device_id);
    push_seq(&mut m, ": ");
    push_seq(&mut m, reason);
    ApiError::internal(m).with_code(ErrorCode::AdbError)
}

} // verus!
