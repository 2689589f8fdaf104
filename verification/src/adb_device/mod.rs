//! ADB devices: the commands sent to them, the parsing of what they answer,
//! the bookkeeping of connected devices and running syncs, and the plan of a
//! music-library sync.
//!
//! This module holds the decisions of the device tracker: decoding the
//! length-prefixed packets of the ADB server's `track-devices` service, the
//! devices to sync when the set of connected devices changes, and the
//! supervision of the tracker task.
pub mod commands;
pub mod state;
pub mod sync;
pub mod ui;

use crate::adb_device::commands::{device_ids, devices_in, listed_lines, AdbError};
use crate::text::{push_seq, string_from, views};
use vstd::prelude::*;
use vstd::utf8::*;

verus! {

// ---------------------------------------------------------------------------
// Settings of the ADB side
// ---------------------------------------------------------------------------

/// One device the user has configured for syncing.
#[derive(Clone, Debug)]
pub struct AdbDeviceSettings {
    pub device_id: String,
    pub enabled: bool,
    pub remote_music_dir: String,
}

/// The ADB settings: whether device tracking is on, whether connected
/// devices are synced automatically, and the configured devices.
#[derive(Clone, Debug)]
pub struct AdbSettings {
    pub enabled: bool,
    pub auto_sync: bool,
    pub devices: Vec<AdbDeviceSettings>,
}

// ---------------------------------------------------------------------------
// Packets of the ADB server
// ---------------------------------------------------------------------------

/// The text `std::str::from_utf8` reports for bytes that are not UTF-8.
pub uninterp spec fn utf8_error_text(b: Seq<u8>) -> Seq<char>;

/// Calls `std::str::from_utf8`. As its documentation says, it succeeds
/// exactly on valid UTF-8 and then yields the decoded characters; the text of
/// its error is left to a name.
#[verifier::external_body]
pub(crate) fn str_from_utf8(b: &[u8]) -> (r: Result<String, String>)
    ensures
        r is Ok <==> valid_utf8(b@),
        r is Ok ==> r->Ok_0@ == decode_utf8(b@),
        r is Err ==> r->Err_0@ == utf8_error_text(b@),
{
    match std::str::from_utf8(b) {
        Ok(s) => Ok(s.to_string()),
        Err(e) => Err(e.to_string()),
    }
}

/// The value of one hexadecimal digit byte.
pub open spec fn hex_digit_value(b: u8) -> Option<nat> {
    if 48 <= b <= 57 {
        Some((b - 48) as nat)
    } else if 97 <= b <= 102 {
        Some((b - 87) as nat)
    } else if 65 <= b <= 70 {
        Some((b - 55) as nat)
    } else {
        None
    }
}

/// The value of a string of hexadecimal digit bytes.
pub open spec fn hex_digits_value(d: Seq<u8>) -> Option<nat>
    decreases d.len(),
{
    if d.len() == 0 {
        Some(0)
    } else {
        match (hex_digits_value(d.drop_last()), hex_digit_value(d.last())) {
            (Some(a), Some(x)) => Some(a * 16 + x),
            _ => None,
        }
    }
}

/// What `usize::from_str_radix(_, 16)` makes of the bytes `b`: an optional
/// `+` followed by at least one hexadecimal digit.
pub open spec fn radix16_value(b: Seq<u8>) -> Option<nat> {
    let digits = if b.len() > 0 && b[0] == 43 {
        b.drop_first()
    } else {
        b
    };
    if digits.len() == 0 {
        None
    } else {
        hex_digits_value(digits)
    }
}

/// 16 to the power `n`.
pub open spec fn pow16(n: nat) -> nat
    decreases n,
{
    if n == 0 {
        1
    } else {
        16 * pow16((n - 1) as nat)
    }
}

/// The payload length in the 4-byte header of an ADB server packet.
pub fn decode_packet_length(len_buf: &[u8; 4]) -> (r: Result<usize, AdbError>)
    ensures
        !valid_utf8(len_buf@) ==> r is Err && r->Err_0 is Other && r->Err_0->Other_0@
            == "Length not valid UTF-8: "@ + utf8_error_text(len_buf@),
        valid_utf8(len_buf@) && radix16_value(len_buf@) is None ==> r is Err && r->Err_0 is Other
            && r->Err_0->Other_0@ == "Length not valid hex '"@ + decode_utf8(len_buf@)
            + "': invalid digit found in string"@,
        valid_utf8(len_buf@) && radix16_value(len_buf@) is Some ==> r is Ok && r->Ok_0
            == radix16_value(len_buf@)->0,
{
    let text = match str_from_utf8(len_buf) {
        Ok(t) => t,
        Err(e) => {
            let mut m = string_from("Length not valid UTF-8: ");
            push_seq(&mut m, e.as_str());
            return Err(AdbError::Other(m));
        },
    };
    let b = len_buf;
    let start: usize = if b[0] == 43 {
        1
    } else {
        0
    };
    let ghost digits = b@.skip(start as int);
    assert(digits =~= if b@.len() > 0 && b@[0] == 43 {
        b@.drop_first()
    } else {
        b@
    });
    let mut value: usize = 0;
    let mut i: usize = start;
    let mut ok = true;
    proof {
        assert(b@.subrange(start as int, start as int) =~= Seq::<u8>::empty());
        reveal_with_fuel(pow16, 5);
    }
    while i < 4
        invariant
            b@.len() == 4,
            start <= i <= 4,
            start <= 1,
            ok ==> hex_digits_value(b@.subrange(start as int, i as int)) == Some(value as nat),
            ok ==> value < pow16((i - start) as nat),
            pow16(4) == 65536,
            !ok ==> hex_digits_value(digits) is None,
            digits == b@.skip(start as int),
        decreases 4 - i,
    {
        let c = b[i];
        let d: Option<usize> = if 48 <= c && c <= 57 {
            Some((c - 48) as usize)
        } else if 97 <= c && c <= 102 {
            Some((c - 87) as usize)
        } else if 65 <= c && c <= 70 {
            Some((c - 55) as usize)
        } else {
            None
        };
        let ghost pre = b@.subrange(start as int, i as int);
        let ghost post = b@.subrange(start as int, i + 1);
        proof {
            assert(post.drop_last() =~= pre);
            assert(post.last() == c);
        }
        match d {
            Some(x) => {
                if ok {
                    proof {
                        let p = pow16((i - start) as nat);
                        assert(pow16((i + 1 - start) as nat) == 16 * p);
                        assert(i - start <= 3);
                        if i - start == 3 {
                            assert(p == 4096) by {
                                reveal_with_fuel(pow16, 4);
                            }
                        } else if i - start == 2 {
                            assert(p == 256) by {
                                reveal_with_fuel(pow16, 3);
                            }
                        } else if i - start == 1 {
                            assert(p == 16) by {
                                reveal_with_fuel(pow16, 2);
                            }
                        } else {
                            assert(p == 1);
                        }
                        assert(value * 16 + x < p * 16) by (nonlinear_arith)
                            requires
                                value < p,
                                x < 16,
                        ;
                    }
                    value = value * 16 + x;
                }
            },
            None => {
                proof {
                    lemma_hex_none_extends(b@, start as int, i as int);
                }
                ok = false;
            },
        }
        i = i + 1;
    }
    if ok && start < 4 {
        assert(b@.subrange(start as int, 4) =~= digits);
        Ok(value)
    } else {
        let mut m = string_from("Length not valid hex '");
        push_seq(&mut m, text.as_str());
        push_seq(&mut m, "': invalid digit found in string");
        Err(AdbError::Other(m))
    }
}

proof fn lemma_hex_none_extends(b: Seq<u8>, start: int, i: int)
    requires
        0 <= start <= i < b.len(),
        hex_digit_value(b[i]) is None,
    ensures
        hex_digits_value(b.skip(start)) is None,
    decreases b.len() - i,
{
    lemma_hex_none_prefix(b.skip(start), i - start);
}

proof fn lemma_hex_none_prefix(d: Seq<u8>, k: int)
    requires
        0 <= k < d.len(),
        hex_digit_value(d[k]) is None,
    ensures
        hex_digits_value(d) is None,
    decreases d.len(),
{
    if k < d.len() - 1 {
        lemma_hex_none_prefix(d.drop_last(), k);
    }
}

/// The attached devices named in one device-list packet of the
/// `track-devices` service (its payload; no header line is skipped).
pub fn device_list_update(payload: &Vec<u8>) -> (r: Result<Vec<String>, AdbError>)
    ensures
        !valid_utf8(payload@) ==> r is Err && r->Err_0 is Other && r->Err_0->Other_0@
            == "Payload not valid UTF-8: "@ + utf8_error_text(payload@),
        valid_utf8(payload@) ==> r is Ok && views(r->Ok_0@).no_duplicates() && views(
            r->Ok_0@,
        ).to_set() == devices_in(listed_lines(decode_utf8(payload@), false)),
{
    match str_from_utf8(payload.as_slice()) {
        Ok(text) => Ok(device_ids(text.as_str(), false)),
        Err(e) => {
            let mut m = string_from("Payload not valid UTF-8: ");
            push_seq(&mut m, e.as_str());
            Err(AdbError::Other(m))
        },
    }
}

// ---------------------------------------------------------------------------
// Which devices to sync
// ---------------------------------------------------------------------------

/// The music directory of the first enabled configuration of device `id`.
pub open spec fn config_dir(cfgs: Seq<AdbDeviceSettings>, id: Seq<char>) -> Option<Seq<char>>
    decreases cfgs.len(),
{
    if cfgs.len() == 0 {
        None
    } else if cfgs[0].enabled && cfgs[0].device_id@ == id {
        Some(cfgs[0].remote_music_dir@)
    } else {
        config_dir(cfgs.drop_first(), id)
    }
}

/// The (device, music directory) pairs to sync for the devices `ids`, in
/// their order: every device that has an enabled configuration.
pub open spec fn sync_targets_spec(ids: Seq<Seq<char>>, cfgs: Seq<AdbDeviceSettings>) -> Seq<
    (Seq<char>, Seq<char>),
>
    decreases ids.len(),
{
    if ids.len() == 0 {
        seq![]
    } else {
        let init = sync_targets_spec(ids.drop_last(), cfgs);
        match config_dir(cfgs, ids.last()) {
            Some(d) => init.push((ids.last(), d)),
            None => init,
        }
    }
}

/// The plain values of a list of (device, directory) pairs.
pub open spec fn pair_views(v: Seq<(String, String)>) -> Seq<(Seq<char>, Seq<char>)> {
    v.map_values(|p: (String, String)| (p.0@, p.1@))
}

/// The music directory of the first enabled configuration of device `id`.
pub fn find_config(cfgs: &Vec<AdbDeviceSettings>, id: &String) -> (r: Option<String>)
    ensures
        r is Some == config_dir(cfgs@, id@) is Some,
        r is Some ==> r->0@ == config_dir(cfgs@, id@)->0,
{
    let mut i: usize = 0;
    assert(cfgs@.skip(0) =~= cfgs@);
    while i < cfgs.len()
        invariant
            i <= cfgs@.len(),
            config_dir(cfgs@, id@) == config_dir(cfgs@.skip(i as int), id@),
        decreases cfgs@.len() - i,
    {
        assert(cfgs@.skip(i as int)[0] == cfgs@[i as int]);
        assert(cfgs@.skip(i as int).drop_first() =~= cfgs@.skip(i + 1));
        if cfgs[i].enabled && cfgs[i].device_id == *id {
            return Some(cfgs[i].remote_music_dir.clone());
        }
        i = i + 1;
    }
    None
}

/// The (device, music directory) pairs to sync for the devices `ids`.
pub fn sync_targets(ids: &Vec<String>, cfgs: &Vec<AdbDeviceSettings>) -> (r: Vec<(String, String)>)
    ensures
        pair_views(r@) == sync_targets_spec(views(ids@), cfgs@),
{
    let mut r: Vec<(String, String)> = Vec::new();
    let mut i: usize = 0;
    assert(views(ids@).take(0) =~= Seq::<Seq<char>>::empty());
    while i < ids.len()
        invariant
            i <= ids@.len(),
            pair_views(r@) == sync_targets_spec(views(ids@).take(i as int), cfgs@),
        decreases ids@.len() - i,
    {
        let ghost pre = views(ids@).take(i as int);
        let ghost post = views(ids@).take(i + 1);
        assert(post.drop_last() =~= pre);
        assert(post.last() == ids@[i as int]@);
        match find_config(cfgs, &ids[i]) {
            Some(d) => {
                let ghost old_r = r@;
                r.push((ids[i].clone(), d));
                assert(pair_views(r@) =~= pair_views(old_r).push((ids@[i as int]@, r@.last().1@)));
            },
            None => {},
        }
        i = i + 1;
    }
    assert(views(ids@).take(ids@.len() as int) =~= views(ids@));
    r
}

/// The devices of `current` that are not in `previous`, in their order.
pub open spec fn newly_connected(previous: Seq<Seq<char>>, current: Seq<Seq<char>>) -> Seq<
    Seq<char>,
> {
    current.filter(|id: Seq<char>| !previous.contains(id))
}

/// The devices of `a` that are not in `b`.
pub fn difference(a: &Vec<String>, b: &Vec<String>) -> (r: Vec<String>)
    ensures
        views(r@) == views(a@).filter(|id: Seq<char>| !views(b@).contains(id)),
{
    let ghost pred = |id: Seq<char>| !views(b@).contains(id);
    let mut r: Vec<String> = Vec::new();
    let mut i: usize = 0;
    assert(views(a@).take(0).filter(pred) =~= Seq::<Seq<char>>::empty());
    while i < a.len()
        invariant
            i <= a@.len(),
            pred == (|id: Seq<char>| !views(b@).contains(id)),
            views(r@) == views(a@).take(i as int).filter(pred),
        decreases a@.len() - i,
    {
        let ghost pre = views(a@).take(i as int);
        assert(views(a@).take(i + 1) =~= pre.push(a@[i as int]@));
        proof {
            pre.lemma_filter_push(a@[i as int]@, pred);
        }
        if !crate::text::contains_string(b, &a[i]) {
            let ghost old_r = r@;
            r.push(a[i].clone());
            assert(views(r@) =~= views(old_r).push(a@[i as int]@));
        }
        i = i + 1;
    }
    assert(views(a@).take(a@.len() as int) =~= views(a@));
    r
}

/// Whether the `j`-th of `cfgs` is an enabled configuration of device `id`.
pub open spec fn enabled_config_at(cfgs: Seq<AdbDeviceSettings>, id: Seq<char>, j: int) -> bool {
    0 <= j < cfgs.len() && cfgs[j].enabled && cfgs[j].device_id@ == id
}

/// Whether `dir` is the music directory of the first enabled configuration
/// of device `id`.
pub open spec fn first_enabled_dir(cfgs: Seq<AdbDeviceSettings>, id: Seq<char>, dir: Seq<char>) -> bool {
    exists|j: int|
        #[trigger] enabled_config_at(cfgs, id, j) && cfgs[j].remote_music_dir@ == dir && forall|k: int|
            0 <= k < j ==> !(#[trigger] enabled_config_at(cfgs, id, k))
}

/// The configuration found for a device is its first enabled one, and none
/// is found when it has no enabled one.
proof fn lemma_config_dir_first(cfgs: Seq<AdbDeviceSettings>, id: Seq<char>)
    ensures
        config_dir(cfgs, id) matches Some(d) ==> first_enabled_dir(cfgs, id, d),
        config_dir(cfgs, id) is None ==> forall|j: int| !(#[trigger] enabled_config_at(cfgs, id, j)),
    decreases cfgs.len(),
{
    if cfgs.len() > 0 {
        let rest = cfgs.drop_first();
        lemma_config_dir_first(rest, id);
        if cfgs[0].enabled && cfgs[0].device_id@ == id {
            assert(enabled_config_at(cfgs, id, 0));
        } else {
            assert forall|j: int| #[trigger] enabled_config_at(cfgs, id, j) && j > 0 implies enabled_config_at(
                rest,
                id,
                j - 1,
            ) by {}
            if let Some(d) = config_dir(cfgs, id) {
                let j = choose|j: int|
                    #[trigger] enabled_config_at(rest, id, j) && rest[j].remote_music_dir@ == d && forall|k: int|
                        0 <= k < j ==> !(#[trigger] enabled_config_at(rest, id, k));
                assert(enabled_config_at(cfgs, id, j + 1));
                assert forall|k: int| 0 <= k < j + 1 implies !(#[trigger] enabled_config_at(cfgs, id, k)) by {
                    if k > 0 {
                        assert(!enabled_config_at(rest, id, k - 1));
                    }
                }
            } else {
                assert forall|j: int| !(#[trigger] enabled_config_at(cfgs, id, j)) by {
                    if j > 0 && enabled_config_at(cfgs, id, j) {
                        assert(enabled_config_at(rest, id, j - 1));
                    }
                }
            }
        }
    }
}

/// The sync targets of `ids`: each is one of `ids` with the directory of its
/// first enabled configuration, and each of `ids` with an enabled
/// configuration is among them.
proof fn lemma_sync_targets_members(ids: Seq<Seq<char>>, cfgs: Seq<AdbDeviceSettings>)
    ensures
        forall|k: int|
            0 <= k < sync_targets_spec(ids, cfgs).len() ==> ids.contains(
                (#[trigger] sync_targets_spec(ids, cfgs)[k]).0,
            ) && first_enabled_dir(cfgs, sync_targets_spec(ids, cfgs)[k].0, sync_targets_spec(ids, cfgs)[k].1),
        forall|i: int, j: int|
            0 <= i < ids.len() && #[trigger] enabled_config_at(cfgs, ids[i], j) ==> exists|k: int|
                0 <= k < sync_targets_spec(ids, cfgs).len() && (#[trigger] sync_targets_spec(ids, cfgs)[k]).0
                    == ids[i],
    decreases ids.len(),
{
    if ids.len() > 0 {
        let init = ids.drop_last();
        lemma_sync_targets_members(init, cfgs);
        lemma_config_dir_first(cfgs, ids.last());
        let ri = sync_targets_spec(init, cfgs);
        let r = sync_targets_spec(ids, cfgs);
        assert forall|k: int| 0 <= k < r.len() implies ids.contains((#[trigger] r[k]).0) && first_enabled_dir(
            cfgs,
            r[k].0,
            r[k].1,
        ) by {
            if k < ri.len() {
                assert(r[k] == ri[k]);
                let m = choose|m: int| 0 <= m < init.len() && init[m] == ri[k].0;
                assert(ids[m] == init[m]);
            } else {
                assert(ids[ids.len() - 1] == ids.last());
            }
        }
        assert forall|i: int, j: int| 0 <= i < ids.len() && #[trigger] enabled_config_at(cfgs, ids[i], j) implies exists|
            k: int,
        | 0 <= k < r.len() && (#[trigger] r[k]).0 == ids[i] by {
            if i < init.len() {
                assert(init[i] == ids[i]);
                assert(enabled_config_at(cfgs, init[i], j));
                let k = choose|k: int| 0 <= k < ri.len() && (#[trigger] ri[k]).0 == init[i];
                assert(r[k] == ri[k]);
            } else {
                assert(ids[i] == ids.last());
                assert(config_dir(cfgs, ids.last()) is Some);
                assert(r[ri.len() as int].0 == ids[i]);
            }
        }
    }
}

/// The syncs started when the tracker sees `current` after `previous` are
/// exactly for the newly connected devices: each target is a device of
/// `current` that was not in `previous`, with the directory of its first
/// enabled configuration; and every device of `current` not in `previous`
/// that has an enabled configuration is a target.
pub proof fn lemma_devices_to_sync_newly_connected(
    previous: Seq<Seq<char>>,
    current: Seq<Seq<char>>,
    cfgs: Seq<AdbDeviceSettings>,
)
    ensures
        forall|k: int|
            0 <= k < sync_targets_spec(newly_connected(previous, current), cfgs).len() ==> ({
                let t = #[trigger] sync_targets_spec(newly_connected(previous, current), cfgs)[k];
                current.contains(t.0) && !previous.contains(t.0) && first_enabled_dir(cfgs, t.0, t.1)
            }),
        forall|i: int, j: int|
            0 <= i < current.len() && !previous.contains(current[i]) && #[trigger] enabled_config_at(
                cfgs,
                current[i],
                j,
            ) ==> exists|k: int|
                0 <= k < sync_targets_spec(newly_connected(previous, current), cfgs).len() && (#[trigger] sync_targets_spec(
                    newly_connected(previous, current),
                    cfgs,
                )[k]).0 == current[i],
{
    broadcast use vstd::seq_lib::group_filter_ensures;
    let pred = |id: Seq<char>| !previous.contains(id);
    let fresh = newly_connected(previous, current);
    lemma_sync_targets_members(fresh, cfgs);
    let r = sync_targets_spec(fresh, cfgs);
    assert forall|k: int| 0 <= k < r.len() implies ({
        let t = #[trigger] r[k];
        current.contains(t.0) && !previous.contains(t.0) && first_enabled_dir(cfgs, t.0, t.1)
    }) by {
        let m = choose|m: int| 0 <= m < fresh.len() && fresh[m] == r[k].0;
        current.lemma_filter_contains_rev(pred, fresh[m]);
        assert(pred(fresh[m]));
    }
    assert forall|i: int, j: int|
        0 <= i < current.len() && !previous.contains(current[i]) && #[trigger] enabled_config_at(cfgs, current[i], j)
        implies exists|k: int| 0 <= k < r.len() && (#[trigger] r[k]).0 == current[i] by {
        assert(pred(current[i]));
        assert(fresh.contains(current[i]));
        let m = choose|m: int| 0 <= m < fresh.len() && fresh[m] == current[i];
        assert(enabled_config_at(cfgs, fresh[m], j));
    }
}

/// The syncs to start when the tracker sees `current` after `previous`:
/// one for every newly connected device that has an enabled configuration.
pub fn devices_to_sync(
    previous: &Vec<String>,
    current: &Vec<String>,
    cfgs: &Vec<AdbDeviceSettings>,
) -> (r: Vec<(String, String)>)
    ensures
        pair_views(r@) == sync_targets_spec(newly_connected(views(previous@), views(current@)), cfgs@),
        forall|k: int|
            0 <= k < r@.len() ==> views(current@).contains((#[trigger] r@[k]).0@) && !views(previous@).contains(
                r@[k].0@,
            ) && first_enabled_dir(cfgs@, r@[k].0@, r@[k].1@),
        forall|i: int, j: int|
            0 <= i < current@.len() && !views(previous@).contains(current@[i]@) && #[trigger] enabled_config_at(
                cfgs@,
                current@[i]@,
                j,
            ) ==> exists|k: int| 0 <= k < r@.len() && (#[trigger] r@[k]).0@ == current@[i]@,
{
    let fresh = difference(current, previous);
    let r = sync_targets(&fresh, cfgs);
    proof {
        let pv = views(previous@);
        let cv = views(current@);
        lemma_devices_to_sync_newly_connected(pv, cv, cfgs@);
        let t = sync_targets_spec(newly_connected(pv, cv), cfgs@);
        assert forall|k: int| 0 <= k < r@.len() implies #[trigger] pair_views(r@)[k] == (r@[k].0@, r@[k].1@) by {}
        assert forall|k: int| 0 <= k < r@.len() implies cv.contains((#[trigger] r@[k]).0@) && !pv.contains(r@[k].0@)
            && first_enabled_dir(cfgs@, r@[k].0@, r@[k].1@) by {
            assert(pair_views(r@)[k] == t[k]);
        }
        assert forall|i: int, j: int|
            0 <= i < current@.len() && !pv.contains(current@[i]@) && #[trigger] enabled_config_at(cfgs@, current@[i]@, j)
            implies exists|k: int| 0 <= k < r@.len() && (#[trigger] r@[k]).0@ == current@[i]@ by {
            assert(cv[i] == current@[i]@);
            let k = choose|k: int| 0 <= k < t.len() && (#[trigger] t[k]).0 == cv[i];
            assert(pair_views(r@)[k] == t[k]);
        }
    }
    r
}

/// The syncs to start for the devices connected right now, when devices are
/// tracked and synced automatically; none otherwise.
pub fn sync_connected(settings: &AdbSettings, connected: &Vec<String>) -> (r: Vec<(String, String)>)
    ensures
        !settings.enabled || !settings.auto_sync ==> r@.len() == 0,
        settings.enabled && settings.auto_sync ==> pair_views(r@) == sync_targets_spec(
            views(connected@),
            settings.devices@,
        ),
{
    if !settings.enabled || !settings.auto_sync {
        return Vec::new();
    }
    sync_targets(connected, &settings.devices)
}

// ---------------------------------------------------------------------------
// Subscribing to the device tracker
// ---------------------------------------------------------------------------

/// The port of the ADB server when none (or no valid one) is configured.
pub const DEFAULT_ADB_PORT: u16 = 5037;

/// The port configured in `port`: read as a `u16` (as `str::parse::<u16>`
/// does), else the default.
pub open spec fn server_port(port: Option<Seq<char>>) -> u16 {
    match port {
        Some(p) => match crate::text::parse_u64_spec(p) {
            Some(n) => if n <= 65535 {
                n as u16
            } else {
                DEFAULT_ADB_PORT
            },
            None => DEFAULT_ADB_PORT,
        },
        None => DEFAULT_ADB_PORT,
    }
}

/// The address of the ADB server, `host:port`, from the configured host
/// (default `127.0.0.1`) and port (see `server_port`).
pub fn server_address(host: Option<String>, port: Option<String>) -> (r: String)
    ensures
        r@ == (match host {
            Some(h) => h@,
            None => "127.0.0.1"@,
        }) + ":"@ + crate::text::decimal(server_port(
            match port {
                Some(p) => Some(p@),
                None => None,
            },
        ) as nat),
{
    let mut r = match host {
        Some(h) => h,
        None => string_from("127.0.0.1"),
    };
    let p: u16 = match &port {
        Some(t) => match crate::text::parse_u64(t.as_str()) {
            Some(n) => if n <= 65535 {
                n as u16
            } else {
                DEFAULT_ADB_PORT
            },
            None => DEFAULT_ADB_PORT,
        },
        None => DEFAULT_ADB_PORT,
    };
    push_seq(&mut r, ":");
    crate::text::push_decimal(&mut r, p as u64);
    r
}

/// The request that subscribes to the device lists: `0012host:track-devices`.
pub fn track_devices_request() -> (r: Vec<u8>)
    ensures
        r@ == "0012host:track-devices"@.map_values(|c: char| c as u8),
{
    let text = "0012host:track-devices";
    let v = crate::text::chars_of(text);
    let mut r: Vec<u8> = Vec::new();
    let mut i: usize = 0;
    while i < v.len()
        invariant
            v@ == text@,
            i <= v@.len(),
            r@ == text@.take(i as int).map_values(|c: char| c as u8),
        decreases v@.len() - i,
    {
        proof {
            reveal_strlit("0012host:track-devices");
        }
        assert(text@.take(i + 1).map_values(|c: char| c as u8) =~= text@.take(i as int).map_values(
            |c: char| c as u8,
        ).push(v@[i as int] as u8));
        r.push(v[i] as u8);
        i = i + 1;
    }
    assert(text@.take(text@.len() as int) =~= text@);
    r
}

/// The error for a `FAIL` answer to the subscription, with the reason the
/// server sent (decoded, invalid UTF-8 replaced).
pub fn fail_status_error(reason: &Vec<u8>) -> (r: AdbError)
    ensures
        r matches AdbError::Other(m) && m@ == "ADB server returned FAIL: "@
            + crate::adb_device::commands::lossy_decode(reason@),
{
    let mut m = string_from("ADB server returned FAIL: ");
    let t = crate::adb_device::commands::utf8_lossy(reason);
    push_seq(&mut m, t.as_str());
    AdbError::Other(m)
}

/// The error for any other answer to the subscription, naming its four
/// bytes as `Debug` prints an array (`[79, 75, 65, 89]`).
pub fn unexpected_status_error(status: &[u8; 4]) -> (r: AdbError)
    ensures
        r matches AdbError::Other(m) && m@ == "ADB server returned unexpected status: ["@
            + crate::text::decimal(status@[0] as nat) + ", "@ + crate::text::decimal(status@[1] as nat)
            + ", "@ + crate::text::decimal(status@[2] as nat) + ", "@ + crate::text::decimal(
            status@[3] as nat,
        ) + "]"@,
{
    let mut m = string_from("ADB server returned unexpected status: [");
    crate::text::push_decimal(&mut m, status[0] as u64);
    push_seq(&mut m, ", ");
    crate::text::push_decimal(&mut m, status[1] as u64);
    push_seq(&mut m, ", ");
    crate::text::push_decimal(&mut m, status[2] as u64);
    push_seq(&mut m, ", ");
    crate::text::push_decimal(&mut m, status[3] as u64);
    push_seq(&mut m, "]");
    AdbError::Other(m)
}

/// The error for a failed `adb start-server`: its error output decoded and
/// trimmed.
pub fn start_server_error(stderr: &Vec<u8>) -> (r: AdbError)
    ensures
        r matches AdbError::Other(m) && m@ == "adb start-server failed: "@ + crate::text::trim(
            crate::adb_device::commands::lossy_decode(stderr@),
        ),
{
    let mut m = string_from("adb start-server failed: ");
    let t = crate::adb_device::commands::utf8_lossy(stderr);
    let tt = crate::text::trimmed(t.as_str());
    push_seq(&mut m, tt.as_str());
    AdbError::Other(m)
}

/// How the ADB server answered the `track-devices` request.
#[derive(Clone, Copy, Debug, PartialEq, Eq, Structural)]
pub enum SubscribeStatus {
    /// `OKAY`: device lists follow.
    Okay,
    /// `FAIL`: a packet with the reason follows.
    Fail,
    /// Anything else.
    Unexpected,
}

/// Classifies the 4-byte status the ADB server answers a request with.
pub fn subscribe_status(status: &[u8; 4]) -> (r: SubscribeStatus)
    ensures
        status@ == seq![79u8, 75, 65, 89] ==> r == SubscribeStatus::Okay,
        status@ == seq![70u8, 65, 73, 76] ==> r == SubscribeStatus::Fail,
        status@ != seq![79u8, 75, 65, 89] && status@ != seq![70u8, 65, 73, 76] ==> r
            == SubscribeStatus::Unexpected,
{
    if status[0] == 79 && status[1] == 75 && status[2] == 65 && status[3] == 89 {
        assert(status@ =~= seq![79u8, 75, 65, 89]);
        SubscribeStatus::Okay
    } else if status[0] == 70 && status[1] == 65 && status[2] == 73 && status[3] == 76 {
        assert(status@ =~= seq![70u8, 65, 73, 76]);
        SubscribeStatus::Fail
    } else {
        SubscribeStatus::Unexpected
    }
}

// ---------------------------------------------------------------------------
// Supervising the tracker task
// ---------------------------------------------------------------------------

/// How a finished tracker task ended.
#[derive(Clone, Copy, Debug, PartialEq, Eq, Structural)]
pub enum TaskOutcome {
    /// It returned without error.
    Completed,
    /// It found no `adb` binary.
    AdbMissing,
    /// It failed with another error.
    Failed,
    /// It panicked.
    Panicked,
    /// It was cancelled.
    Cancelled,
}

/// The tracker task slot as the supervisor sees it on one tick.
#[derive(Clone, Copy, Debug, PartialEq, Eq, Structural)]
pub enum TaskState {
    Absent,
    Running,
    Finished(TaskOutcome),
}

/// What the supervisor does on one tick.
#[derive(Clone, Copy, Debug, PartialEq, Eq, Structural)]
pub enum TrackerAction {
    /// Leave the slot as it is.
    Wait,
    /// Empty the slot (reaping a finished task) and start a new tracker.
    Spawn,
    /// Empty the slot (reaping a finished task) and start nothing.
    Reap,
    /// Abort the task in the slot and forget the connected devices.
    Abort,
}

/// One tick of the supervisor as a plain value.
pub open spec fn tracker_step_spec(enabled: bool, available: bool, task: TaskState) -> (
    bool,
    TrackerAction,
) {
    if enabled && available {
        match task {
            TaskState::Running => (true, TrackerAction::Wait),
            TaskState::Absent => (true, TrackerAction::Spawn),
            TaskState::Finished(o) => if o == TaskOutcome::AdbMissing {
                (false, TrackerAction::Reap)
            } else {
                (true, TrackerAction::Spawn)
            },
        }
    } else {
        match task {
            TaskState::Absent => (available, TrackerAction::Wait),
            _ => (available, TrackerAction::Abort),
        }
    }
}

/// One tick of the supervisor of the device tracker: given whether ADB is
/// enabled in the settings, whether the `adb` binary is still thought to be
/// available, and the state of the task slot, it gives the new availability
/// and what to do. A tracker that found no `adb` binary marks it unavailable
/// for good; a tracker that ended otherwise is restarted.
pub fn tracker_step(enabled: bool, available: bool, task: TaskState) -> (r: (bool, TrackerAction))
    ensures
        r == tracker_step_spec(enabled, available, task),
{
    if enabled && available {
        match task {
            TaskState::Running => (true, TrackerAction::Wait),
            TaskState::Absent => (true, TrackerAction::Spawn),
            TaskState::Finished(o) => {
                if o == TaskOutcome::AdbMissing {
                    (false, TrackerAction::Reap)
                } else {
                    (true, TrackerAction::Spawn)
                }
            },
        }
    } else {
        match task {
            TaskState::Absent => (available, TrackerAction::Wait),
            _ => (available, TrackerAction::Abort),
        }
    }
}

/// Once the supervisor has found the `adb` binary missing, it never starts a
/// tracker again, whatever the settings and the task slot say.
pub proof fn lemma_missing_adb_is_final(enabled: bool, task: TaskState)
    ensures
        !tracker_step_spec(enabled, false, task).0,
        tracker_step_spec(enabled, false, task).1 != TrackerAction::Spawn,
{
}

/// While tracking is enabled and `adb` is available, a tracker is always
/// either running or started on this tick, unless it has just found `adb`
/// missing.
pub proof fn lemma_tracker_kept_alive(task: TaskState)
    ensures
        task != TaskState::Finished(TaskOutcome::AdbMissing) ==> (tracker_step_spec(
            true,
            true,
            task,
        ).1 == TrackerAction::Spawn || (task == TaskState::Running && tracker_step_spec(
            true,
            true,
            task,
        ).1 == TrackerAction::Wait)),
{
}

} // verus!
