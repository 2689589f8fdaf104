//! The library listing: the order the tracks are listed in, and the answers
//! to deletions.
use crate::api::errors::{ApiError, ErrorCode, STATUS_INTERNAL_SERVER_ERROR, STATUS_NOT_FOUND};
use crate::text::{chars_of, decimal, push_decimal, push_seq, string_from, to_lowercase, unicode_lowercase};
use vstd::prelude::*;

verus! {

/// How the library listing is asked for: the sort key (`name`, or anything
/// else for the date), the order (`desc` reverses it) and the most tracks
/// to list.
#[derive(Debug)]
pub struct TracksQuery {
    pub sort: Option<String>,
    pub order: Option<String>,
    pub limit: Option<usize>,
}

/// The tracks to delete, by id.
#[derive(Debug)]
pub struct DeleteTracksPayload {
    pub ids: Vec<i64>,
}

// ---------------------------------------------------------------------------
// Comparing texts
// ---------------------------------------------------------------------------

/// Whether `a` comes before `b` in the order of `str`'s `Ord`: character by
/// character (UTF-8 keeps the order of code points), a proper prefix first.
pub open spec fn text_lt(a: Seq<char>, b: Seq<char>) -> bool
    decreases a.len(),
{
    if a.len() == 0 {
        b.len() > 0
    } else if b.len() == 0 {
        false
    } else if a[0] != b[0] {
        a[0] < b[0]
    } else {
        text_lt(a.drop_first(), b.drop_first())
    }
}

/// No text comes before itself.
pub proof fn lemma_text_lt_irreflexive(a: Seq<char>)
    ensures
        !text_lt(a, a),
    decreases a.len(),
{
    if a.len() > 0 {
        lemma_text_lt_irreflexive(a.drop_first());
    }
}

/// The order of texts is transitive.
pub proof fn lemma_text_lt_transitive(a: Seq<char>, b: Seq<char>, c: Seq<char>)
    requires
        text_lt(a, b),
        text_lt(b, c),
    ensures
        text_lt(a, c),
    decreases a.len(),
{
    if a.len() > 0 && b.len() > 0 && c.len() > 0 && a[0] == b[0] && b[0] == c[0] {
        lemma_text_lt_transitive(a.drop_first(), b.drop_first(), c.drop_first());
    }
}

/// Of two different texts, one comes before the other.
pub proof fn lemma_text_lt_total(a: Seq<char>, b: Seq<char>)
    ensures
        text_lt(a, b) || text_lt(b, a) || a == b,
    decreases a.len(),
{
    if a.len() > 0 && b.len() > 0 && a[0] == b[0] {
        lemma_text_lt_total(a.drop_first(), b.drop_first());
        if a.drop_first() == b.drop_first() {
            assert(a =~= seq![a[0]] + a.drop_first());
            assert(b =~= seq![b[0]] + b.drop_first());
        }
    } else if a.len() == 0 && b.len() == 0 {
        assert(a =~= b);
    }
}

/// Whether `a` comes before `b` as `str`'s `Ord` orders them.
pub fn text_before(a: &str, b: &str) -> (r: bool)
    ensures
        r == text_lt(a@, b@),
{
    let v = chars_of(a);
    let w = chars_of(b);
    let mut i: usize = 0;
    assert(a@.skip(0) =~= a@);
    assert(b@.skip(0) =~= b@);
    while i < v.len() && i < w.len() && v[i] == w[i]
        invariant
            v@ == a@,
            w@ == b@,
            i <= v@.len(),
            i <= w@.len(),
            text_lt(a@, b@) == text_lt(a@.skip(i as int), b@.skip(i as int)),
        decreases v@.len() - i,
    {
        proof {
            assert(a@.skip(i + 1) =~= a@.skip(i as int).drop_first());
            assert(b@.skip(i + 1) =~= b@.skip(i as int).drop_first());
        }
        i = i + 1;
    }
    if i == v.len() {
        i < w.len()
    } else if i == w.len() {
        false
    } else {
        v[i] < w[i]
    }
}

// ---------------------------------------------------------------------------
// The listing order
// ---------------------------------------------------------------------------

/// What a track is ordered by: its id, its title in lower case, and when
/// its file was made.
#[derive(Debug)]
pub struct TrackSortKey {
    pub id: i64,
    pub title: String,
    pub created_at: u64,
}

impl TrackSortKey {
    /// The key of the track `id` titled `title`, made at `created_at`.
    pub fn new(id: i64, title: &str, created_at: u64) -> (r: Self)
        ensures
            r.id == id,
            r.title@ == unicode_lowercase(title@),
            r.created_at == created_at,
    {
        TrackSortKey { id, title: to_lowercase(title), created_at }
    }
}

/// The listing's own order before reversal: by lower-case title (`by_name`)
/// or newest first, ties by ascending id.
pub open spec fn key_lt(a: TrackSortKey, b: TrackSortKey, by_name: bool) -> bool {
    if by_name {
        text_lt(a.title@, b.title@) || (a.title@ == b.title@ && a.id < b.id)
    } else {
        a.created_at > b.created_at || (a.created_at == b.created_at && a.id < b.id)
    }
}

/// Whether `a` and `b` are alike for the order.
pub open spec fn key_same(a: TrackSortKey, b: TrackSortKey, by_name: bool) -> bool {
    &&& a.id == b.id
    &&& by_name ==> a.title@ == b.title@
    &&& !by_name ==> a.created_at == b.created_at
}

/// Whether `a` is listed before `b`: the order above, reversed when `desc`.
pub open spec fn listed_before(a: TrackSortKey, b: TrackSortKey, by_name: bool, desc: bool) -> bool {
    if desc {
        key_lt(b, a, by_name)
    } else {
        key_lt(a, b, by_name)
    }
}

proof fn lemma_key_order(a: TrackSortKey, b: TrackSortKey, c: TrackSortKey, by_name: bool)
    ensures
        !key_lt(a, a, by_name),
        key_lt(a, b, by_name) && key_lt(b, c, by_name) ==> key_lt(a, c, by_name),
        key_lt(a, b, by_name) || key_lt(b, a, by_name) || key_same(a, b, by_name),
        key_lt(a, b, by_name) ==> !key_lt(b, a, by_name),
{
    lemma_text_lt_irreflexive(a.title@);
    lemma_text_lt_total(a.title@, b.title@);
    if text_lt(a.title@, b.title@) && text_lt(b.title@, c.title@) {
        lemma_text_lt_transitive(a.title@, b.title@, c.title@);
    }
    if text_lt(a.title@, b.title@) && text_lt(b.title@, a.title@) {
        lemma_text_lt_transitive(a.title@, b.title@, a.title@);
    }
}

/// Whether `a` is listed before `b` (see `listed_before`).
fn key_before(a: &TrackSortKey, b: &TrackSortKey, by_name: bool, desc: bool) -> (r: bool)
    ensures
        r == listed_before(*a, *b, by_name, desc),
{
    let (x, y) = if desc {
        (b, a)
    } else {
        (a, b)
    };
    if by_name {
        text_before(x.title.as_str(), y.title.as_str()) || (!text_before(y.title.as_str(), x.title.as_str())
            && !text_before(x.title.as_str(), y.title.as_str()) && x.id < y.id && {
            proof {
                lemma_text_lt_total(x.title@, y.title@);
            }
            true
        })
    } else {
        x.created_at > y.created_at || (x.created_at == y.created_at && x.id < y.id)
    }
}

/// Whether the positions `r` list the keys `k` in order: a permutation of
/// all positions, no key listed after one it comes before, and keys alike
/// kept in the order given (the result of a stable sort).
pub open spec fn listing_order(r: Seq<usize>, k: Seq<TrackSortKey>, by_name: bool, desc: bool) -> bool {
    &&& r.len() == k.len()
    &&& r.no_duplicates()
    &&& forall|i: int| 0 <= i < r.len() ==> #[trigger] r[i] < k.len()
    &&& forall|i: int, j: int|
        0 <= i < j < r.len() ==> !listed_before(k[r[j] as int], k[r[i] as int], by_name, desc)
    &&& forall|i: int, j: int|
        0 <= i < j < r.len() && !listed_before(k[r[i] as int], k[r[j] as int], by_name, desc) ==> r[i] < r[j]
}

proof fn lemma_listed_order(a: TrackSortKey, b: TrackSortKey, c: TrackSortKey, by_name: bool, desc: bool)
    ensures
        listed_before(a, b, by_name, desc) && !listed_before(c, b, by_name, desc) ==> listed_before(
            a,
            c,
            by_name,
            desc,
        ),
        listed_before(a, b, by_name, desc) ==> !listed_before(b, a, by_name, desc),
{
    lemma_key_order(a, b, c, by_name);
    lemma_key_order(b, c, a, by_name);
    lemma_key_order(c, b, a, by_name);
    lemma_key_order(b, a, c, by_name);
    lemma_key_order(a, c, b, by_name);
    lemma_key_order(c, a, b, by_name);
}

/// The positions of `keys` in listing order (a stable sort).
pub fn sort_positions(keys: &Vec<TrackSortKey>, by_name: bool, desc: bool) -> (r: Vec<usize>)
    ensures
        listing_order(r@, keys@, by_name, desc),
{
    let ghost k = keys@;
    let mut r: Vec<usize> = Vec::new();
    let mut i: usize = 0;
    while i < keys.len()
        invariant
            k == keys@,
            i <= k.len(),
            r@.len() == i,
            r@.no_duplicates(),
            forall|a: int| 0 <= a < r@.len() ==> #[trigger] r@[a] < i,
            forall|a: int, b: int|
                0 <= a < b < r@.len() ==> !listed_before(k[r@[b] as int], k[r@[a] as int], by_name, desc),
            forall|a: int, b: int|
                0 <= a < b < r@.len() && !listed_before(k[r@[a] as int], k[r@[b] as int], by_name, desc)
                    ==> r@[a] < r@[b],
        decreases k.len() - i,
    {
        let mut p: usize = 0;
        while p < r.len() && !key_before(&keys[i], &keys[r[p]], by_name, desc)
            invariant
                k == keys@,
                i < k.len(),
                p <= r@.len(),
                forall|a: int| 0 <= a < r@.len() ==> #[trigger] r@[a] < i,
                forall|a: int| 0 <= a < p ==> !listed_before(k[i as int], k[#[trigger] r@[a] as int], by_name, desc),
            decreases r@.len() - p,
        {
            p = p + 1;
        }
        let ghost old_r = r@;
        proof {
            assert forall|j: int| p <= j < old_r.len() implies listed_before(
                k[i as int],
                k[#[trigger] old_r[j] as int],
                by_name,
                desc,
            ) by {
                if j > p {
                    lemma_listed_order(k[i as int], k[old_r[p as int] as int], k[old_r[j] as int], by_name, desc);
                }
            }
        }
        r.insert(p, i);
        proof {
            let n = r@;
            assert(n =~= old_r.insert(p as int, i));
            assert forall|a: int, b: int| 0 <= a < b < n.len() implies !listed_before(
                k[n[b] as int],
                k[n[a] as int],
                by_name,
                desc,
            ) by {
                if a < p && b == p {
                } else if a == p && b > p {
                    lemma_listed_order(k[i as int], k[old_r[b - 1] as int], k[i as int], by_name, desc);
                } else if b < p {
                    assert(n[a] == old_r[a] && n[b] == old_r[b]);
                } else if a < p && b > p {
                    assert(n[a] == old_r[a] && n[b] == old_r[b - 1]);
                } else {
                    assert(n[a] == old_r[a - 1] && n[b] == old_r[b - 1]);
                }
            }
            assert forall|a: int, b: int|
                0 <= a < b < n.len() && !listed_before(k[n[a] as int], k[n[b] as int], by_name, desc) implies n[a]
                < n[b] by {
                if a < p && b == p {
                } else if a == p && b > p {
                } else if b < p {
                    assert(n[a] == old_r[a] && n[b] == old_r[b]);
                } else if a < p && b > p {
                    assert(n[a] == old_r[a] && n[b] == old_r[b - 1]);
                } else {
                    assert(n[a] == old_r[a - 1] && n[b] == old_r[b - 1]);
                }
            }
            assert forall|a: int, b: int| 0 <= a < n.len() && 0 <= b < n.len() && a != b implies n[a] != n[b] by {
                if a == p || b == p {
                } else {
                    let a2 = if a < p { a } else { a - 1 };
                    let b2 = if b < p { b } else { b - 1 };
                    assert(n[a] == old_r[a2] && n[b] == old_r[b2]);
                }
            }
        }
        i = i + 1;
    }
    r
}

/// Whether no two keys share an id (as the tracks of one library do).
pub open spec fn ids_distinct(k: Seq<TrackSortKey>) -> bool {
    forall|i: int, j: int| 0 <= i < k.len() && 0 <= j < k.len() && i != j ==> k[i].id != k[j].id
}

/// A list of `n` distinct positions below `n` names every position below `n`.
proof fn lemma_positions_cover(r: Seq<usize>, n: nat)
    requires
        r.len() == n,
        r.no_duplicates(),
        forall|i: int| 0 <= i < r.len() ==> #[trigger] r[i] < n,
    ensures
        forall|m: usize| m < n ==> #[trigger] r.contains(m),
{
    let s = r.map_values(|x: usize| x as int);
    assert(s.no_duplicates()) by {
        assert forall|i: int, j: int| 0 <= i < s.len() && 0 <= j < s.len() && i != j implies s[i] != s[j] by {
            assert(r[i] != r[j]);
        }
    }
    s.unique_seq_to_set();
    vstd::set_lib::lemma_int_range(0, n as int);
    let all = vstd::set_lib::set_int_range(0, n as int);
    assert(s.to_set().subset_of(all)) by {
        assert forall|m: int| s.to_set().contains(m) implies all.contains(m) by {
            let i = choose|i: int| 0 <= i < s.len() && s[i] == m;
            assert(r[i] < n);
        }
    }
    vstd::set_lib::lemma_subset_equality(s.to_set(), all);
    assert forall|m: usize| m < n implies #[trigger] r.contains(m) by {
        assert(all.contains(m as int));
        assert(s.to_set().contains(m as int));
        let i = choose|i: int| 0 <= i < s.len() && s[i] == m as int;
        assert(r[i] == m);
    }
}

/// Along a listing of keys with distinct ids, each key is listed strictly
/// before every later one.
proof fn lemma_listing_strict(r: Seq<usize>, k: Seq<TrackSortKey>, by_name: bool, desc: bool)
    requires
        listing_order(r, k, by_name, desc),
        ids_distinct(k),
    ensures
        forall|i: int, j: int|
            0 <= i < r.len() && 0 <= j < r.len() ==> (#[trigger] listed_before(
                k[r[i] as int],
                k[r[j] as int],
                by_name,
                desc,
            ) <==> i < j),
{
    assert forall|i: int, j: int| 0 <= i < r.len() && 0 <= j < r.len() implies (#[trigger] listed_before(
        k[r[i] as int],
        k[r[j] as int],
        by_name,
        desc,
    ) <==> i < j) by {
        let a = k[r[i] as int];
        let b = k[r[j] as int];
        lemma_key_order(a, b, a, by_name);
        lemma_listed_order(a, b, a, by_name, desc);
        if i < j {
            assert(r[i] != r[j]);
            assert(a.id != b.id);
            assert(!listed_before(b, a, by_name, desc));
        } else if i > j {
            assert(!listed_before(a, b, by_name, desc));
        }
    }
}

proof fn lemma_listings_agree_from(
    r1: Seq<usize>,
    r2: Seq<usize>,
    k: Seq<TrackSortKey>,
    by_name: bool,
    desc: bool,
    i: int,
)
    requires
        listing_order(r1, k, by_name, desc),
        listing_order(r2, k, by_name, desc),
        ids_distinct(k),
        0 <= i <= r1.len(),
        forall|a: int| 0 <= a < i ==> r1[a] == r2[a],
    ensures
        forall|a: int| 0 <= a < r1.len() ==> r1[a] == r2[a],
    decreases r1.len() - i,
{
    if i < r1.len() {
        let x = r1[i];
        let y = r2[i];
        if x != y {
            lemma_listing_strict(r1, k, by_name, desc);
            lemma_listing_strict(r2, k, by_name, desc);
            lemma_positions_cover(r1, k.len());
            lemma_positions_cover(r2, k.len());
            assert(r1[i] < k.len() && r2[i] < k.len());
            assert(r2.contains(x) && r1.contains(y));
            let j = choose|j: int| 0 <= j < r2.len() && r2[j] == x;
            let l = choose|l: int| 0 <= l < r1.len() && r1[l] == y;
            if j < i {
                assert(r1[j] == r2[j]);
            }
            if l < i {
                assert(r1[l] == r2[l]);
            }
            assert(j > i && l > i);
            assert(listed_before(k[r2[i] as int], k[r2[j] as int], by_name, desc));
            assert(listed_before(k[r1[i] as int], k[r1[l] as int], by_name, desc));
            lemma_listed_order(k[x as int], k[y as int], k[x as int], by_name, desc);
        }
        lemma_listings_agree_from(r1, r2, k, by_name, desc, i + 1);
    }
}

/// Keys with distinct ids have exactly one listing in each order.
pub proof fn lemma_listing_unique(
    r1: Seq<usize>,
    r2: Seq<usize>,
    k: Seq<TrackSortKey>,
    by_name: bool,
    desc: bool,
)
    requires
        listing_order(r1, k, by_name, desc),
        listing_order(r2, k, by_name, desc),
        ids_distinct(k),
    ensures
        r1 == r2,
{
    lemma_listings_agree_from(r1, r2, k, by_name, desc, 0);
    assert(r1 =~= r2);
}

/// Turning a listing of keys with distinct ids around gives their listing
/// in the other order.
pub proof fn lemma_listing_reversed(r: Seq<usize>, k: Seq<TrackSortKey>, by_name: bool, desc: bool)
    requires
        listing_order(r, k, by_name, desc),
        ids_distinct(k),
    ensures
        listing_order(r.reverse(), k, by_name, !desc),
{
    lemma_listing_strict(r, k, by_name, desc);
    let n = r.len() as int;
    let v = r.reverse();
    assert(v.len() == n);
    assert forall|i: int| 0 <= i < n implies #[trigger] v[i] == r[n - 1 - i] by {}
    assert forall|i: int, j: int| 0 <= i < v.len() && 0 <= j < v.len() && i != j implies v[i] != v[j] by {
        assert(v[i] == r[n - 1 - i] && v[j] == r[n - 1 - j]);
    }
    assert forall|i: int| 0 <= i < v.len() implies #[trigger] v[i] < k.len() by {
        assert(v[i] == r[n - 1 - i]);
    }
    assert forall|i: int, j: int| 0 <= i < j < v.len() implies listed_before(
        k[v[i] as int],
        k[v[j] as int],
        by_name,
        !desc,
    ) by {
        assert(v[i] == r[n - 1 - i] && v[j] == r[n - 1 - j]);
        assert(listed_before(k[r[n - 1 - j] as int], k[r[n - 1 - i] as int], by_name, desc));
    }
    assert forall|i: int, j: int| 0 <= i < j < v.len() implies !listed_before(
        k[v[j] as int],
        k[v[i] as int],
        by_name,
        !desc,
    ) by {
        assert(listed_before(k[v[i] as int], k[v[j] as int], by_name, !desc));
        lemma_listed_order(k[v[i] as int], k[v[j] as int], k[v[i] as int], by_name, !desc);
    }
}

/// For tracks with distinct ids, listing in one order gives exactly the
/// reverse of listing in the other (ascending is descending turned around).
pub proof fn lemma_ascending_reverses_descending(
    r_desc: Seq<usize>,
    r_asc: Seq<usize>,
    k: Seq<TrackSortKey>,
    by_name: bool,
)
    requires
        listing_order(r_desc, k, by_name, true),
        listing_order(r_asc, k, by_name, false),
        ids_distinct(k),
    ensures
        r_asc == r_desc.reverse(),
{
    lemma_listing_reversed(r_desc, k, by_name, true);
    lemma_listing_unique(r_desc.reverse(), r_asc, k, by_name, false);
}

/// In the default listing (by date, `desc`), tracks come oldest first, and
/// tracks made at the same time by descending id.
pub proof fn lemma_default_listing_oldest_first(r: Seq<usize>, k: Seq<TrackSortKey>)
    requires
        listing_order(r, k, false, true),
    ensures
        forall|i: int, j: int|
            0 <= i < j < r.len() ==> k[r[i] as int].created_at <= k[r[j] as int].created_at,
        forall|i: int, j: int|
            0 <= i < j < r.len() && k[r[i] as int].created_at == k[r[j] as int].created_at ==> k[r[i] as int].id
                >= k[r[j] as int].id,
{
    assert forall|i: int, j: int| 0 <= i < j < r.len() implies k[r[i] as int].created_at <= k[r[j] as int].created_at
        && (k[r[i] as int].created_at == k[r[j] as int].created_at ==> k[r[i] as int].id >= k[r[j] as int].id) by {
        assert(!listed_before(k[r[j] as int], k[r[i] as int], false, true));
    }
}

/// Whether a listing request sorts by name.
pub open spec fn sorts_by_name(q: TracksQuery) -> bool {
    q.sort matches Some(s) && s@ == "name"@
}

/// Whether a listing request reverses the order: yes unless it names
/// another order than `desc`.
pub open spec fn reversed(q: TracksQuery) -> bool {
    match q.order {
        Some(o) => o@ == "desc"@,
        None => true,
    }
}

fn is_text(o: &Option<String>, t: &str, default: bool) -> (r: bool)
    ensures
        r == match o {
            Some(s) => s@ == t@,
            None => default,
        },
{
    match o {
        Some(s) => crate::text::same_text(s.as_str(), t),
        None => default,
    }
}

/// The positions of the tracks with the keys `keys`, in the order the
/// listing request `q` asks for, cut to its limit.
pub fn list_order(keys: &Vec<TrackSortKey>, q: &TracksQuery) -> (r: Vec<usize>)
    ensures
        exists|all: Seq<usize>|
            listing_order(all, keys@, sorts_by_name(*q), reversed(*q)) && r@ == match q.limit {
                Some(l) => if l < all.len() {
                    all.take(l as int)
                } else {
                    all
                },
                None => all,
            },
{
    let by_name = is_text(&q.sort, "name", false);
    let desc = is_text(&q.order, "desc", true);
    let mut all = sort_positions(keys, by_name, desc);
    let ghost full = all@;
    match q.limit {
        Some(l) => {
            all.truncate(l);
        },
        None => {},
    }
    proof {
        assert(listing_order(full, keys@, sorts_by_name(*q), reversed(*q)));
    }
    all
}

// ---------------------------------------------------------------------------
// Deletions
// ---------------------------------------------------------------------------

/// What the deletion of one track came to.
#[derive(Debug)]
pub enum RemoveOutcome {
    /// The track was deleted.
    Removed,
    /// No track has that id.
    NotFound,
    /// Deleting its file failed, for this reason.
    Failed(String),
}

/// The answer to the deletion of the track `id`: nothing on success, a not
/// found error (code `TrackNotFound`) when there is no such track, an
/// internal error (code `IoError`) when its file could not be deleted.
pub fn remove_track_answer(id: i64, outcome: RemoveOutcome) -> (r: Result<(), ApiError>)
    ensures
        outcome is Removed ==> r is Ok,
        outcome is NotFound ==> (r matches Err(e) && e.status == STATUS_NOT_FOUND && e.code
            == ErrorCode::TrackNotFound && e.message@ == "Track with ID "@ + signed_decimal(id as int)
            + " not found"@),
        outcome matches RemoveOutcome::Failed(m) ==> (r matches Err(e) && e.status
            == STATUS_INTERNAL_SERVER_ERROR && e.code == ErrorCode::IoError && e.message@
            == "Failed to delete file: "@ + m@),
{
    match outcome {
        RemoveOutcome::Removed => Ok(()),
        RemoveOutcome::NotFound => Err(track_not_found(id)),
        RemoveOutcome::Failed(reason) => {
            let mut m = string_from("Failed to delete file: ");
            push_seq(&mut m, reason.as_str());
            Err(ApiError::internal(m).with_code(ErrorCode::IoError))
        },
    }
}

/// The answer about a track id that is not in the library: not found
/// (code `TrackNotFound`).
pub fn track_not_found(id: i64) -> (r: ApiError)
    ensures
        r.status == STATUS_NOT_FOUND,
        r.code == ErrorCode::TrackNotFound,
        r.message@ == "Track with ID "@ + signed_decimal(id as int) + " not found"@,
{
    let mut m = string_from("Track with ID ");
    push_signed(&mut m, id);
    push_seq(&mut m, " not found");
    ApiError::not_found(m).with_code(ErrorCode::TrackNotFound)
}

/// The answer about a track whose file is gone: not found (code
/// `FileNotFound`), naming the file as `path` (its quoted form).
pub fn file_not_found(path: &str) -> (r: ApiError)
    ensures
        r.status == STATUS_NOT_FOUND,
        r.code == ErrorCode::FileNotFound,
        r.message@ == "File not found: "@ + path@,
{
    let mut m = string_from("File not found: ");
    push_seq(&mut m, path);
    ApiError::not_found(m).with_code(ErrorCode::FileNotFound)
}

/// The answer to a file that could not be streamed: an internal error (code
/// `IoError`).
pub fn stream_failed(reason: &str) -> (r: ApiError)
    ensures
        r.status == STATUS_INTERNAL_SERVER_ERROR,
        r.code == ErrorCode::IoError,
        r.message@ == "Failed to stream file: "@ + reason@,
{
    let mut m = string_from("Failed to stream file: ");
    push_seq(&mut m, reason);
    ApiError::internal(m).with_code(ErrorCode::IoError)
}

/// The answer to a failed batch deletion: an internal error (code
/// `IoError`).
pub fn remove_tracks_failed(reason: &str) -> (r: ApiError)
    ensures
        r.status == STATUS_INTERNAL_SERVER_ERROR,
        r.code == ErrorCode::IoError,
        r.message@ == "Failed to delete tracks: "@ + reason@,
{
    let mut m = string_from("Failed to delete tracks: ");
    push_seq(&mut m, reason);
    ApiError::internal(m).with_code(ErrorCode::IoError)
}

/// The decimal notation of `n`, with a minus sign when negative.
pub open spec fn signed_decimal(n: int) -> Seq<char> {
    if n < 0 {
        seq!['-'] + decimal((-n) as nat)
    } else {
        decimal(n as nat)
    }
}

/// Appends the decimal notation of `n` to `s`.
fn push_signed(s: &mut String, n: i64)
    ensures
        final(s)@ == old(s)@ + signed_decimal(n as int),
{
    if n < 0 {
        crate::text::push_char(s, '-');
        let m: u64 = if n == i64::MIN {
            9223372036854775808u64
        } else {
            (-n) as u64
        };
        push_decimal(s, m);
        assert(s@ =~= old(s)@ + signed_decimal(n as int));
    } else {
        push_decimal(s, n as u64);
    }
}

} // verus!
