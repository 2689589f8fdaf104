//! Track search across YouTube and SoundCloud: the query's reading, the
//! duration filter, and the merge of what the providers found into one
//! answer.
//!
//! Asking the providers is the caller's part; it hands the hits back as
//! `YoutubeHit` and `SoundcloudHit` values.
use crate::api::errors::{ApiError, ErrorCode};
use crate::api::download_manager::types::copy_opt_string;
use crate::text::{push_seq, string_from, trim, trimmed};
use vstd::prelude::*;

verus! {

broadcast use vstd::seq_lib::group_seq_properties;

/// The provider a search asks.
#[derive(Clone, Copy, Debug, PartialEq, Eq, Structural)]
pub enum SearchProviderParam {
    Youtube,
    Soundcloud,
}

/// The length of the videos a YouTube search keeps.
#[derive(Clone, Copy, Debug, PartialEq, Eq, Structural)]
pub enum SearchDurationFilter {
    Any,
    Short,
    Medium,
    Long,
    Epic,
}

/// The parameters of a search request.
#[derive(Debug)]
pub struct SearchQuery {
    pub query: String,
    pub limit: Option<i32>,
    pub offset: Option<i32>,
    pub provider: Option<SearchProviderParam>,
    pub duration: Option<SearchDurationFilter>,
}

/// A track found by a search.
#[derive(Clone, Debug)]
pub struct SearchTrackItem {
    pub id: i64,
    pub title: String,
    pub artist: String,
    pub artwork_url: Option<String>,
    /// The length in milliseconds.
    pub duration: Option<i64>,
    pub playback_count: Option<i64>,
    pub permalink_url: Option<String>,
    pub genre: Option<String>,
}

/// The answer to a search: the tracks found, and whether more can be had.
#[derive(Debug)]
pub struct SearchResponse {
    pub tracks: Vec<SearchTrackItem>,
    pub has_more: bool,
}

/// How a search is carried out, as read from its request.
#[derive(Debug)]
pub struct SearchPlan {
    /// The query without surrounding whitespace (never empty).
    pub query: String,
    /// The most YouTube results to keep (20 when not given).
    pub limit: usize,
    /// Where the results start (0 when not given).
    pub offset: usize,
    /// Whether YouTube is asked.
    pub youtube: bool,
    /// Whether SoundCloud is asked.
    pub soundcloud: bool,
    /// The length of the videos kept.
    pub duration: SearchDurationFilter,
    /// Whether a query that is itself a video link is looked up directly
    /// (only on the first page).
    pub direct_lookup: bool,
    /// Whether the page token saved by the previous page is used.
    pub use_continuation: bool,
}

/// The number of YouTube results kept when the request names none.
pub const DEFAULT_LIMIT: i32 = 20;

/// The plan of the search `params`: refused with a bad request (code
/// `EmptyUrl`) when the query is only whitespace.
pub fn plan_search(params: &SearchQuery) -> (r: Result<SearchPlan, ApiError>)
    ensures
        (r is Err) == (trim(params.query@).len() == 0),
        r matches Err(e) ==> e.status == crate::api::errors::STATUS_BAD_REQUEST && e.code
            == ErrorCode::EmptyUrl && e.message@ == "Search query cannot be empty"@,
        r matches Ok(p) ==> {
            let provider = match params.provider {
                Some(v) => v,
                None => SearchProviderParam::Soundcloud,
            };
            let limit: i32 = match params.limit {
                Some(l) => l,
                None => DEFAULT_LIMIT,
            };
            let offset: i32 = match params.offset {
                Some(o) => o,
                None => 0,
            };
            &&& p.query@ == trim(params.query@)
            &&& p.limit == limit as usize
            &&& p.offset == offset as usize
            &&& p.youtube == (provider == SearchProviderParam::Youtube)
            &&& p.soundcloud == (provider == SearchProviderParam::Soundcloud)
            &&& p.duration == match params.duration {
                Some(d) => d,
                None => SearchDurationFilter::Any,
            }
            &&& p.direct_lookup == (p.offset == 0)
            &&& p.use_continuation == (p.offset > 0)
        },
{
    let query = trimmed(params.query.as_str());
    if query.unicode_len() == 0 {
        let e = ApiError::bad_request(string_from("Search query cannot be empty"));
        return Err(e.with_code(ErrorCode::EmptyUrl));
    }
    let limit: i32 = match params.limit {
        Some(l) => l,
        None => DEFAULT_LIMIT,
    };
    let offset: i32 = match params.offset {
        Some(o) => o,
        None => 0,
    };
    let limit = limit as usize;
    let offset = offset as usize;
    let provider = match params.provider {
        Some(v) => v,
        None => SearchProviderParam::Soundcloud,
    };
    let duration = match params.duration {
        Some(d) => d,
        None => SearchDurationFilter::Any,
    };
    Ok(
        SearchPlan {
            query,
            limit,
            offset,
            youtube: provider == SearchProviderParam::Youtube,
            soundcloud: provider == SearchProviderParam::Soundcloud,
            duration,
            direct_lookup: offset == 0,
            use_continuation: offset > 0,
        },
    )
}

// ---------------------------------------------------------------------------
// The duration filter
// ---------------------------------------------------------------------------

/// Whether a video of `seconds` seconds passes `filter`: short is under two
/// minutes, medium two to ten minutes, long ten to thirty minutes, epic
/// longer.
pub open spec fn matches_duration_spec(filter: SearchDurationFilter, seconds: u64) -> bool {
    match filter {
        SearchDurationFilter::Short => seconds < 120,
        SearchDurationFilter::Medium => 120 <= seconds && seconds <= 600,
        SearchDurationFilter::Long => 600 < seconds && seconds <= 1800,
        SearchDurationFilter::Epic => seconds > 1800,
        SearchDurationFilter::Any => true,
    }
}

/// Whether a video of `seconds` seconds passes `filter`.
pub fn matches_duration(filter: SearchDurationFilter, seconds: u64) -> (r: bool)
    ensures
        r == matches_duration_spec(filter, seconds),
{
    match filter {
        SearchDurationFilter::Short => seconds < 120,
        SearchDurationFilter::Medium => seconds >= 120 && seconds <= 600,
        SearchDurationFilter::Long => seconds > 600 && seconds <= 1800,
        SearchDurationFilter::Epic => seconds > 1800,
        SearchDurationFilter::Any => true,
    }
}

// ---------------------------------------------------------------------------
// YouTube results
// ---------------------------------------------------------------------------

/// A video found on YouTube, with the track id derived from its video id
/// and the artist and title read from its title and channel.
#[derive(Clone, Debug)]
pub struct YoutubeHit {
    pub id: i64,
    pub video_id: String,
    pub artist: String,
    pub title: String,
    pub thumbnail_url: Option<String>,
    pub duration_seconds: u64,
    pub view_count: u64,
}

/// The address of the watch page of a video.
pub open spec fn watch_url(video_id: Seq<char>) -> Seq<char> {
    "https://www.youtube.com/watch?v="@ + video_id
}

/// The watch page of the video `video_id`.
pub fn youtube_watch_url(video_id: &str) -> (r: String)
    ensures
        r@ == watch_url(video_id@),
{
    let mut r = string_from("https://www.youtube.com/watch?v=");
    push_seq(&mut r, video_id);
    r
}

/// Whether `item` shows the video `hit`: its id, artist, title and
/// thumbnail, its length in milliseconds, its view count, and its watch page
/// as link; no genre.
pub open spec fn shows_video(item: SearchTrackItem, hit: YoutubeHit) -> bool {
    &&& item.id == hit.id
    &&& item.title == hit.title
    &&& item.artist == hit.artist
    &&& item.artwork_url == hit.thumbnail_url
    &&& item.duration == Some((hit.duration_seconds * 1000) as i64)
    &&& item.playback_count == Some(hit.view_count as i64)
    &&& item.permalink_url matches Some(u) && u@ == watch_url(hit.video_id@)
    &&& item.genre is None
}

/// Whether a hit's length in milliseconds fits in a `u64`.
pub open spec fn duration_fits(hit: YoutubeHit) -> bool {
    hit.duration_seconds * 1000 <= u64::MAX
}

/// The search result showing the video `hit`.
pub fn youtube_meta_to_item(hit: &YoutubeHit) -> (r: SearchTrackItem)
    requires
        duration_fits(*hit),
    ensures
        shows_video(r, *hit),
{
    let millis = hit.duration_seconds * 1000;
    SearchTrackItem {
        id: hit.id,
        title: hit.title.clone(),
        artist: hit.artist.clone(),
        artwork_url: copy_opt_string(&hit.thumbnail_url),
        duration: Some(millis as i64),
        playback_count: Some(hit.view_count as i64),
        permalink_url: Some(youtube_watch_url(hit.video_id.as_str())),
        genre: None,
    }
}

/// Whether `hit` passes `filter`.
pub open spec fn passes(filter: SearchDurationFilter) -> spec_fn(YoutubeHit) -> bool {
    |h: YoutubeHit| matches_duration_spec(filter, h.duration_seconds)
}

/// The videos kept of `hits`: those that pass `filter`, in order, at most
/// `limit` of them.
pub open spec fn kept_videos(
    hits: Seq<YoutubeHit>,
    filter: SearchDurationFilter,
    limit: usize,
) -> Seq<YoutubeHit> {
    let m = hits.filter(passes(filter));
    if m.len() <= limit {
        m
    } else {
        m.take(limit as int)
    }
}

proof fn lemma_filter_step(hits: Seq<YoutubeHit>, f: spec_fn(YoutubeHit) -> bool, i: int)
    requires
        0 <= i < hits.len(),
    ensures
        hits.take(i + 1).filter(f) == if f(hits[i]) {
            hits.take(i).filter(f).push(hits[i])
        } else {
            hits.take(i).filter(f)
        },
{
    reveal(Seq::filter);
    assert(hits.take(i + 1).drop_last() =~= hits.take(i));
    assert(hits.take(i + 1).last() == hits[i]);
}

proof fn lemma_filter_prefix(hits: Seq<YoutubeHit>, f: spec_fn(YoutubeHit) -> bool, i: int)
    requires
        0 <= i <= hits.len(),
    ensures
        hits.filter(f) == hits.take(i).filter(f) + hits.skip(i).filter(f),
{
    assert(hits =~= hits.take(i) + hits.skip(i));
    Seq::filter_distributes_over_add(hits.take(i), hits.skip(i), f);
}

/// Every hit's length in milliseconds fits in a `u64`.
pub open spec fn durations_fit(hits: Seq<YoutubeHit>) -> bool {
    forall|i: int| 0 <= i < hits.len() ==> duration_fits(#[trigger] hits[i])
}

/// The YouTube part of a search answer: the videos of `hits` that pass
/// `filter`, in order, at most `limit` of them (none when the limit is
/// 0). Returns the results and, for each, the pair of track id and video id
/// to remember.
pub fn youtube_results(hits: &Vec<YoutubeHit>, filter: SearchDurationFilter, limit: usize) -> (r: (
    Vec<SearchTrackItem>,
    Vec<(i64, String)>,
))
    requires
        durations_fit(hits@),
    ensures
        r.0@.len() == kept_videos(hits@, filter, limit).len(),
        r.1@.len() == r.0@.len(),
        forall|i: int|
            0 <= i < r.0@.len() ==> shows_video(#[trigger] r.0@[i], kept_videos(hits@, filter, limit)[i]),
        forall|i: int|
            0 <= i < r.1@.len() ==> (#[trigger] r.1@[i]).0 == kept_videos(hits@, filter, limit)[i].id
                && r.1@[i].1 == kept_videos(hits@, filter, limit)[i].video_id,
{
    let ghost f = passes(filter);
    let ghost m = hits@.filter(f);
    let mut items: Vec<SearchTrackItem> = Vec::new();
    let mut ids: Vec<(i64, String)> = Vec::new();
    if limit == 0 {
        proof {
            assert(m.take(0) =~= Seq::<YoutubeHit>::empty());
        }
        return (items, ids);
    }
    let mut i: usize = 0;
    while i < hits.len()
        invariant
            f == passes(filter),
            m == hits@.filter(f),
            durations_fit(hits@),
            i <= hits@.len(),
            items@.len() == hits@.take(i as int).filter(f).len(),
            items@.len() < limit,
            ids@.len() == items@.len(),
            forall|k: int|
                0 <= k < items@.len() ==> shows_video(#[trigger] items@[k], hits@.take(i as int).filter(f)[k]),
            forall|k: int|
                0 <= k < ids@.len() ==> (#[trigger] ids@[k]).0 == hits@.take(i as int).filter(f)[k].id
                    && ids@[k].1 == hits@.take(i as int).filter(f)[k].video_id,
        decreases hits@.len() - i,
    {
        proof {
            lemma_filter_step(hits@, f, i as int);
        }
        let hit = &hits[i];
        if matches_duration(filter, hit.duration_seconds) {
            let item = youtube_meta_to_item(hit);
            items.push(item);
            ids.push((hit.id, hit.video_id.clone()));
            if items.len() >= limit {
                proof {
                    let t = hits@.take(i + 1).filter(f);
                    lemma_filter_prefix(hits@, f, i + 1);
                    assert(m.take(t.len() as int) =~= t);
                    assert(items@.len() == limit);
                }
                return (items, ids);
            }
        }
        i = i + 1;
    }
    proof {
        assert(hits@.take(i as int) =~= hits@);
    }
    (items, ids)
}

// ---------------------------------------------------------------------------
// SoundCloud results
// ---------------------------------------------------------------------------

/// A track found on SoundCloud, as its API describes it (the artwork link
/// already resized for the result list).
#[derive(Clone, Debug)]
pub struct SoundcloudHit {
    pub id: Option<i64>,
    pub title: Option<String>,
    pub username: Option<String>,
    pub artwork_url: Option<String>,
    pub duration: Option<i64>,
    pub playback_count: Option<i64>,
    pub permalink_url: Option<String>,
    pub genre: Option<String>,
}

/// Whether a SoundCloud hit has an id (those without are left out).
pub open spec fn has_id() -> spec_fn(SoundcloudHit) -> bool {
    |t: SoundcloudHit| t.id is Some
}

/// Whether `item` shows the SoundCloud track `hit`: its id, its title (empty
/// when it has none), its uploader ("Unknown" when it has none), and its
/// other fields as they are.
pub open spec fn shows_track(item: SearchTrackItem, hit: SoundcloudHit) -> bool {
    &&& hit.id == Some(item.id)
    &&& item.title@ == match hit.title {
        Some(t) => t@,
        None => Seq::<char>::empty(),
    }
    &&& item.artist@ == match hit.username {
        Some(u) => u@,
        None => "Unknown"@,
    }
    &&& item.artwork_url == hit.artwork_url
    &&& item.duration == hit.duration
    &&& item.playback_count == hit.playback_count
    &&& item.permalink_url == hit.permalink_url
    &&& item.genre == hit.genre
}

/// The SoundCloud part of a search answer: every hit with an id, in order.
pub fn soundcloud_results(hits: &Vec<SoundcloudHit>) -> (r: Vec<SearchTrackItem>)
    ensures
        r@.len() == hits@.filter(has_id()).len(),
        forall|i: int| 0 <= i < r@.len() ==> shows_track(#[trigger] r@[i], hits@.filter(has_id())[i]),
{
    let ghost f = has_id();
    let mut items: Vec<SearchTrackItem> = Vec::new();
    let mut i: usize = 0;
    while i < hits.len()
        invariant
            f == has_id(),
            i <= hits@.len(),
            items@.len() == hits@.take(i as int).filter(f).len(),
            forall|k: int|
                0 <= k < items@.len() ==> shows_track(#[trigger] items@[k], hits@.take(i as int).filter(f)[k]),
        decreases hits@.len() - i,
    {
        proof {
            reveal(Seq::filter);
            assert(hits@.take(i + 1).drop_last() =~= hits@.take(i as int));
        }
        let hit = &hits[i];
        match hit.id {
            Some(id) => {
                let title = match &hit.title {
                    Some(t) => t.clone(),
                    None => String::new(),
                };
                let artist = match &hit.username {
                    Some(u) => u.clone(),
                    None => string_from("Unknown"),
                };
                items.push(
                    SearchTrackItem {
                        id,
                        title,
                        artist,
                        artwork_url: copy_opt_string(&hit.artwork_url),
                        duration: hit.duration,
                        playback_count: hit.playback_count,
                        permalink_url: copy_opt_string(&hit.permalink_url),
                        genre: copy_opt_string(&hit.genre),
                    },
                );
            },
            None => {},
        }
        i = i + 1;
    }
    proof {
        assert(hits@.take(hits@.len() as int) =~= hits@);
    }
    items
}

/// Whether more results can be had: SoundCloud's answer decides when it was
/// asked and answered, else YouTube's.
pub open spec fn more_spec(youtube: Option<bool>, soundcloud: Option<bool>) -> bool {
    match soundcloud {
        Some(m) => m,
        None => match youtube {
            Some(m) => m,
            None => false,
        },
    }
}

/// Whether more results can be had follows SoundCloud's answer whenever
/// SoundCloud was asked and answered, whatever YouTube answered, and
/// YouTube's otherwise (none when neither answered).
pub proof fn lemma_more_follows_soundcloud(youtube: Option<bool>, soundcloud: Option<bool>)
    ensures
        soundcloud matches Some(m) ==> more_spec(youtube, soundcloud) == m,
        soundcloud is None ==> more_spec(youtube, soundcloud) == (youtube matches Some(m) && m),
{
}

/// The answer to a search: the YouTube results (when YouTube answered, with
/// whether it has a next page) followed by the SoundCloud results (when
/// SoundCloud answered, with whether it has a next page). Also returns the
/// track and video ids of the YouTube results, to be remembered.
pub fn search_response(
    youtube: Option<(Vec<YoutubeHit>, bool)>,
    soundcloud: Option<(Vec<SoundcloudHit>, bool)>,
    filter: SearchDurationFilter,
    limit: usize,
) -> (r: (SearchResponse, Vec<(i64, String)>))
    requires
        youtube matches Some(y) ==> durations_fit(y.0@),
    ensures
        ({
            let yk = match youtube {
                Some(y) => kept_videos(y.0@, filter, limit),
                None => Seq::<YoutubeHit>::empty(),
            };
            let sk = match soundcloud {
                Some(s) => s.0@.filter(has_id()),
                None => Seq::<SoundcloudHit>::empty(),
            };
            &&& r.0.tracks@.len() == yk.len() + sk.len()
            &&& forall|i: int| 0 <= i < yk.len() ==> shows_video(#[trigger] r.0.tracks@[i], yk[i])
            &&& forall|i: int|
                0 <= i < sk.len() ==> shows_track(#[trigger] r.0.tracks@[yk.len() + i], sk[i])
            &&& r.1@.len() == yk.len()
            &&& forall|i: int| 0 <= i < yk.len() ==> (#[trigger] r.1@[i]).0 == yk[i].id && r.1@[i].1 == yk[i].video_id
        }),
        r.0.has_more == more_spec(
            match youtube {
                Some(y) => Some(y.1),
                None => None,
            },
            match soundcloud {
                Some(s) => Some(s.1),
                None => None,
            },
        ),
        soundcloud matches Some(s) ==> r.0.has_more == s.1,
        soundcloud is None ==> r.0.has_more == (youtube matches Some(y) && y.1),
{
    let mut tracks: Vec<SearchTrackItem> = Vec::new();
    let mut ids: Vec<(i64, String)> = Vec::new();
    let mut has_more = false;
    match youtube {
        Some((hits, more)) => {
            has_more = more;
            let (items, found) = youtube_results(&hits, filter, limit);
            tracks = items;
            ids = found;
        },
        None => {},
    }
    let ghost ylen = tracks@.len();
    let ghost before = tracks@;
    match soundcloud {
        Some((hits, more)) => {
            has_more = more;
            let mut items = soundcloud_results(&hits);
            tracks.append(&mut items);
            proof {
                assert forall|i: int| 0 <= i < ylen implies tracks@[i] == before[i] by {}
            }
        },
        None => {},
    }
    (SearchResponse { tracks, has_more }, ids)
}

/// The YouTube part of a search answer holds at most the limit of results
/// (none when the limit is 0), each of the asked length, in the order found.
pub proof fn lemma_youtube_results_bounded(hits: Seq<YoutubeHit>, filter: SearchDurationFilter, limit: usize)
    ensures
        kept_videos(hits, filter, limit).len() <= limit,
        forall|i: int|
            0 <= i < kept_videos(hits, filter, limit).len() ==> matches_duration_spec(
                filter,
                #[trigger] kept_videos(hits, filter, limit)[i].duration_seconds,
            ),
        kept_videos(hits, filter, limit) == hits.filter(passes(filter)).take(
            kept_videos(hits, filter, limit).len() as int,
        ),
{
    let m = hits.filter(passes(filter));
    let k = kept_videos(hits, filter, limit);
    assert forall|i: int| 0 <= i < k.len() implies matches_duration_spec(filter, #[trigger] k[i].duration_seconds) by {
        hits.lemma_filter_pred(passes(filter), i);
        assert(k[i] == m[i]);
    }
    if m.len() <= limit {
        assert(m.take(m.len() as int) =~= m);
    }
}

/// The stream request of a track: the link it was found under, if known.
#[derive(Clone, Debug)]
pub struct StreamQuery {
    pub url: Option<String>,
}

/// The answer to a stream request: the address the audio can be played
/// from.
#[derive(Debug)]
pub struct StreamUrlResponse {
    pub url: String,
}

} // verus!
