//! The server's in-memory caches: the YouTube video behind each search
//! result, the stream addresses found lately, and the page tokens of
//! YouTube searches.
//!
//! Times are readings of a monotonic clock in nanoseconds, taken by the caller.
use crate::api::stream::STREAM_CACHE_NANOS;
use crate::text::{to_lowercase, unicode_lowercase};
use std::collections::HashMap;
use vstd::hash_map::StringHashMap;
use vstd::prelude::*;

verus! {

broadcast use vstd::std_specs::hash::group_hash_axioms;

/// The caches.
pub struct AppCache {
    youtube_ids: HashMap<i64, String>,
    streams: HashMap<i64, (String, u64)>,
    search_continuations: StringHashMap<String>,
}

/// The time from `at` to `now` (none when `now` is earlier, as
/// `Instant::elapsed` saturates).
pub open spec fn elapsed(at: u64, now: u64) -> u64 {
    if now >= at {
        (now - at) as u64
    } else {
        0
    }
}

/// The stream address remembered for `id` at `now`: the one stored, when it
/// is younger than `STREAM_CACHE_NANOS`.
pub open spec fn fresh_stream(streams: Map<i64, (Seq<char>, u64)>, id: i64, now: u64) -> Option<Seq<char>> {
    if streams.contains_key(id) && elapsed(streams[id].1, now) < STREAM_CACHE_NANOS {
        Some(streams[id].0)
    } else {
        None
    }
}

impl AppCache {
    /// The video id behind each search result, by track id.
    pub closed spec fn youtube_ids(&self) -> Map<i64, Seq<char>> {
        self.youtube_ids@.map_values(|v: String| v@)
    }

    /// The stream addresses found, by track id, with the time each was found.
    pub closed spec fn streams(&self) -> Map<i64, (Seq<char>, u64)> {
        self.streams@.map_values(|e: (String, u64)| (e.0@, e.1))
    }

    /// The page token of the next page of each YouTube search, by query in
    /// lower case.
    pub closed spec fn continuations(&self) -> Map<Seq<char>, Seq<char>> {
        self.search_continuations@.map_values(|v: String| v@)
    }

    /// Empty caches.
    pub fn new() -> (r: Self)
        ensures
            r.youtube_ids() == Map::<i64, Seq<char>>::empty(),
            r.streams() == Map::<i64, (Seq<char>, u64)>::empty(),
            r.continuations() == Map::<Seq<char>, Seq<char>>::empty(),
    {
        let r = AppCache {
            youtube_ids: HashMap::new(),
            streams: HashMap::new(),
            search_continuations: StringHashMap::new(),
        };
        assert(r.youtube_ids() =~= Map::<i64, Seq<char>>::empty());
        assert(r.streams() =~= Map::<i64, (Seq<char>, u64)>::empty());
        assert(r.continuations() =~= Map::<Seq<char>, Seq<char>>::empty());
        r
    }

    /// The video id behind the search result `id`.
    pub fn get_youtube_id(&self, id: i64) -> (r: Option<String>)
        ensures
            match r {
                Some(v) => self.youtube_ids().contains_key(id) && v@ == self.youtube_ids()[id],
                None => !self.youtube_ids().contains_key(id),
            },
    {
        match self.youtube_ids.get(&id) {
            Some(v) => Some(v.clone()),
            None => None,
        }
    }

    /// Remembers that the search result `id` is the video `vid`.
    pub fn insert_youtube_id(&mut self, id: i64, vid: String)
        ensures
            final(self).youtube_ids() == old(self).youtube_ids().insert(id, vid@),
            final(self).streams() == old(self).streams(),
            final(self).continuations() == old(self).continuations(),
    {
        let ghost v = vid@;
        self.youtube_ids.insert(id, vid);
        assert(self.youtube_ids() =~= old(self).youtube_ids().insert(id, v));
    }

    /// The stream address of `id`, when one was found less than
    /// `STREAM_CACHE_NANOS` nanoseconds before `now`.
    pub fn get_stream(&self, id: i64, now: u64) -> (r: Option<String>)
        ensures
            match r {
                Some(u) => fresh_stream(self.streams(), id, now) == Some(u@),
                None => fresh_stream(self.streams(), id, now) is None,
            },
    {
        match self.streams.get(&id) {
            Some(entry) => {
                let age = if now >= entry.1 {
                    now - entry.1
                } else {
                    0
                };
                if age < STREAM_CACHE_NANOS {
                    Some(entry.0.clone())
                } else {
                    None
                }
            },
            None => None,
        }
    }

    /// Remembers `url` as the stream address of `id`, found at `now`.
    pub fn insert_stream(&mut self, id: i64, url: String, now: u64)
        ensures
            final(self).streams() == old(self).streams().insert(id, (url@, now)),
            final(self).youtube_ids() == old(self).youtube_ids(),
            final(self).continuations() == old(self).continuations(),
    {
        let ghost u = url@;
        self.streams.insert(id, (url, now));
        assert(self.streams() =~= old(self).streams().insert(id, (u, now)));
    }

    /// Forgets the stream address of `id`.
    pub fn remove_stream(&mut self, id: i64)
        ensures
            final(self).streams() == old(self).streams().remove(id),
            final(self).youtube_ids() == old(self).youtube_ids(),
            final(self).continuations() == old(self).continuations(),
    {
        self.streams.remove(&id);
        assert(self.streams() =~= old(self).streams().remove(id));
    }

    /// The page token saved for the search `query` (compared in lower
    /// case).
    pub fn get_continuation(&self, query: &str) -> (r: Option<String>)
        ensures
            match r {
                Some(t) => self.continuations().contains_key(unicode_lowercase(query@)) && t@
                    == self.continuations()[unicode_lowercase(query@)],
                None => !self.continuations().contains_key(unicode_lowercase(query@)),
            },
    {
        let key = to_lowercase(query);
        match self.search_continuations.get(key.as_str()) {
            Some(t) => Some(t.clone()),
            None => None,
        }
    }

    /// Saves the page token of the next page of the search `query` (its
    /// lower case), or forgets it when there is no next page.
    pub fn set_continuation(&mut self, query: &str, token: Option<String>)
        ensures
            final(self).continuations() == match token {
                Some(t) => old(self).continuations().insert(unicode_lowercase(query@), t@),
                None => old(self).continuations().remove(unicode_lowercase(query@)),
            },
            final(self).youtube_ids() == old(self).youtube_ids(),
            final(self).streams() == old(self).streams(),
    {
        let key = to_lowercase(query);
        match token {
            Some(t) => {
                let ghost tv = t@;
                self.search_continuations.insert(key, t);
                assert(self.continuations() =~= old(self).continuations().insert(unicode_lowercase(query@), tv));
            },
            None => {
                self.search_continuations.remove(key.as_str());
                assert(self.continuations() =~= old(self).continuations().remove(unicode_lowercase(query@)));
            },
        }
    }
}

/// Whether the HTTP client made for the proxy `cached` can serve requests
/// through the proxy `proxy`: only when both name the same proxy (or both
/// none).
pub fn client_reusable(cached: &Option<String>, proxy: &Option<String>) -> (r: bool)
    ensures
        r == match (cached, proxy) {
            (Some(a), Some(b)) => a@ == b@,
            (None, None) => true,
            _ => false,
        },
{
    match (cached, proxy) {
        (Some(a), Some(b)) => crate::text::same_text(a.as_str(), b.as_str()),
        (None, None) => true,
        _ => false,
    }
}

// ---------------------------------------------------------------------------
// Laws
// ---------------------------------------------------------------------------

/// A stream address stored at `at` is given back for lookups less than
/// three hours later, and not after.
pub proof fn lemma_stream_read_after_write(
    before: &AppCache,
    after: &AppCache,
    id: i64,
    url: Seq<char>,
    at: u64,
    now: u64,
)
    requires
        after.streams() == before.streams().insert(id, (url, at)),
    ensures
        fresh_stream(after.streams(), id, now) == if elapsed(at, now) < STREAM_CACHE_NANOS {
            Some(url)
        } else {
            None
        },
{
}

/// A saved page token is found again under any spelling of the query with
/// the same lower case, and a forgotten one is not.
pub proof fn lemma_continuation_read_after_write(
    before: &AppCache,
    after: &AppCache,
    saved: Seq<char>,
    asked: Seq<char>,
    token: Option<Seq<char>>,
)
    requires
        unicode_lowercase(saved) == unicode_lowercase(asked),
        after.continuations() == match token {
            Some(t) => before.continuations().insert(unicode_lowercase(saved), t),
            None => before.continuations().remove(unicode_lowercase(saved)),
        },
    ensures
        match token {
            Some(t) => after.continuations().contains_key(unicode_lowercase(asked))
                && after.continuations()[unicode_lowercase(asked)] == t,
            None => !after.continuations().contains_key(unicode_lowercase(asked)),
        },
{
}

} // verus!
