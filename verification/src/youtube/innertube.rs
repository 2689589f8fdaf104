//! Reading the answer of YouTube's player endpoint: the video's description
//! and its audio streams, best bitrate first.
//!
//! The request is the caller's part; it hands back the fields of the answer
//! that are read here (`RawVideoDetails`, `RawFormat`), each as the JSON gave
//! it (`None` where the field is missing or not of the expected JSON type).
use crate::text::{contains_text, has_infix, parse_u32, parse_u32_spec, parse_u64, parse_u64_spec, starts_with_text, string_from};
use crate::youtube::models::{
    stream_views, AudioStreamInfo, ExtractedMedia, StreamView, VideoMetadata, YoutubeAudioError,
};
use vstd::prelude::*;

verus! {

broadcast use vstd::seq_lib::group_seq_properties;

/// The `videoDetails` object of the answer.
#[derive(Clone, Debug)]
pub struct RawVideoDetails {
    pub title: Option<String>,
    pub author: Option<String>,
    /// `lengthSeconds`, a decimal string.
    pub length_seconds: Option<String>,
    /// `viewCount`, a decimal string.
    pub view_count: Option<String>,
    /// The `url` of each entry of `thumbnail.thumbnails` (`None` when that is
    /// not an array).
    pub thumbnails: Option<Vec<Option<String>>>,
    pub short_description: Option<String>,
}

/// One entry of `streamingData.adaptiveFormats`.
#[derive(Clone, Debug)]
pub struct RawFormat {
    pub mime_type: Option<String>,
    pub url: Option<String>,
    /// `bitrate`, when it is a non-negative integer.
    pub bitrate: Option<u64>,
    /// `audioSampleRate`, a decimal string.
    pub audio_sample_rate: Option<String>,
    /// `contentLength`, a decimal string.
    pub content_length: Option<String>,
}

/// A text, or `default` when there is none.
pub open spec fn text_or(o: Option<String>, default: Seq<char>) -> Seq<char> {
    match o {
        Some(s) => s@,
        None => default,
    }
}

/// A decimal text read as a `u64`, or 0 when there is none or it does not
/// read as one.
pub open spec fn count_or_zero(o: Option<String>) -> u64 {
    match o {
        Some(s) => match parse_u64_spec(s@) {
            Some(n) => n,
            None => 0,
        },
        None => 0,
    }
}

/// The thumbnail shown: the last one listed, when it has a link.
pub open spec fn last_thumbnail(t: Option<Vec<Option<String>>>) -> Option<String> {
    match t {
        Some(v) => if v@.len() > 0 {
            v@.last()
        } else {
            None
        },
        None => None,
    }
}

/// Whether `m` describes the video `video_id` with the details `d`: the
/// title and author default to "Unknown", the length and view count to 0.
pub open spec fn metadata_of(m: VideoMetadata, video_id: Seq<char>, d: RawVideoDetails) -> bool {
    &&& m.id@ == video_id
    &&& m.title@ == text_or(d.title, "Unknown"@)
    &&& m.author@ == text_or(d.author, "Unknown"@)
    &&& m.duration_seconds == count_or_zero(d.length_seconds)
    &&& m.view_count == count_or_zero(d.view_count)
    &&& m.thumbnail_url == last_thumbnail(d.thumbnails)
    &&& m.description == d.short_description
}

fn text_or_unknown(o: &Option<String>) -> (r: String)
    ensures
        r@ == text_or(*o, "Unknown"@),
{
    match o {
        Some(s) => s.clone(),
        None => string_from("Unknown"),
    }
}

fn read_count(o: &Option<String>) -> (r: u64)
    ensures
        r == count_or_zero(*o),
{
    match o {
        Some(s) => match parse_u64(s.as_str()) {
            Some(n) => n,
            None => 0,
        },
        None => 0,
    }
}

/// The description of the video `video_id` from its details.
pub fn video_metadata(video_id: String, d: &RawVideoDetails) -> (r: VideoMetadata)
    ensures
        metadata_of(r, video_id@, *d),
{
    let thumbnail_url = match &d.thumbnails {
        Some(v) => if v.len() > 0 {
            match &v[v.len() - 1] {
                Some(u) => Some(u.clone()),
                None => None,
            }
        } else {
            None
        },
        None => None,
    };
    VideoMetadata {
        id: video_id,
        title: text_or_unknown(&d.title),
        author: text_or_unknown(&d.author),
        duration_seconds: read_count(&d.length_seconds),
        view_count: read_count(&d.view_count),
        thumbnail_url,
        description: match &d.short_description {
            Some(s) => Some(s.clone()),
            None => None,
        },
    }
}

// ---------------------------------------------------------------------------
// Streams
// ---------------------------------------------------------------------------

/// The MIME type of a format (empty when it has none).
pub open spec fn mime_of(f: RawFormat) -> Seq<char> {
    text_or(f.mime_type, Seq::<char>::empty())
}

/// Whether a format is an audio stream with a direct link.
pub open spec fn is_audio_format() -> spec_fn(RawFormat) -> bool {
    |f: RawFormat| {
        let m = mime_of(f);
        &&& "audio/"@.len() <= m.len() && m.take("audio/"@.len() as int) == "audio/"@
        &&& f.url is Some
    }
}

/// The file kind of a stream with MIME type `m`.
pub open spec fn container_of(m: Seq<char>) -> Seq<char> {
    if has_infix(m, "webm"@) {
        "webm"@
    } else if has_infix(m, "mp4"@) {
        "m4a"@
    } else {
        "audio"@
    }
}

/// The codec of a stream with MIME type `m`.
pub open spec fn codec_of(m: Seq<char>) -> Seq<char> {
    if has_infix(m, "opus"@) {
        "opus"@
    } else if has_infix(m, "mp4a"@) {
        "aac"@
    } else {
        "unknown"@
    }
}

/// A decimal text read as a number, if it reads as one.
pub open spec fn read_u32(o: Option<String>) -> Option<u32> {
    match o {
        Some(s) => parse_u32_spec(s@),
        None => None,
    }
}

/// A decimal text read as a number, if it reads as one.
pub open spec fn read_u64(o: Option<String>) -> Option<u64> {
    match o {
        Some(s) => parse_u64_spec(s@),
        None => None,
    }
}

/// The stream an audio format describes (its bitrate cut to 32 bits, 0 when
/// missing).
pub open spec fn stream_of(f: RawFormat) -> StreamView {
    StreamView {
        url: text_or(f.url, Seq::<char>::empty()),
        mime_type: mime_of(f),
        bitrate: (match f.bitrate {
            Some(b) => b,
            None => 0,
        }) as u32,
        sample_rate: read_u32(f.audio_sample_rate),
        content_length: read_u64(f.content_length),
        container: container_of(mime_of(f)),
        audio_codec: codec_of(mime_of(f)),
    }
}

/// The audio streams of `formats`, in the order listed.
pub open spec fn listed_streams(formats: Seq<RawFormat>) -> Seq<StreamView> {
    formats.filter(is_audio_format()).map_values(|f: RawFormat| stream_of(f))
}

/// The stream an audio format with a link describes.
fn stream_info(f: &RawFormat, mime: &str) -> (r: AudioStreamInfo)
    requires
        is_audio_format()(*f),
        mime@ == mime_of(*f),
    ensures
        r@ == stream_of(*f),
{
    let container = if contains_text(mime, "webm") {
        string_from("webm")
    } else if contains_text(mime, "mp4") {
        string_from("m4a")
    } else {
        string_from("audio")
    };
    let audio_codec = if contains_text(mime, "opus") {
        string_from("opus")
    } else if contains_text(mime, "mp4a") {
        string_from("aac")
    } else {
        string_from("unknown")
    };
    let bitrate: u64 = match f.bitrate {
        Some(b) => b,
        None => 0,
    };
    let url = match &f.url {
        Some(u) => u.clone(),
        None => String::new(),
    };
    AudioStreamInfo {
        url,
        mime_type: string_from(mime),
        bitrate: bitrate as u32,
        sample_rate: match &f.audio_sample_rate {
            Some(s) => parse_u32(s.as_str()),
            None => None,
        },
        content_length: match &f.content_length {
            Some(s) => parse_u64(s.as_str()),
            None => None,
        },
        container,
        audio_codec,
    }
}

/// The audio streams with a direct link among `formats`, in the order
/// listed.
pub fn audio_streams(formats: &Vec<RawFormat>) -> (r: Vec<AudioStreamInfo>)
    ensures
        stream_views(r@) == listed_streams(formats@),
{
    let ghost p = is_audio_format();
    let mut r: Vec<AudioStreamInfo> = Vec::new();
    let mut i: usize = 0;
    while i < formats.len()
        invariant
            p == is_audio_format(),
            i <= formats@.len(),
            stream_views(r@) == listed_streams(formats@.take(i as int)),
        decreases formats@.len() - i,
    {
        proof {
            reveal(Seq::filter);
            assert(formats@.take(i + 1).drop_last() =~= formats@.take(i as int));
        }
        let f = &formats[i];
        let empty = String::new();
        let mime: &str = match &f.mime_type {
            Some(m) => m.as_str(),
            None => empty.as_str(),
        };
        if starts_with_text(mime, "audio/") && f.url.is_some() {
            let s = stream_info(f, mime);
            let ghost before = r@;
            r.push(s);
            proof {
                assert(stream_views(r@) =~= stream_views(before).push(s@));
                assert(listed_streams(formats@.take(i + 1)) =~= listed_streams(formats@.take(i as int)).push(
                    stream_of(*f),
                ));
            }
        } else {
            proof {
                assert(!p(*f));
            }
        }
        i = i + 1;
    }
    proof {
        assert(formats@.take(formats@.len() as int) =~= formats@);
    }
    r
}

// ---------------------------------------------------------------------------
// Ordering by bitrate
// ---------------------------------------------------------------------------

/// Whether the streams go from the highest bitrate to the lowest.
pub open spec fn by_bitrate_desc(s: Seq<StreamView>) -> bool {
    forall|i: int, j: int| 0 <= i < j < s.len() ==> s[i].bitrate >= s[j].bitrate
}

/// The streams of bitrate `k`.
pub open spec fn with_rate(k: u32) -> spec_fn(StreamView) -> bool {
    |v: StreamView| v.bitrate == k
}

/// Whether `r` is `s` sorted by descending bitrate, keeping the order of
/// streams of equal bitrate (what a stable sort gives).
pub open spec fn stable_sorted(r: Seq<StreamView>, s: Seq<StreamView>) -> bool {
    &&& by_bitrate_desc(r)
    &&& forall|k: u32| #[trigger] r.filter(with_rate(k)) == s.filter(with_rate(k))
}

proof fn lemma_filter_none(q: Seq<StreamView>, f: spec_fn(StreamView) -> bool)
    requires
        forall|i: int| 0 <= i < q.len() ==> !f(#[trigger] q[i]),
    ensures
        q.filter(f) == Seq::<StreamView>::empty(),
    decreases q.len(),
{
    reveal(Seq::filter);
    if q.len() > 0 {
        lemma_filter_none(q.drop_last(), f);
    }
}

proof fn lemma_insert_filter(q: Seq<StreamView>, p: int, x: StreamView, k: u32)
    requires
        0 <= p <= q.len(),
        forall|j: int| p <= j < q.len() ==> #[trigger] q[j].bitrate < x.bitrate,
    ensures
        q.insert(p, x).filter(with_rate(k)) == if x.bitrate == k {
            q.filter(with_rate(k)).push(x)
        } else {
            q.filter(with_rate(k))
        },
{
    let f = with_rate(k);
    let a = q.take(p);
    let b = q.skip(p);
    assert(q.insert(p, x) =~= a + seq![x] + b);
    assert(q =~= a + b);
    Seq::filter_distributes_over_add(a + seq![x], b, f);
    Seq::filter_distributes_over_add(a, seq![x], f);
    Seq::filter_distributes_over_add(a, b, f);
    reveal(Seq::filter);
    assert(seq![x].drop_last() =~= Seq::<StreamView>::empty());
    if x.bitrate == k {
        lemma_filter_none(b, f);
        assert(a.filter(f) + seq![x] =~= a.filter(f).push(x));
        assert(a.filter(f) + Seq::<StreamView>::empty() =~= a.filter(f));
    } else {
        assert(seq![x].filter(f) =~= Seq::<StreamView>::empty());
        assert(a.filter(f) + Seq::<StreamView>::empty() =~= a.filter(f));
    }
}

/// `streams` sorted by descending bitrate, streams of equal bitrate kept in
/// their order (as the stable `sort_by` does it).
pub fn sort_by_bitrate(streams: &Vec<AudioStreamInfo>) -> (r: Vec<AudioStreamInfo>)
    ensures
        stable_sorted(stream_views(r@), stream_views(streams@)),
{
    let ghost sv = stream_views(streams@);
    let mut r: Vec<AudioStreamInfo> = Vec::new();
    let mut i: usize = 0;
    while i < streams.len()
        invariant
            sv == stream_views(streams@),
            i <= streams@.len(),
            by_bitrate_desc(stream_views(r@)),
            forall|k: u32| #[trigger] stream_views(r@).filter(with_rate(k)) == sv.take(i as int).filter(with_rate(k)),
        decreases streams@.len() - i,
    {
        let x = streams[i].duplicate();
        let mut p: usize = 0;
        while p < r.len() && r[p].bitrate >= x.bitrate
            invariant
                p <= r@.len(),
                forall|j: int| 0 <= j < p ==> #[trigger] r@[j].bitrate >= x.bitrate,
            decreases r@.len() - p,
        {
            p = p + 1;
        }
        let ghost q = stream_views(r@);
        let ghost xv = x@;
        assert(xv == sv[i as int]);
        proof {
            assert forall|j: int| p <= j < q.len() implies #[trigger] q[j].bitrate < xv.bitrate by {
                assert(q[p as int].bitrate >= q[j].bitrate);
            }
        }
        r.insert(p, x);
        proof {
            assert(stream_views(r@) =~= q.insert(p as int, xv));
            assert(sv.take(i + 1) =~= sv.take(i as int).push(xv));
            assert forall|k: u32| #[trigger] stream_views(r@).filter(with_rate(k)) == sv.take(i + 1).filter(
                with_rate(k),
            ) by {
                lemma_insert_filter(q, p as int, xv, k);
                reveal(Seq::filter);
                assert(sv.take(i + 1).drop_last() =~= sv.take(i as int));
            }
            assert forall|a: int, b: int|
                0 <= a < b < stream_views(r@).len() implies stream_views(r@)[a].bitrate
                >= stream_views(r@)[b].bitrate by {
                let n = stream_views(r@);
                if b < p {
                } else if b == p {
                    assert(n[a] == q[a]);
                } else if a < p {
                    assert(n[b] == q[b - 1]);
                    assert(n[a] == q[a]);
                } else if a == p {
                    assert(n[b] == q[b - 1]);
                } else {
                    assert(n[a] == q[a - 1]);
                    assert(n[b] == q[b - 1]);
                }
            }
        }
        i = i + 1;
    }
    proof {
        assert(sv.take(streams@.len() as int) =~= sv);
    }
    r
}

// ---------------------------------------------------------------------------
// The whole answer
// ---------------------------------------------------------------------------

/// What the player endpoint's answer gives for the video `video_id`: an
/// error when it has no video details or no audio stream with a link, else
/// the description and the audio streams, highest bitrate first (those of
/// equal bitrate in the order listed).
pub fn innertube_media(
    video_id: String,
    details: Option<RawVideoDetails>,
    formats: Option<Vec<RawFormat>>,
) -> (r: Result<ExtractedMedia, YoutubeAudioError>)
    ensures
        details is None ==> (r matches Err(YoutubeAudioError::DownloadFailed(m)) && m@
            == "Missing videoDetails"@),
        details matches Some(d) ==> {
            let listed = match formats {
                Some(f) => listed_streams(f@),
                None => Seq::<StreamView>::empty(),
            };
            &&& listed.len() == 0 ==> (r matches Err(YoutubeAudioError::NoAudioStreamFound))
            &&& listed.len() > 0 ==> (r matches Ok(media) && metadata_of(media.metadata, video_id@, d)
                && stable_sorted(stream_views(media.streams@), listed))
        },
{
    let d = match details {
        Some(d) => d,
        None => {
            return Err(YoutubeAudioError::DownloadFailed(string_from("Missing videoDetails")));
        },
    };
    let metadata = video_metadata(video_id, &d);
    let listed = match &formats {
        Some(f) => audio_streams(f),
        None => Vec::new(),
    };
    let streams = sort_by_bitrate(&listed);
    if streams.len() == 0 {
        proof {
            if listed@.len() > 0 {
                let v = stream_views(listed@)[0];
                assert(stream_views(listed@).filter(with_rate(v.bitrate)).len() > 0) by {
                    assert(stream_views(listed@).filter(with_rate(v.bitrate)).contains(v)) by {
                        stream_views(listed@).lemma_filter_contains(with_rate(v.bitrate), 0);
                    }
                }
                assert(stream_views(streams@) =~= Seq::<StreamView>::empty());
                lemma_filter_none(stream_views(streams@), with_rate(v.bitrate));
            }
        }
        return Err(YoutubeAudioError::NoAudioStreamFound);
    }
    proof {
        if stream_views(listed@).len() == 0 {
            let v = stream_views(streams@)[0];
            stream_views(streams@).lemma_filter_contains(with_rate(v.bitrate), 0);
            assert(stream_views(listed@) =~= Seq::<StreamView>::empty());
            lemma_filter_none(stream_views(listed@), with_rate(v.bitrate));
        }
    }
    Ok(ExtractedMedia { metadata, streams })
}

} // verus!
