//! Finding the address a track's audio can be played from: which link is
//! tried, and what is done when a provider fails.
//!
//! The lookups and requests are the caller's part. It starts with
//! `resolve_begin`, carries out each action the steps give, and hands the
//! outcome to `resolve_next` until the answer is there; a found address is
//! remembered for `STREAM_CACHE_NANOS` nanoseconds (three hours).
use crate::api::errors::{ApiError, ErrorCode, STATUS_BAD_REQUEST};
use crate::api::search::{watch_url, youtube_watch_url};
use crate::text::{push_seq, string_from};
use crate::youtube::id::{extract_video_id, video_id_spec};
use vstd::prelude::*;

verus! {

/// How long a found stream address is reused, in nanoseconds (three hours).
pub const STREAM_CACHE_NANOS: u64 = 10_800_000_000_000;

/// Whether a stream address found `age_nanos` nanoseconds ago is reused.
pub fn cache_is_fresh(age_nanos: u64) -> (r: bool)
    ensures
        r == (age_nanos < STREAM_CACHE_NANOS),
{
    age_nanos < STREAM_CACHE_NANOS
}

/// The text of an optional string.
pub open spec fn opt_text(o: Option<String>) -> Option<Seq<char>> {
    match o {
        Some(s) => Some(s@),
        None => None,
    }
}

/// The link a track's audio is looked up by: the one given with the
/// request, else the watch page of the YouTube video it was found as, else
/// the source link stored with it in the library.
pub open spec fn target_spec(
    given: Option<Seq<char>>,
    youtube_video: Option<Seq<char>>,
    stored: Option<Seq<char>>,
) -> Option<Seq<char>> {
    match given {
        Some(u) => Some(u),
        None => match youtube_video {
            Some(v) => Some(watch_url(v)),
            None => stored,
        },
    }
}

/// The link a track's audio is looked up by (see `target_spec`).
pub fn pick_target_url(
    given: Option<String>,
    youtube_video: Option<&str>,
    stored: Option<String>,
) -> (r: Option<String>)
    ensures
        opt_text(r) == target_spec(
            opt_text(given),
            match youtube_video {
                Some(v) => Some(v@),
                None => None,
            },
            opt_text(stored),
        ),
{
    match given {
        Some(u) => Some(u),
        None => match youtube_video {
            Some(v) => Some(youtube_watch_url(v)),
            None => stored,
        },
    }
}

/// The text `url::Url::parse` gives back for `text` (its `as_str`, the
/// link in normal form), or `None` when `text` is not a link.
pub uninterp spec fn url_serialization(text: Seq<char>) -> Option<Seq<char>>;

/// Calls `url::Url::parse` on `text` and takes the parsed link's text. The
/// contract names the result; what the URL standard makes of a text is the
/// `url` crate's matter.
#[verifier::external_body]
fn parse_url(text: &str) -> (r: Option<String>)
    ensures
        opt_text(r) == url_serialization(text@),
{
    url::Url::parse(text).ok().map(|u| u.as_str().to_string())
}

/// The link to resolve, in the normal form the URL parser gives it, for the
/// caller to test whether it is a YouTube link; `None` when there is no
/// link or it does not parse.
pub fn parsed_link(target: Option<&str>) -> (r: Option<String>)
    ensures
        match target {
            Some(t) => opt_text(r) == url_serialization(t@),
            None => r is None,
        },
{
    match target {
        Some(t) => parse_url(t),
        None => None,
    }
}

/// The YouTube video a link leads to: the link must be a YouTube link
/// (`youtube_link`, as the caller found it) with a video id in it.
pub fn youtube_video_of(target: Option<&str>, youtube_link: bool) -> (r: Option<String>)
    ensures
        match target {
            Some(t) => if youtube_link && video_id_spec(t@) is Ok {
                r matches Some(id) && id@ == video_id_spec(t@)->Ok_0
            } else {
                r is None
            },
            None => r is None,
        },
{
    match target {
        Some(t) => if youtube_link {
            match extract_video_id(t) {
                Ok(id) => Some(id),
                Err(_) => None,
            }
        } else {
            None
        },
        None => None,
    }
}

/// Whether a failed lookup may be retried through the fallback proxies:
/// only when proxies are enabled and some are configured.
pub open spec fn proxies_allowed(use_proxy: bool, proxy_count: usize) -> bool {
    use_proxy && proxy_count > 0
}

/// Where a lookup stands.
#[derive(Debug)]
pub enum ResolveStage {
    /// YouTube was asked directly for the video.
    YoutubeDirect { video_id: String },
    /// The fallback proxies were raced for the video.
    YoutubeProxies,
    /// SoundCloud was asked directly for the track.
    SoundcloudDirect,
    /// The fallback proxies were raced for the SoundCloud track.
    SoundcloudProxies,
}

/// What the caller does next.
#[derive(Debug)]
pub enum ResolveAction {
    /// Ask YouTube for the stream of the video.
    AskYoutube { video_id: String },
    /// Race the fallback proxies for the stream of the video.
    RaceYoutubeProxies { video_id: String },
    /// Ask SoundCloud for the stream of the track.
    AskSoundcloud,
    /// Race the fallback proxies for the stream of the SoundCloud track.
    RaceSoundcloudProxies,
    /// Answer with this address (remembering it) or this error.
    Answer(Result<String, ApiError>),
}

/// The first step of a lookup that found no fresh address: YouTube when the
/// link leads to a video there, else SoundCloud.
pub fn resolve_begin(youtube_video: Option<String>) -> (r: (ResolveStage, ResolveAction))
    ensures
        match youtube_video {
            Some(v) => (r.0 matches ResolveStage::YoutubeDirect { video_id } && video_id == v)
                && (r.1 matches ResolveAction::AskYoutube { video_id } && video_id == v),
            None => r.0 is SoundcloudDirect && r.1 is AskSoundcloud,
        },
{
    match youtube_video {
        Some(v) => {
            let w = v.clone();
            (ResolveStage::YoutubeDirect { video_id: v }, ResolveAction::AskYoutube { video_id: w })
        },
        None => (ResolveStage::SoundcloudDirect, ResolveAction::AskSoundcloud),
    }
}

/// A bad request with the given code whose message is `prefix` followed by
/// `detail`.
fn failure(prefix: &str, detail: &str, code: ErrorCode) -> (r: ApiError)
    ensures
        r.status == STATUS_BAD_REQUEST,
        r.code == code,
        r.message@ == prefix@ + detail@,
{
    let mut m = string_from(prefix);
    push_seq(&mut m, detail);
    ApiError::bad_request(m).with_code(code)
}

/// Whether `a` answers with the error of status 400, code `code` and
/// message `m`.
pub open spec fn answers_error(a: ResolveAction, code: ErrorCode, m: Seq<char>) -> bool {
    a matches ResolveAction::Answer(Err(e)) && e.status == STATUS_BAD_REQUEST && e.code == code
        && e.message@ == m
}

/// The step after `stage` gave `outcome` (an address, or the failure's
/// message). A found address is the answer. A direct lookup that failed is
/// retried through the proxies when they are allowed, else it is answered
/// with an error; a race of the proxies that failed is answered with an
/// error. YouTube's errors have the code `NetworkError`, SoundCloud's
/// `SoundCloudError`.
pub fn resolve_next(
    stage: ResolveStage,
    use_proxy: bool,
    proxy_count: usize,
    outcome: Result<String, String>,
) -> (r: (Option<ResolveStage>, ResolveAction))
    ensures
        outcome matches Ok(u) ==> r.0 is None && (r.1 matches ResolveAction::Answer(Ok(a)) && a == u),
        outcome matches Err(e) ==> match stage {
            ResolveStage::YoutubeDirect { video_id } => if proxies_allowed(use_proxy, proxy_count) {
                r.0 matches Some(ResolveStage::YoutubeProxies) && (r.1 matches ResolveAction::RaceYoutubeProxies {
                    video_id: v,
                } && v == video_id)
            } else {
                r.0 is None && answers_error(
                    r.1,
                    ErrorCode::NetworkError,
                    "YouTube stream resolution failed: "@ + e@,
                )
            },
            ResolveStage::YoutubeProxies => r.0 is None && answers_error(
                r.1,
                ErrorCode::NetworkError,
                "YouTube stream resolution failed on all proxies: "@ + e@,
            ),
            ResolveStage::SoundcloudDirect => if proxies_allowed(use_proxy, proxy_count) {
                r.0 matches Some(ResolveStage::SoundcloudProxies) && r.1 is RaceSoundcloudProxies
            } else {
                r.0 is None && answers_error(
                    r.1,
                    ErrorCode::SoundCloudError,
                    "Direct resolution failed and no fallback proxies configured"@,
                )
            },
            ResolveStage::SoundcloudProxies => r.0 is None && answers_error(
                r.1,
                ErrorCode::SoundCloudError,
                "Proxy resolution failed: "@ + e@,
            ),
        },
{
    let e = match outcome {
        Ok(u) => {
            return (None, ResolveAction::Answer(Ok(u)));
        },
        Err(e) => e,
    };
    let allowed = use_proxy && proxy_count > 0;
    match stage {
        ResolveStage::YoutubeDirect { video_id } => if allowed {
            (Some(ResolveStage::YoutubeProxies), ResolveAction::RaceYoutubeProxies { video_id })
        } else {
            (
                None,
                ResolveAction::Answer(
                    Err(failure("YouTube stream resolution failed: ", e.as_str(), ErrorCode::NetworkError)),
                ),
            )
        },
        ResolveStage::YoutubeProxies => (
            None,
            ResolveAction::Answer(
                Err(
                    failure(
                        "YouTube stream resolution failed on all proxies: ",
                        e.as_str(),
                        ErrorCode::NetworkError,
                    ),
                ),
            ),
        ),
        ResolveStage::SoundcloudDirect => if allowed {
            (Some(ResolveStage::SoundcloudProxies), ResolveAction::RaceSoundcloudProxies)
        } else {
            (
                None,
                ResolveAction::Answer(
                    Err(
                        ApiError::bad_request(
                            string_from("Direct resolution failed and no fallback proxies configured"),
                        ).with_code(ErrorCode::SoundCloudError),
                    ),
                ),
            )
        },
        ResolveStage::SoundcloudProxies => (
            None,
            ResolveAction::Answer(
                Err(failure("Proxy resolution failed: ", e.as_str(), ErrorCode::SoundCloudError)),
            ),
        ),
    }
}

} // verus!
