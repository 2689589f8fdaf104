//! Finding the eleven-character video id in a YouTube link (or taking it as
//! it is when the text already is one).
use crate::text::{chars_of, string_from, trim, trimmed};
use crate::youtube::models::YoutubeAudioError;
use vstd::prelude::*;
use vstd::utf8::encode_utf8;

verus! {

/// Whether `char::is_alphanumeric` holds of `c` (Unicode `Alphabetic` or
/// `Numeric`).
pub uninterp spec fn unicode_alphanumeric(c: char) -> bool;

/// Calls `char::is_alphanumeric`. The contract names the result, and adds
/// what std's documentation gives: ASCII letters and digits are
/// alphanumeric.
#[verifier::external_body]
fn char_is_alphanumeric(c: char) -> (r: bool)
    ensures
        r == unicode_alphanumeric(c),
        ascii_alphanumeric(c) ==> r,
{
    c.is_alphanumeric()
}

/// The error text of `regex::Regex::new` on `pattern`, or `None` when the
/// pattern compiles.
pub uninterp spec fn regex_error(pattern: Seq<char>) -> Option<Seq<char>>;

/// The text of the first capture group of the leftmost match of `pattern`
/// in `haystack` (`regex::Regex::captures`, then `get(1)`), or `None` when
/// there is no match or the group took part in none.
pub uninterp spec fn regex_capture(pattern: Seq<char>, haystack: Seq<char>) -> Option<Seq<char>>;

/// Compiles `pattern` with `regex::Regex::new` and, when it compiles, takes
/// the first capture group of its leftmost match in `haystack`. The contract
/// names both results; what they are on given texts is regex's matter.
#[verifier::external_body]
fn first_capture(pattern: &str, haystack: &str) -> (r: Result<Option<String>, String>)
    ensures
        match r {
            Err(e) => regex_error(pattern@) == Some(e@),
            Ok(c) => regex_error(pattern@) is None && match c {
                Some(s) => regex_capture(pattern@, haystack@) == Some(s@),
                None => regex_capture(pattern@, haystack@) is None,
            },
        },
{
    match regex::Regex::new(pattern) {
        Err(e) => Err(e.to_string()),
        Ok(re) => Ok(re.captures(haystack).and_then(|c| c.get(1)).map(|m| m.as_str().to_string())),
    }
}

/// The pattern of the links a video id is read from: youtube.com watch,
/// embed, `v/`, `e/` and shorts links, and youtu.be links.
pub open spec fn video_link_pattern() -> Seq<char> {
    "(?:youtube\\.com/(?:[^/]+/.+/|(?:v|e(?:mbed)?|shorts)/|.*[?&]v=)|youtu\\.be/)([^?&/]{11})"@
}

/// Whether `c` is an ASCII letter or digit (all of which are
/// alphanumeric).
pub open spec fn ascii_alphanumeric(c: char) -> bool {
    ('a' <= c && c <= 'z') || ('A' <= c && c <= 'Z') || ('0' <= c && c <= '9')
}

/// Whether `c` may stand in a bare video id: an alphanumeric character
/// (ASCII letters and digits among them), `_` or `-`.
pub open spec fn id_char(c: char) -> bool {
    ascii_alphanumeric(c) || unicode_alphanumeric(c) || c == '_' || c == '-'
}

/// Whether `t` already is a video id: eleven bytes long (in UTF-8), made of
/// letters, digits, `_` and `-`.
pub open spec fn is_bare_id(t: Seq<char>) -> bool {
    &&& encode_utf8(t).len() == 11
    &&& forall|i: int| 0 <= i < t.len() ==> id_char(#[trigger] t[i])
}

/// The video id in `url_or_id`: the trimmed text itself when it already is
/// an id, else the eleven characters after a video link in it.
pub open spec fn video_id_spec(url_or_id: Seq<char>) -> Result<Seq<char>, YoutubeAudioErrorKind> {
    let t = trim(url_or_id);
    if is_bare_id(t) {
        Ok(t)
    } else {
        match regex_error(video_link_pattern()) {
            Some(e) => Err(YoutubeAudioErrorKind::InvalidUrl(e)),
            None => match regex_capture(video_link_pattern(), t) {
                Some(c) => Ok(c),
                None => Err(YoutubeAudioErrorKind::VideoIdNotFound(url_or_id)),
            },
        }
    }
}

/// The errors `extract_video_id` gives, by their text.
pub enum YoutubeAudioErrorKind {
    InvalidUrl(Seq<char>),
    VideoIdNotFound(Seq<char>),
}

/// Whether `e` is the error `k`.
pub open spec fn error_is(e: YoutubeAudioError, k: YoutubeAudioErrorKind) -> bool {
    match k {
        YoutubeAudioErrorKind::InvalidUrl(m) => e matches YoutubeAudioError::InvalidUrl(s) && s@ == m,
        YoutubeAudioErrorKind::VideoIdNotFound(m) => e matches YoutubeAudioError::VideoIdNotFound(s)
            && s@ == m,
    }
}

/// A text of `n` characters takes between `n` and `4 n` bytes in UTF-8.
proof fn lemma_utf8_len_bounds(t: Seq<char>)
    ensures
        t.len() <= encode_utf8(t).len() <= 4 * t.len(),
    decreases t.len(),
{
    if t.len() > 0 {
        lemma_utf8_len_bounds(t.drop_first());
    }
}

/// Whether every character of `t` may stand in a bare video id.
fn all_id_chars(t: &str) -> (r: bool)
    ensures
        r == forall|i: int| 0 <= i < t@.len() ==> id_char(#[trigger] t@[i]),
{
    let v = chars_of(t);
    let mut i: usize = 0;
    while i < v.len()
        invariant
            v@ == t@,
            i <= v@.len(),
            forall|j: int| 0 <= j < i ==> id_char(#[trigger] t@[j]),
        decreases v@.len() - i,
    {
        let c = v[i];
        if !(char_is_alphanumeric(c) || c == '_' || c == '-') {
            assert(!id_char(t@[i as int]));
            return false;
        }
        i = i + 1;
    }
    true
}

/// The video id in `url_or_id` (see `video_id_spec`).
pub fn extract_video_id(url_or_id: &str) -> (r: Result<String, YoutubeAudioError>)
    ensures
        match video_id_spec(url_or_id@) {
            Ok(id) => r matches Ok(s) && s@ == id,
            Err(k) => r matches Err(e) && error_is(e, k),
        },
{
    let t = trimmed(url_or_id);
    let ts = t.as_str();
    proof {
        lemma_utf8_len_bounds(t@);
    }
    if t.unicode_len() <= 11 && ts.len() == 11 && all_id_chars(ts) {
        return Ok(t);
    }
    let pattern = "(?:youtube\\.com/(?:[^/]+/.+/|(?:v|e(?:mbed)?|shorts)/|.*[?&]v=)|youtu\\.be/)([^?&/]{11})";
    match first_capture(pattern, ts) {
        Err(e) => Err(YoutubeAudioError::InvalidUrl(e)),
        Ok(Some(c)) => Ok(c),
        Ok(None) => Err(YoutubeAudioError::VideoIdNotFound(string_from(url_or_id))),
    }
}

/// Whether `c` is an ASCII letter or digit, `_` or `-`.
pub open spec fn ascii_id_char(c: char) -> bool {
    ascii_alphanumeric(c) || c == '_' || c == '-'
}

/// ASCII text takes one byte per character in UTF-8.
proof fn lemma_ascii_utf8_len(t: Seq<char>)
    requires
        forall|i: int| 0 <= i < t.len() ==> ascii_id_char(#[trigger] t[i]),
    ensures
        encode_utf8(t).len() == t.len(),
    decreases t.len(),
{
    if t.len() > 0 {
        assert(ascii_id_char(t[0]));
        assert((t[0] as u32) <= 0x7F);
        assert forall|i: int| 0 <= i < t.drop_first().len() implies ascii_id_char(#[trigger] t.drop_first()[i]) by {
            assert(ascii_id_char(t[i + 1]));
        }
        lemma_ascii_utf8_len(t.drop_first());
    }
}

/// Eleven ASCII letters, digits, `_` and `-` are a video id, taken as they
/// are.
pub proof fn lemma_ascii_id_taken_as_is(t: Seq<char>)
    requires
        t.len() == 11,
        forall|i: int| 0 <= i < t.len() ==> ascii_id_char(#[trigger] t[i]),
    ensures
        video_id_spec(t) == Ok::<Seq<char>, YoutubeAudioErrorKind>(t),
{
    assert(ascii_id_char(t[0]));
    assert(ascii_id_char(t[10]));
    assert(!crate::text::unicode_whitespace(t[0]));
    assert(!crate::text::unicode_whitespace(t.last()));
    assert(crate::text::trim_start(t) == t);
    assert(crate::text::trim_end(t) == t);
    lemma_ascii_utf8_len(t);
    assert forall|i: int| 0 <= i < t.len() implies id_char(#[trigger] t[i]) by {
        assert(ascii_id_char(t[i]));
    }
}

} // verus!
