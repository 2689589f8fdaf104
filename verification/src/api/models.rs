//! Request and response bodies of the download and library endpoints, and
//! the recognition of the audio files of the library.
use crate::api::errors::ApiError;
use crate::text::{push_seq, same_text, string_from};
use vstd::prelude::*;

verus! {

/// A request to download what `url` points at.
#[derive(Debug)]
pub struct DownloadRequest {
    pub url: String,
}

/// The answer to an accepted action: its status and a message.
#[derive(Debug)]
pub struct ActionStatus {
    pub status: String,
    pub message: String,
}

/// The audio file kinds of the library, by file extension.
#[derive(Clone, Copy, Debug, PartialEq, Eq, Structural)]
pub enum TrackExtension {
    Mp3,
    Flac,
    Wav,
    Unknown,
}

/// The kinds of audio file the library lists.
pub fn known_extensions() -> (r: [TrackExtension; 3])
    ensures
        r@ == seq![TrackExtension::Mp3, TrackExtension::Flac, TrackExtension::Wav],
{
    let r = [TrackExtension::Mp3, TrackExtension::Flac, TrackExtension::Wav];
    assert(r@ =~= seq![TrackExtension::Mp3, TrackExtension::Flac, TrackExtension::Wav]);
    r
}

/// The kind of an audio file with the extension `ext` (compared exactly,
/// without the dot).
pub open spec fn extension_kind(ext: Seq<char>) -> TrackExtension {
    if ext == "mp3"@ {
        TrackExtension::Mp3
    } else if ext == "flac"@ {
        TrackExtension::Flac
    } else if ext == "wav"@ {
        TrackExtension::Wav
    } else {
        TrackExtension::Unknown
    }
}

/// The kind of an audio file with the extension `ext`.
pub fn track_extension(ext: &str) -> (r: TrackExtension)
    ensures
        r == extension_kind(ext@),
{
    if same_text(ext, "mp3") {
        TrackExtension::Mp3
    } else if same_text(ext, "flac") {
        TrackExtension::Flac
    } else if same_text(ext, "wav") {
        TrackExtension::Wav
    } else {
        TrackExtension::Unknown
    }
}

/// Whether a file of the kind `kind` is listed in the library.
pub fn is_known_extension(kind: TrackExtension) -> (r: bool)
    ensures
        r == known_extensions_spec().contains(kind),
{
    let known = known_extensions();
    let mut i: usize = 0;
    while i < 3
        invariant
            known@ == known_extensions_spec(),
            i <= 3,
            forall|j: int| 0 <= j < i ==> known@[j] != kind,
        decreases 3 - i,
    {
        if known[i] == kind {
            return true;
        }
        i = i + 1;
    }
    false
}

/// The kinds of audio file the library lists.
pub open spec fn known_extensions_spec() -> Seq<TrackExtension> {
    seq![TrackExtension::Mp3, TrackExtension::Flac, TrackExtension::Wav]
}

/// A file of the library as listed to clients.
#[derive(Debug)]
pub struct TrackRecord {
    pub id: u32,
    pub filename: String,
    pub album: String,
    pub format: String,
    pub artwork_url: Option<String>,
    pub source_url: Option<String>,
    pub created_at: u64,
    pub size: u64,
}

/// The answer of the health endpoint.
#[derive(Debug)]
pub struct HealthResponse {
    pub status: String,
}

/// The health endpoint's answer: the service is up.
pub fn health_response() -> (r: HealthResponse)
    ensures
        r.status@ == "ok"@,
{
    HealthResponse { status: string_from("ok") }
}

/// The answer to a download request: an empty URL is refused as a bad
/// request, any other is accepted as queued.
pub fn accept_download(body: &DownloadRequest) -> (r: Result<ActionStatus, ApiError>)
    ensures
        body.url@.len() == 0 <==> r is Err,
        r matches Err(e) ==> e.status == crate::api::errors::STATUS_BAD_REQUEST
            && e.code == crate::api::errors::ErrorCode::BadRequest && e.message@ == "Empty URL"@,
        r matches Ok(a) ==> a.status@ == "queued"@ && a.message@ == "Started for: "@ + body.url@,
{
    if body.url.unicode_len() == 0 {
        return Err(ApiError::bad_request(string_from("Empty URL")));
    }
    let mut message = string_from("Started for: ");
    push_seq(&mut message, body.url.as_str());
    Ok(ActionStatus { status: string_from("queued"), message })
}

/// The position of the last `c` in `s`, or -1.
pub open spec fn last_index_of(s: Seq<char>, c: char) -> int
    decreases s.len(),
{
    if s.len() == 0 {
        -1
    } else if s.last() == c {
        s.len() - 1
    } else {
        last_index_of(s.drop_last(), c)
    }
}

proof fn lemma_last_index_of(s: Seq<char>, c: char)
    ensures
        -1 <= last_index_of(s, c) < s.len(),
        last_index_of(s, c) >= 0 ==> s[last_index_of(s, c)] == c,
        forall|j: int| last_index_of(s, c) < j < s.len() ==> s[j] != c,
    decreases s.len(),
{
    if s.len() > 0 && s.last() != c {
        lemma_last_index_of(s.drop_last(), c);
        assert forall|j: int| last_index_of(s, c) < j < s.len() implies s[j] != c by {
            if j < s.len() - 1 {
                assert(s[j] == s.drop_last()[j]);
            }
        }
    }
}

/// The extension of the file name `name`, as `Path::extension` gives it:
/// what follows its last dot, unless it has none, the dot is its first
/// character, or it is `..`.
pub open spec fn extension_of(name: Seq<char>) -> Option<Seq<char>> {
    let i = last_index_of(name, '.');
    if name == ".."@ || i <= 0 {
        None
    } else {
        Some(name.skip(i + 1))
    }
}

/// The extension of the file name `name` (see `extension_of`).
pub fn file_extension(name: &str) -> (r: Option<String>)
    ensures
        opt_view(r) == extension_of(name@),
{
    let v = crate::text::chars_of(name);
    proof {
        lemma_last_index_of(name@, '.');
        reveal_strlit("..");
    }
    if crate::text::same_text(name, "..") {
        return None;
    }
    let mut i = v.len();
    while i > 0 && v[i - 1] != '.'
        invariant
            v@ == name@,
            i <= v@.len(),
            forall|j: int| i <= j < v@.len() ==> v@[j] != '.',
        decreases i,
    {
        i = i - 1;
    }
    proof {
        if i > 0 {
            assert(last_index_of(name@, '.') == i - 1) by {
                lemma_last_index_of(name@, '.');
            }
        } else {
            assert(last_index_of(name@, '.') == -1) by {
                lemma_last_index_of(name@, '.');
            }
        }
    }
    if i <= 1 {
        return None;
    }
    let r = crate::text::string_of_range(&v, i, v.len());
    assert(r@ =~= name@.skip(i as int));
    Some(r)
}

/// The text of an optional string.
pub open spec fn opt_view(o: Option<String>) -> Option<Seq<char>> {
    match o {
        Some(s) => Some(s@),
        None => None,
    }
}

/// Whether a file name may be deleted from the download directory: it
/// names no other directory (no `/`, no `\\`, no `..`).
pub open spec fn safe_file_name(name: Seq<char>) -> bool {
    &&& !name.contains('/')
    &&& !name.contains('\\')
    &&& !crate::text::has_infix(name, ".."@)
}

/// Checks a file name to be deleted: a bad request ("Invalid filename") when
/// it could name another directory.
pub fn check_file_name(name: &str) -> (r: Result<(), ApiError>)
    ensures
        r is Ok == safe_file_name(name@),
        r matches Err(e) ==> e.status == crate::api::errors::STATUS_BAD_REQUEST && e.message@
            == "Invalid filename"@,
{
    let slash = crate::text::contains_text(name, "/");
    let backslash = crate::text::contains_text(name, "\\");
    let dots = crate::text::contains_text(name, "..");
    proof {
        reveal_strlit("/");
        reveal_strlit("\\");
        assert(slash == name@.contains('/')) by {
            if name@.contains('/') {
                let j = choose|j: int| 0 <= j < name@.len() && name@[j] == '/';
                assert(name@.subrange(j, j + 1) =~= "/"@);
            }
            if slash {
                let j = choose|j: int| 0 <= j && j + "/"@.len() <= name@.len() && #[trigger] name@.subrange(j, j + "/"@.len()) == "/"@;
                assert(name@[j] == name@.subrange(j, j + 1)[0]);
            }
        }
        assert(backslash == name@.contains('\\')) by {
            if name@.contains('\\') {
                let j = choose|j: int| 0 <= j < name@.len() && name@[j] == '\\';
                assert(name@.subrange(j, j + 1) =~= "\\"@);
            }
            if backslash {
                let j = choose|j: int| 0 <= j && j + "\\"@.len() <= name@.len() && #[trigger] name@.subrange(j, j + "\\"@.len()) == "\\"@;
                assert(name@[j] == name@.subrange(j, j + 1)[0]);
            }
        }
    }
    if slash || backslash || dots {
        return Err(ApiError::bad_request(string_from("Invalid filename")));
    }
    Ok(())
}

/// What is collected by a bulk download request.
#[derive(Clone, Copy, Debug, PartialEq, Eq, Structural)]
pub enum Collection {
    Playlist,
    Likes,
}

/// The answer to a request to download a playlist or the likes at `url`:
/// refused as a bad request when the URL is empty, else accepted as queued.
pub fn accept_collection(kind: Collection, url: &str) -> (r: Result<ActionStatus, ApiError>)
    ensures
        url@.len() == 0 <==> r is Err,
        r matches Err(e) ==> e.status == crate::api::errors::STATUS_BAD_REQUEST && e.message@
            == "Field `url` must not be empty"@,
        r matches Ok(a) ==> a.status@ == "queued"@ && a.message@ == (match kind {
            Collection::Playlist => "Playlist download started: "@,
            Collection::Likes => "Likes download started: "@,
        }) + url@,
{
    if url.unicode_len() == 0 {
        return Err(ApiError::bad_request(string_from("Field `url` must not be empty")));
    }
    let mut message = match kind {
        Collection::Playlist => string_from("Playlist download started: "),
        Collection::Likes => string_from("Likes download started: "),
    };
    push_seq(&mut message, url);
    Ok(ActionStatus { status: string_from("queued"), message })
}

} // verus!
