//! The extractor that asks YouTube first and `yt-dlp` when that fails.
use vstd::prelude::*;

verus! {

/// `reqwest::Client`, the HTTP client the requests to YouTube go through.
#[verifier::external_type_specification]
#[verifier::external_body]
pub struct ExHttpClient(reqwest::Client);

/// Gets a video's description and audio streams: from YouTube's player
/// endpoint through its HTTP client, and from `yt-dlp` when that fails.
pub struct YoutubeExtractor {
    client: reqwest::Client,
}

impl YoutubeExtractor {
    /// The HTTP client the player endpoint is asked through.
    pub closed spec fn client_spec(&self) -> reqwest::Client {
        self.client
    }

    /// An extractor that asks YouTube through `client`.
    pub fn new(client: reqwest::Client) -> (r: Self)
        ensures
            r.client_spec() == client,
    {
        YoutubeExtractor { client }
    }

    /// The HTTP client the player endpoint is asked through.
    pub fn client(&self) -> (r: &reqwest::Client)
        ensures
            *r == self.client_spec(),
    {
        &self.client
    }
}

} // verus!
