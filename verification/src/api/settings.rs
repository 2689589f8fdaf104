//! The settings endpoints: proxy checks, the SoundCloud link check, and the
//! backup sync.
use crate::api::errors::{ApiError, ErrorCode, STATUS_BAD_REQUEST, STATUS_INTERNAL_SERVER_ERROR};
use crate::text::{push_seq, string_from, views};
use vstd::prelude::*;

verus! {

/// The proxies to check.
#[derive(Debug)]
pub struct TestProxiesRequest {
    pub proxy_urls: Vec<String>,
}

/// The outcome of the check of one proxy.
#[derive(Debug)]
pub struct ProxyTestResult {
    pub url: String,
    pub valid: bool,
    pub error: Option<String>,
}

/// The outcomes of the checks of several proxies.
#[derive(Debug)]
pub struct TestProxiesResponse {
    pub results: Vec<ProxyTestResult>,
}

/// What happened when a SoundCloud client was built through a proxy.
#[derive(Debug)]
pub enum ProxyProbe {
    /// The client was built and reached SoundCloud's API.
    Healthy,
    /// The client was built but did not reach SoundCloud's API.
    Unhealthy,
    /// The client could not be built, for this reason.
    BuildFailed(String),
}

/// The list of texts `serde_json::from_str::<Vec<String>>` reads from
/// `text`, or `None` when it does not read one.
pub uninterp spec fn json_string_list(text: Seq<char>) -> Option<Seq<Seq<char>>>;

/// Calls `serde_json::from_str::<Vec<String>>` on `text`, dropping the
/// error. The contract names the result; what JSON reads as a list of
/// strings is `serde_json`'s matter.
#[verifier::external_body]
fn parse_proxy_list(text: &str) -> (r: Option<Vec<String>>)
    ensures
        r matches Some(v) ==> json_string_list(text@) == Some(views(v@)),
        r is None ==> json_string_list(text@) is None,
{
    serde_json::from_str::<Vec<String>>(text).ok()
}

/// The proxies a client asks to have checked: its first message, when it is
/// text holding a JSON list of strings (`None`: nothing is checked).
pub fn requested_proxies(first_text: Option<&str>) -> (r: Option<Vec<String>>)
    ensures
        match first_text {
            Some(t) => match json_string_list(t@) {
                Some(l) => r matches Some(v) && views(v@) == l,
                None => r is None,
            },
            None => r is None,
        },
{
    match first_text {
        Some(t) => parse_proxy_list(t),
        None => None,
    }
}

/// The outcome of the check of the proxy `url`: valid when it reached
/// SoundCloud, else invalid with the reason.
pub fn proxy_test_result(url: String, outcome: ProxyProbe) -> (r: ProxyTestResult)
    ensures
        r.url@ == url@,
        r.valid == (outcome is Healthy),
        outcome is Healthy ==> r.error is None,
        outcome is Unhealthy ==> (r.error matches Some(m) && m@ == "Proxy is not able to reach SoundCloud API"@),
        outcome matches ProxyProbe::BuildFailed(e) ==> (r.error matches Some(m) && m@
            == "Failed to build client: "@ + e@),
{
    match outcome {
        ProxyProbe::Healthy => ProxyTestResult { url, valid: true, error: None },
        ProxyProbe::Unhealthy => ProxyTestResult {
            url,
            valid: false,
            error: Some(string_from("Proxy is not able to reach SoundCloud API")),
        },
        ProxyProbe::BuildFailed(e) => {
            let mut m = string_from("Failed to build client: ");
            push_seq(&mut m, e.as_str());
            ProxyTestResult { url, valid: false, error: Some(m) }
        },
    }
}

/// The answer to the check of a SoundCloud link: a confirmation, or a bad
/// request (code `SoundCloudError`) with the reason.
pub fn soundcloud_check_answer(outcome: Result<(), String>) -> (r: Result<String, ApiError>)
    ensures
        outcome is Ok ==> (r matches Ok(m) && m@ == "SoundCloud URL is valid and accessible"@),
        outcome matches Err(e) ==> (r matches Err(a) && a.status == STATUS_BAD_REQUEST && a.code
            == ErrorCode::SoundCloudError && a.message@ == "SoundCloud verification failed: "@ + e@),
{
    match outcome {
        Ok(()) => Ok(string_from("SoundCloud URL is valid and accessible")),
        Err(e) => {
            let mut m = string_from("SoundCloud verification failed: ");
            push_seq(&mut m, e.as_str());
            Err(ApiError::bad_request(m).with_code(ErrorCode::SoundCloudError))
        },
    }
}

/// The answer to a failed settings update: an internal error with the code
/// `DatabaseError`.
pub fn settings_update_failed(reason: &str) -> (r: ApiError)
    ensures
        r.status == STATUS_INTERNAL_SERVER_ERROR,
        r.code == ErrorCode::DatabaseError,
        r.message@ == "Failed to update settings: "@ + reason@,
{
    let mut m = string_from("Failed to update settings: ");
    push_seq(&mut m, reason);
    ApiError::internal(m).with_code(ErrorCode::DatabaseError)
}

/// A backup sync request: which backup provider, and which action (by
/// their names as the client sent them).
#[derive(Debug)]
pub struct SyncRequest {
    pub provider: String,
    pub action: String,
}

/// What the latest backup snapshot holds.
#[derive(Debug)]
pub struct SnapshotResponse {
    pub sync_records_count: usize,
}

/// The description of a snapshot holding `synced_ids` records.
pub fn snapshot_response(synced_ids: &Vec<i64>) -> (r: SnapshotResponse)
    ensures
        r.sync_records_count == synced_ids@.len(),
{
    SnapshotResponse { sync_records_count: synced_ids.len() }
}

} // verus!
