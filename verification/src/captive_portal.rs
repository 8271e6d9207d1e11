//! Captive-portal classification of the hotspot-detect probe's response.
use vstd::prelude::*;
use crate::text::{contains_run, str_contains};

verus! {

/// Whether something between this machine and the internet is
/// intercepting plain HTTP traffic to serve a login page.
#[derive(Debug, Clone, Copy, PartialEq, Eq)]
pub enum CaptivePortalStatus {
    Clear,
    Detected,
    Unknown,
}

/// A 200 response whose body holds `Success` means nothing intercepted the
/// request; any other status, or a body without the marker, means a portal
/// (or something else) altered it. Matching the marker rather than the
/// whole page tolerates formatting drift of the endpoint.
pub fn classify_response(status: u16, body: &str) -> (r: CaptivePortalStatus)
    ensures
        r == (if status == 200 && contains_run(body@, "Success"@) {
            CaptivePortalStatus::Clear
        } else {
            CaptivePortalStatus::Detected
        }),
{
    if status == 200 && str_contains(body, "Success") {
        CaptivePortalStatus::Clear
    } else {
        CaptivePortalStatus::Detected
    }
}

/// What the probe concluded: a transport failure (no response, or a body
/// that could not be read) means the probe did not complete, which is
/// `Unknown`, not evidence of a portal; a response is classified by
/// `classify_response`. `response` is the status code and the body text.
pub fn captive_portal_from_probe(response: Option<(u16, String)>) -> (r: CaptivePortalStatus)
    ensures
        response is None ==> r == CaptivePortalStatus::Unknown,
        response matches Some(p) ==> r == (if p.0 == 200 && contains_run(p.1@, "Success"@) {
            CaptivePortalStatus::Clear
        } else {
            CaptivePortalStatus::Detected
        }),
{
    match response {
        None => CaptivePortalStatus::Unknown,
        Some((status, body)) => classify_response(status, body.as_str()),
    }
}

} // verus!
