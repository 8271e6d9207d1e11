use netstatus::probes::{DEFAULT_PING_TARGETS, DEFAULT_PING_TARGETS_V6, DEFAULT_RESOLUTION_TARGETS};
use netstatus::{
    CaptivePortalStatus, ConnectResult, ResolutionResult, build_connect_result, build_result,
    captive_portal_from_probe, classify_response, ping_result,
};

fn ms(ns: Option<u64>) -> Option<f64> {
    ns.map(|n| n as f64 / 1_000_000.0)
}

#[test]
fn build_connect_result_reports_success_with_rtt() {
    let result = build_connect_result("example.com", 443, true, 20_000_000);
    assert_eq!(
        result,
        ConnectResult { target: "example.com".to_string(), port: 443, reachable: true, rtt_ns: Some(20_000_000) }
    );
    assert_eq!(ms(result.rtt_ns), Some(20.0));
}

#[test]
fn build_connect_result_reports_failure_without_rtt() {
    let result = build_connect_result("unreachable.invalid", 443, false, 2_000_000_000);
    assert_eq!(
        result,
        ConnectResult { target: "unreachable.invalid".to_string(), port: 443, reachable: false, rtt_ns: None }
    );
}

#[test]
fn build_result_reports_success_with_addresses_and_duration() {
    let result = build_result("example.com", Some(vec!["93.184.216.34".to_string()]), 12_000_000);
    assert_eq!(
        result,
        ResolutionResult {
            domain: "example.com".to_string(),
            resolved: true,
            addresses: vec!["93.184.216.34".to_string()],
            duration_ns: Some(12_000_000),
        }
    );
    assert_eq!(ms(result.duration_ns), Some(12.0));
}

#[test]
fn build_result_reports_failure_on_lookup_error() {
    let result = build_result("nonexistent.invalid", None, 50_000_000);
    assert_eq!(
        result,
        ResolutionResult {
            domain: "nonexistent.invalid".to_string(),
            resolved: false,
            addresses: Vec::new(),
            duration_ns: None,
        }
    );
}

#[test]
fn build_result_reports_failure_when_no_addresses_returned() {
    let result = build_result("empty.invalid", Some(Vec::new()), 5_000_000);
    assert!(!result.resolved);
    assert!(result.addresses.is_empty());
}

#[test]
fn ping_result_is_reachable_only_with_a_reply() {
    let r = ping_result("not-an-ip-address", None);
    assert_eq!(r.target, "not-an-ip-address");
    assert!(!r.reachable);
    assert_eq!(r.rtt_ns, None);
    let r = ping_result("1.1.1.1", Some(9_100_000));
    assert!(r.reachable);
    assert_eq!(r.rtt_ns, Some(9_100_000));
}

#[test]
fn exact_success_body_is_clear() {
    assert_eq!(
        classify_response(200, "<HTML><HEAD><TITLE>Success</TITLE></HEAD><BODY>Success</BODY></HTML>"),
        CaptivePortalStatus::Clear
    );
}

#[test]
fn altered_body_is_detected() {
    assert_eq!(
        classify_response(200, "<HTML><HEAD><TITLE>Portal</TITLE></HEAD><BODY>Login required</BODY></HTML>"),
        CaptivePortalStatus::Detected
    );
}

#[test]
fn bare_success_without_html_wrapper_is_clear() {
    assert_eq!(classify_response(200, "Success"), CaptivePortalStatus::Clear);
}

#[test]
fn non_200_status_is_detected() {
    assert_eq!(classify_response(302, "Success"), CaptivePortalStatus::Detected);
}

#[test]
fn marker_match_is_case_sensitive_and_transport_failure_is_unknown() {
    assert_eq!(classify_response(200, "success"), CaptivePortalStatus::Detected);
    assert_eq!(classify_response(200, ""), CaptivePortalStatus::Detected);
    assert_eq!(captive_portal_from_probe(None), CaptivePortalStatus::Unknown);
    assert_eq!(
        captive_portal_from_probe(Some((200, "xxSuccessxx".to_string()))),
        CaptivePortalStatus::Clear
    );
}

#[test]
fn default_probe_targets() {
    assert_eq!(DEFAULT_PING_TARGETS.len(), 7);
    assert!(DEFAULT_PING_TARGETS.contains(&"1.1.1.1"));
    assert_eq!(DEFAULT_PING_TARGETS_V6[4], "2620:fe::fe");
    assert_eq!(DEFAULT_RESOLUTION_TARGETS[0], "amazon.com");
    assert_eq!(DEFAULT_RESOLUTION_TARGETS.len(), 7);
}
