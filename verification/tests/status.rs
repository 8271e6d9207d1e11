use netstatus::{
    CaptivePortalStatus, ConnectResult, ConnectionConfidence, CoreSignals, IpStack, NetworkStatus,
    PartialStatus, PingResult, ProbeGroup, ProxyConfig, ProxyEndpoint, ResolutionResult,
    StatusField, VpnStatus, WifiStatus, cap_for_captive_portal, confidence_from, confidence_only,
    majority_ok, upsert_by,
};

fn resolution_results(oks: &[bool]) -> Vec<ResolutionResult> {
    oks.iter()
        .map(|&resolved| ResolutionResult {
            domain: "example.com".to_string(),
            resolved,
            addresses: Vec::new(),
            duration_ns: None,
        })
        .collect()
}

fn ping_results(oks: &[bool]) -> Vec<PingResult> {
    oks.iter()
        .map(|&reachable| PingResult { target: "1.1.1.1".to_string(), reachable, rtt_ns: None })
        .collect()
}

fn connect_results(oks: &[bool]) -> Vec<ConnectResult> {
    oks.iter()
        .map(|&reachable| ConnectResult {
            target: "example.com".to_string(),
            port: 443,
            reachable,
            rtt_ns: None,
        })
        .collect()
}

#[test]
fn confidence_only_runs_without_the_full_snapshot() {
    let signals = CoreSignals {
        resolution: Vec::new(),
        reachability: Vec::new(),
        reachability_v6: Vec::new(),
        domain_reachability: Vec::new(),
    };
    let result = confidence_only(&signals);
    assert!(matches!(
        result,
        ConnectionConfidence::Online | ConnectionConfidence::Limited | ConnectionConfidence::Offline
    ));
}

#[test]
fn confidence_only_reads_the_three_categories() {
    let signals = CoreSignals {
        resolution: resolution_results(&[true, true, false]),
        reachability: ping_results(&[false, false]),
        reachability_v6: ping_results(&[true]),
        domain_reachability: connect_results(&[false, true]),
    };
    assert_eq!(confidence_only(&signals), ConnectionConfidence::Online);
    let signals = CoreSignals {
        resolution: resolution_results(&[true, false]),
        reachability: ping_results(&[false, false]),
        reachability_v6: ping_results(&[]),
        domain_reachability: connect_results(&[true, true, true]),
    };
    assert_eq!(confidence_only(&signals), ConnectionConfidence::Limited);
}

#[test]
fn confidence_from_all_signals_ok_is_online() {
    assert_eq!(confidence_from(true, true, true), ConnectionConfidence::Online);
}

#[test]
fn confidence_from_two_signals_ok_is_online() {
    assert_eq!(confidence_from(true, true, false), ConnectionConfidence::Online);
    assert_eq!(confidence_from(true, false, true), ConnectionConfidence::Online);
    assert_eq!(confidence_from(false, true, true), ConnectionConfidence::Online);
}

#[test]
fn confidence_from_one_signal_ok_is_limited() {
    assert_eq!(confidence_from(true, false, false), ConnectionConfidence::Limited);
    assert_eq!(confidence_from(false, true, false), ConnectionConfidence::Limited);
    assert_eq!(confidence_from(false, false, true), ConnectionConfidence::Limited);
}

#[test]
fn confidence_from_no_signals_ok_is_offline() {
    assert_eq!(confidence_from(false, false, false), ConnectionConfidence::Offline);
}

#[test]
fn majority_ok_requires_more_than_half() {
    assert!(
        !majority_ok(&ping_results(&[true, false, false, false, false, false, false])),
        "1 of 7 must not count as ok"
    );
    assert!(
        !majority_ok(&ping_results(&[true, true, true, false, false, false, false])),
        "3 of 7 must not count as ok"
    );
    assert!(
        majority_ok(&ping_results(&[true, true, true, true, false, false, false])),
        "4 of 7 must count as ok"
    );
    assert!(!majority_ok::<PingResult>(&[]), "empty list must never count as ok");
}

#[test]
fn majority_ok_half_is_not_enough() {
    assert!(!majority_ok(&resolution_results(&[true, false])));
    assert!(majority_ok(&resolution_results(&[true])));
    assert!(majority_ok(&connect_results(&[true, true, false])));
}

fn off() -> ProxyEndpoint {
    ProxyEndpoint { enabled: false, host: None, port: None }
}

fn snapshot() -> NetworkStatus {
    NetworkStatus {
        interfaces: Vec::new(),
        vpn: VpnStatus {
            tunnels: Vec::new(),
            primary_interface: None,
            connected: false,
            split_tunnel: false,
            routed_subnets: Vec::new(),
        },
        resolvers: Vec::new(),
        split_dns: false,
        reachability: ping_results(&[true, false, false, false, false, false, false]),
        reachability_v6: ping_results(&[false, false, false, false, false]),
        resolution: resolution_results(&[true, false, false, false, false, false, false]),
        domain_reachability: connect_results(&[true, false, false, false, false, false, false]),
        gateway_reachability: Vec::new(),
        nameserver_reachability: Vec::new(),
        nameserver_connect: Vec::new(),
        proxy: ProxyConfig { http: off(), https: off(), socks: off(), pac_url: None, exceptions: Vec::new() },
        wifi: WifiStatus::default(),
        ip_stack: IpStack::Neither,
        captive_portal: CaptivePortalStatus::Clear,
    }
}

#[test]
fn network_status_confidence_needs_majority_per_category() {
    let mut status = snapshot();
    assert_eq!(status.confidence(), ConnectionConfidence::Offline);
    status.reachability_v6 = ping_results(&[true, true, true, false, false]);
    assert_eq!(status.confidence(), ConnectionConfidence::Limited);
}

#[test]
fn network_status_confidence_is_capped_by_a_portal() {
    let mut status = snapshot();
    status.resolution = resolution_results(&[true; 7]);
    status.reachability = ping_results(&[true; 7]);
    status.domain_reachability = connect_results(&[true; 7]);
    assert_eq!(status.confidence(), ConnectionConfidence::Online);
    status.captive_portal = CaptivePortalStatus::Detected;
    assert_eq!(status.confidence(), ConnectionConfidence::Limited);
    let signals = CoreSignals {
        resolution: status.resolution.clone(),
        reachability: status.reachability.clone(),
        reachability_v6: status.reachability_v6.clone(),
        domain_reachability: status.domain_reachability.clone(),
    };
    assert_eq!(confidence_only(&signals), ConnectionConfidence::Online);
}

#[test]
fn captive_portal_detected_caps_online_at_limited() {
    assert_eq!(
        cap_for_captive_portal(ConnectionConfidence::Online, CaptivePortalStatus::Detected),
        ConnectionConfidence::Limited
    );
}

#[test]
fn captive_portal_unknown_does_not_cap() {
    assert_eq!(
        cap_for_captive_portal(ConnectionConfidence::Online, CaptivePortalStatus::Unknown),
        ConnectionConfidence::Online
    );
}

#[test]
fn captive_portal_clear_does_not_cap() {
    assert_eq!(
        cap_for_captive_portal(ConnectionConfidence::Online, CaptivePortalStatus::Clear),
        ConnectionConfidence::Online
    );
}

#[test]
fn captive_portal_cap_does_not_raise_offline_or_limited() {
    assert_eq!(
        cap_for_captive_portal(ConnectionConfidence::Limited, CaptivePortalStatus::Detected),
        ConnectionConfidence::Limited
    );
    assert_eq!(
        cap_for_captive_portal(ConnectionConfidence::Offline, CaptivePortalStatus::Detected),
        ConnectionConfidence::Offline
    );
}

fn all_ok_partial() -> PartialStatus {
    let mut partial = PartialStatus::default();
    partial.resolution = resolution_results(&[true; 7]);
    partial.reachability = ping_results(&[true; 7]);
    partial.reachability_v6 = ping_results(&[true; 5]);
    partial.domain_reachability = connect_results(&[true; 7]);
    partial
}

#[test]
fn partial_status_confidence_waits_for_captive_portal() {
    let mut partial = all_ok_partial();
    for group in [
        ProbeGroup::Resolution,
        ProbeGroup::Reachability,
        ProbeGroup::ReachabilityV6,
        ProbeGroup::DomainReachability,
    ] {
        partial.merge(StatusField::GroupComplete(group));
    }
    assert_eq!(partial.confidence(), None);

    partial.captive_portal = Some(CaptivePortalStatus::Detected);
    assert_eq!(partial.confidence(), Some(ConnectionConfidence::Limited));
}

#[test]
fn partial_status_confidence_waits_for_each_group_to_complete() {
    let mut partial = all_ok_partial();
    partial.captive_portal = Some(CaptivePortalStatus::Clear);
    assert_eq!(partial.confidence(), None, "no group has been marked complete yet");

    partial.merge(StatusField::GroupComplete(ProbeGroup::Reachability));
    assert_eq!(
        partial.confidence(),
        None,
        "still missing ReachabilityV6/Resolution/DomainReachability completion"
    );

    for group in [ProbeGroup::ReachabilityV6, ProbeGroup::Resolution, ProbeGroup::DomainReachability] {
        partial.merge(StatusField::GroupComplete(group));
    }
    assert_eq!(partial.confidence(), Some(ConnectionConfidence::Online));
}

fn ping(target: &str, reachable: bool) -> PingResult {
    PingResult { target: target.to_string(), reachable, rtt_ns: if reachable { Some(1_000_000) } else { None } }
}

#[test]
fn merge_upserts_targets_in_first_seen_order() {
    let mut partial = PartialStatus::default();
    assert!(!partial.has_any());
    partial.merge(StatusField::Ping { group: ProbeGroup::Reachability, result: ping("1.1.1.1", false) });
    partial.merge(StatusField::Ping { group: ProbeGroup::Reachability, result: ping("8.8.8.8", true) });
    partial.merge(StatusField::Ping { group: ProbeGroup::Reachability, result: ping("1.1.1.1", true) });
    assert!(partial.has_any());
    assert_eq!(partial.reachability, vec![ping("1.1.1.1", true), ping("8.8.8.8", true)]);
    assert!(partial.reachability_v6.is_empty());
    partial.merge(StatusField::Ping { group: ProbeGroup::GatewayReachability, result: ping("192.168.1.1", true) });
    assert_eq!(partial.gateway_reachability, vec![ping("192.168.1.1", true)]);
}

#[test]
fn merge_fills_single_value_fields_and_group_markers_show_nothing() {
    let mut partial = PartialStatus::default();
    partial.merge(StatusField::GroupComplete(ProbeGroup::Resolution));
    assert!(!partial.has_any());
    partial.merge(StatusField::SplitDns(true));
    assert_eq!(partial.split_dns, Some(true));
    partial.merge(StatusField::IpStack(IpStack::DualStack));
    partial.merge(StatusField::CaptivePortal(CaptivePortalStatus::Unknown));
    assert_eq!(partial.ip_stack, Some(IpStack::DualStack));
    assert_eq!(partial.captive_portal, Some(CaptivePortalStatus::Unknown));
    assert!(partial.has_any());
}

#[test]
fn merge_resolution_and_connect_items() {
    let mut partial = PartialStatus::default();
    let r = ResolutionResult {
        domain: "apple.com".to_string(),
        resolved: true,
        addresses: vec!["17.253.144.10".to_string()],
        duration_ns: Some(12_000_000),
    };
    partial.merge(StatusField::Resolution(r.clone()));
    partial.merge(StatusField::Resolution(r.clone()));
    assert_eq!(partial.resolution, vec![r]);
    let c = ConnectResult { target: "9.9.9.9".to_string(), port: 53, reachable: true, rtt_ns: Some(5) };
    partial.merge(StatusField::Connect { group: ProbeGroup::NameserverConnect, result: c.clone() });
    assert_eq!(partial.nameserver_connect, vec![c]);
    assert!(partial.domain_reachability.is_empty());
}

#[test]
fn upsert_by_replaces_or_appends() {
    let mut list = vec![ping("a", false), ping("b", false)];
    upsert_by(&mut list, ping("b", true));
    assert_eq!(list, vec![ping("a", false), ping("b", true)]);
    upsert_by(&mut list, ping("c", true));
    assert_eq!(list, vec![ping("a", false), ping("b", true), ping("c", true)]);
}
