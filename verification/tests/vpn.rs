use netstatus::{
    Dictionary, Interface, PropertyValue, build_gateway_ips, cidr, classify_tunnels,
    mask_to_prefix_len, own_subnet_routes, routes_for_interface, vpn_status_from_store,
};

fn iface(name: &str, up: bool, addresses: &[&str]) -> Interface {
    Interface {
        name: name.to_string(),
        up,
        loopback: false,
        addresses: addresses.iter().map(|s| s.to_string()).collect(),
    }
}

#[test]
fn no_vpn_when_utuns_have_no_address() {
    let interfaces = vec![iface("en0", true, &["192.168.1.42/24"]), iface("utun0", true, &[])];
    let status = classify_tunnels(&interfaces, Some("en0"), Vec::new());
    assert!(!status.connected);
    assert!(status.tunnels.is_empty());
}

#[test]
fn no_vpn_when_only_link_local_utuns_present() {
    let interfaces = vec![
        iface("en0", true, &["192.168.1.42/24"]),
        iface("utun0", true, &["fe80::e404:92fb:4376:3062/64"]),
        iface("utun1", true, &["fe80::665d:ab22:4c96:324e/64"]),
    ];
    let status = classify_tunnels(&interfaces, Some("en0"), Vec::new());
    assert!(!status.connected);
    assert!(status.tunnels.is_empty());
}

#[test]
fn split_tunnel_when_vpn_tunnel_present_but_primary_is_physical() {
    let interfaces = vec![iface("en0", true, &["192.168.1.42/24"]), iface("utun3", true, &["10.10.0.5/24"])];
    let status = classify_tunnels(&interfaces, Some("en0"), Vec::new());
    assert!(status.connected);
    assert!(status.split_tunnel);
    assert_eq!(status.tunnels, vec!["utun3".to_string()]);
}

#[test]
fn full_tunnel_when_primary_route_is_the_vpn_interface() {
    let interfaces = vec![iface("en0", true, &["192.168.1.42/24"]), iface("utun3", true, &["10.10.0.5/24"])];
    let status = classify_tunnels(&interfaces, Some("utun3"), Vec::new());
    assert!(status.connected);
    assert!(!status.split_tunnel);
}

#[test]
fn routed_subnets_pass_through_when_connected() {
    let interfaces = vec![iface("en0", true, &["192.168.1.42/24"]), iface("utun3", true, &["10.10.0.5/24"])];
    let status = classify_tunnels(&interfaces, Some("en0"), vec!["10.223.36.41/8".to_string()]);
    assert_eq!(status.routed_subnets, vec!["10.223.36.41/8".to_string()]);
}

#[test]
fn routed_subnets_cleared_when_not_connected() {
    let interfaces = vec![iface("en0", true, &["192.168.1.42/24"])];
    let status = classify_tunnels(&interfaces, Some("en0"), vec!["10.223.36.41/8".to_string()]);
    assert!(status.routed_subnets.is_empty());
}

#[test]
fn ppp_and_tun_count_as_tunnels_and_down_ones_do_not() {
    let interfaces = vec![
        iface("ppp0", true, &["10.1.0.2/32"]),
        iface("tun1", true, &["10.2.0.2/24"]),
        iface("utun5", false, &["10.3.0.2/24"]),
    ];
    let status = classify_tunnels(&interfaces, None, Vec::new());
    assert_eq!(status.tunnels, vec!["ppp0".to_string(), "tun1".to_string()]);
    assert!(status.connected);
    assert!(!status.split_tunnel);
    assert_eq!(status.primary_interface, None);
}

#[test]
fn mask_to_prefix_len_converts_common_masks() {
    assert_eq!(mask_to_prefix_len("255.0.0.0"), Some(8));
    assert_eq!(mask_to_prefix_len("255.255.255.0"), Some(24));
    assert_eq!(mask_to_prefix_len("255.255.255.255"), Some(32));
    assert_eq!(mask_to_prefix_len("not-an-ip"), None);
}

#[test]
fn mask_to_prefix_len_rejects_malformed_quads() {
    assert_eq!(mask_to_prefix_len("0.0.0.0"), Some(0));
    assert_eq!(mask_to_prefix_len("255.255.255.128"), Some(25));
    assert_eq!(mask_to_prefix_len("255.255.255"), None);
    assert_eq!(mask_to_prefix_len("255.255.255.256"), None);
    assert_eq!(mask_to_prefix_len("255.255.255.01"), None);
    assert_eq!(mask_to_prefix_len("255.255..0"), None);
    assert_eq!(mask_to_prefix_len("255.255.255.0."), None);
    assert_eq!(mask_to_prefix_len(""), None);
}

#[test]
fn cidr_formats_address_and_mask() {
    assert_eq!(cidr("10.223.36.41", "255.0.0.0"), "10.223.36.41/8");
    assert_eq!(cidr("192.168.68.67", "255.255.255.255"), "192.168.68.67/32");
}

#[test]
fn cidr_keeps_bare_address_for_bad_mask() {
    assert_eq!(cidr("10.0.0.1", ""), "10.0.0.1");
    assert_eq!(cidr("10.0.0.1", "garbage"), "10.0.0.1");
}

#[test]
fn own_subnet_routes_pairs_addresses_with_masks() {
    let addresses = vec!["10.0.0.1".to_string(), "10.0.0.2".to_string()];
    let masks = vec!["255.0.0.0".to_string(), "255.255.255.0".to_string()];
    assert_eq!(
        own_subnet_routes(&addresses, &masks),
        vec!["10.0.0.1/8".to_string(), "10.0.0.2/24".to_string()]
    );
}

#[test]
fn own_subnet_routes_keeps_trailing_address_when_masks_run_short() {
    let addresses = vec!["10.0.0.1".to_string(), "10.0.0.2".to_string()];
    let masks = vec!["255.0.0.0".to_string()];
    assert_eq!(
        own_subnet_routes(&addresses, &masks),
        vec!["10.0.0.1/8".to_string(), "10.0.0.2".to_string()]
    );
}

fn text(s: &str) -> PropertyValue {
    PropertyValue::Text(s.to_string())
}

fn texts(items: &[&str]) -> PropertyValue {
    PropertyValue::Array(items.iter().map(|s| text(s)).collect())
}

fn route(dest: Option<&str>, mask: Option<&str>) -> PropertyValue {
    let mut entries = Vec::new();
    if let Some(d) = dest {
        entries.push(("DestinationAddress".to_string(), text(d)));
    }
    if let Some(m) = mask {
        entries.push(("SubnetMask".to_string(), text(m)));
    }
    PropertyValue::Dict(Dictionary { entries })
}

fn store() -> Dictionary {
    let vpn_service = Dictionary {
        entries: vec![
            ("InterfaceName".to_string(), text("utun3")),
            ("Addresses".to_string(), texts(&["10.10.0.5"])),
            ("SubnetMasks".to_string(), texts(&["255.255.255.0"])),
            (
                "AdditionalRoutes".to_string(),
                PropertyValue::Array(vec![
                    route(Some("10.223.0.0"), Some("255.255.0.0")),
                    route(None, Some("255.0.0.0")),
                    route(Some("172.16.0.1"), None),
                ]),
            ),
        ],
    };
    let lan_service = Dictionary {
        entries: vec![
            ("InterfaceName".to_string(), text("en0")),
            ("Addresses".to_string(), texts(&["192.168.1.42"])),
            ("SubnetMasks".to_string(), texts(&["255.255.255.0"])),
        ],
    };
    Dictionary {
        entries: vec![
            ("State:/Network/Service/LAN/IPv4".to_string(), PropertyValue::Dict(lan_service)),
            ("State:/Network/Service/VPN/IPv4".to_string(), PropertyValue::Dict(vpn_service)),
        ],
    }
}

fn keys() -> Vec<String> {
    vec![
        "State:/Network/Service/LAN/IPv4".to_string(),
        "State:/Network/Service/VPN/IPv4".to_string(),
    ]
}

#[test]
fn routes_for_interface_reads_own_and_additional_routes() {
    assert_eq!(
        routes_for_interface(&store(), &keys(), "utun3"),
        vec!["10.10.0.5/24".to_string(), "10.223.0.0/16".to_string(), "172.16.0.1".to_string()]
    );
    assert_eq!(routes_for_interface(&store(), &keys(), "en0"), vec!["192.168.1.42/24".to_string()]);
    assert!(routes_for_interface(&store(), &keys(), "utun9").is_empty());
    assert!(routes_for_interface(&store(), &keys(), "utun").is_empty());
}

#[test]
fn vpn_status_from_store_collects_tunnel_routes() {
    let interfaces = vec![iface("en0", true, &["192.168.1.42/24"]), iface("utun3", true, &["10.10.0.5/24"])];
    let status = vpn_status_from_store(&interfaces, Some("en0"), &store(), &keys());
    assert!(status.connected);
    assert!(status.split_tunnel);
    assert_eq!(status.primary_interface, Some("en0".to_string()));
    assert_eq!(
        status.routed_subnets,
        vec!["10.10.0.5/24".to_string(), "10.223.0.0/16".to_string(), "172.16.0.1".to_string()]
    );
    let lan_only = vec![iface("en0", true, &["192.168.1.42/24"])];
    assert!(vpn_status_from_store(&lan_only, Some("en0"), &store(), &keys()).routed_subnets.is_empty());
}

#[test]
fn build_gateway_ips_orders_v4_before_v6() {
    assert_eq!(
        build_gateway_ips(&["192.168.1.1".to_string()], &["fe80::1".to_string()]),
        vec!["192.168.1.1".to_string(), "fe80::1".to_string()]
    );
}

#[test]
fn build_gateway_ips_empty_when_device_has_no_addresses() {
    assert!(build_gateway_ips(&[], &[]).is_empty());
}
