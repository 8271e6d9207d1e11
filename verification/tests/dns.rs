use netstatus::{
    Dictionary, DnsService, PropertyValue, Resolver, build_resolver, has_split_dns,
    interface_name_for_service, nameserver_ips, resolvers_for_services, vpn_scoped_domains,
};

fn text(s: &str) -> PropertyValue {
    PropertyValue::Text(s.to_string())
}

fn texts(items: &[&str]) -> PropertyValue {
    PropertyValue::Array(items.iter().map(|s| text(s)).collect())
}

fn dns_dict(domain: Option<&str>, search: &[&str], servers: &[&str]) -> Dictionary {
    let mut entries = Vec::new();
    if let Some(d) = domain {
        entries.push(("DomainName".to_string(), text(d)));
    }
    entries.push(("SearchDomains".to_string(), texts(search)));
    entries.push(("ServerAddresses".to_string(), texts(servers)));
    Dictionary { entries }
}

#[test]
fn builds_scoped_resolver_from_dns_dict() {
    let dict = dns_dict(Some("corp.example.com"), &["lan"], &["10.10.10.10"]);
    let r = build_resolver(&dict, Some("utun3".to_string()), Some(20), true, true);
    assert_eq!(r.domain, Some("corp.example.com".to_string()));
    assert_eq!(r.search_domains, vec!["lan".to_string()]);
    assert_eq!(r.nameservers, vec!["10.10.10.10".to_string()]);
    assert_eq!(r.if_name, Some("utun3".to_string()));
    assert_eq!(r.if_index, Some(20));
    assert!(r.scoped);
    assert!(r.reachable);
}

#[test]
fn builds_unscoped_resolver_with_no_interface() {
    let dict = dns_dict(None, &[], &["9.9.9.9"]);
    let r = build_resolver(&dict, None, None, false, true);
    assert!(!r.scoped);
    assert_eq!(r.if_name, None);
    assert_eq!(r.if_index, None);
}

fn resolver(
    domain: Option<&str>,
    search_domains: &[&str],
    nameservers: &[&str],
    if_index: Option<u32>,
    if_name: Option<&str>,
) -> Resolver {
    Resolver {
        domain: domain.map(String::from),
        search_domains: search_domains.iter().map(|s| s.to_string()).collect(),
        nameservers: nameservers.iter().map(|s| s.to_string()).collect(),
        if_index,
        if_name: if_name.map(String::from),
        scoped: true,
        reachable: true,
    }
}

fn en0_resolver() -> Resolver {
    resolver(None, &[], &["9.9.9.9"], Some(11), Some("en0"))
}

fn utun3_resolver() -> Resolver {
    resolver(Some("corp.example.com"), &[], &["10.10.10.10"], Some(20), Some("utun3"))
}

#[test]
fn detects_split_dns_via_vpn_tunnel() {
    let resolvers = vec![en0_resolver(), utun3_resolver()];
    assert!(has_split_dns(&resolvers));
}

#[test]
fn no_split_dns_when_no_scoped_tunnel_resolver() {
    assert!(!has_split_dns(&[en0_resolver()]));
}

#[test]
fn unscoped_tunnel_resolver_is_not_split_dns() {
    let mut r = utun3_resolver();
    r.scoped = false;
    assert!(!has_split_dns(&[r.clone()]));
    assert!(vpn_scoped_domains(&[r]).is_empty());
}

#[test]
fn vpn_scoped_domains_collects_tunnel_resolver_domains() {
    let utun4_resolver = resolver(None, &["vpn.example.net"], &["192.0.2.31"], Some(19), Some("utun4"));
    let resolvers = vec![en0_resolver(), utun3_resolver(), utun4_resolver];
    assert_eq!(
        vpn_scoped_domains(&resolvers),
        vec!["corp.example.com".to_string(), "vpn.example.net".to_string()]
    );
}

#[test]
fn vpn_scoped_domains_empty_without_tunnel_resolver() {
    let lan_resolver = resolver(Some("lan"), &[], &["9.9.9.9"], Some(11), Some("en0"));
    assert!(vpn_scoped_domains(&[lan_resolver]).is_empty());
}

#[test]
fn vpn_scoped_domains_lists_each_domain_once() {
    let resolvers = vec![utun3_resolver(), utun3_resolver(), en0_resolver()];
    assert_eq!(vpn_scoped_domains(&resolvers), vec!["corp.example.com".to_string()]);
}

fn service_dict(if_name: &str) -> PropertyValue {
    PropertyValue::Dict(Dictionary { entries: vec![("InterfaceName".to_string(), text(if_name))] })
}

#[test]
fn interface_name_comes_from_ipv4_then_ipv6_dictionary() {
    let store = Dictionary {
        entries: vec![
            ("State:/Network/Service/A/IPv4".to_string(), service_dict("en0")),
            ("State:/Network/Service/B/IPv6".to_string(), service_dict("utun3")),
        ],
    };
    assert_eq!(
        interface_name_for_service(&store, "State:/Network/Service/A/DNS"),
        Some("en0".to_string())
    );
    assert_eq!(
        interface_name_for_service(&store, "State:/Network/Service/B/DNS"),
        Some("utun3".to_string())
    );
    assert_eq!(interface_name_for_service(&store, "State:/Network/Service/C/DNS"), None);
}

#[test]
fn primary_service_is_listed_again_unscoped() {
    let services = vec![
        DnsService {
            key: "State:/Network/Service/AAA/DNS".to_string(),
            dns: dns_dict(None, &["lan"], &["192.168.1.1"]),
            if_name: Some("en0".to_string()),
            if_index: Some(11),
            reachable: true,
        },
        DnsService {
            key: "State:/Network/Service/BBB/DNS".to_string(),
            dns: dns_dict(Some("corp.example.com"), &[], &["10.10.10.10"]),
            if_name: Some("utun3".to_string()),
            if_index: Some(20),
            reachable: false,
        },
    ];
    let rs = resolvers_for_services(&services, Some("AAA"));
    assert_eq!(rs.len(), 3);
    assert!(rs[0].scoped);
    assert_eq!(rs[0].if_name, Some("en0".to_string()));
    assert!(!rs[1].scoped);
    assert_eq!(rs[1].if_name, None);
    assert_eq!(rs[1].if_index, None);
    assert_eq!(rs[1].nameservers, vec!["192.168.1.1".to_string()]);
    assert_eq!(rs[2].domain, Some("corp.example.com".to_string()));
    assert!(!rs[2].reachable);
    assert_eq!(resolvers_for_services(&services, None).len(), 2);
    assert_eq!(resolvers_for_services(&services, Some("AA")).len(), 2);
}

fn with_servers(servers: &[&str]) -> Resolver {
    Resolver {
        domain: None,
        search_domains: Vec::new(),
        nameservers: servers.iter().map(|s| s.to_string()).collect(),
        if_index: None,
        if_name: None,
        scoped: false,
        reachable: true,
    }
}

#[test]
fn nameserver_ips_lists_each_address_once_in_first_seen_order() {
    let resolvers = vec![
        with_servers(&["10.0.0.1", "1.1.1.1"]),
        with_servers(&["1.1.1.1"]),
        with_servers(&[]),
        with_servers(&["10.0.0.1", "2606:4700:4700::1111"]),
    ];
    assert_eq!(
        nameserver_ips(&resolvers),
        vec![
            "10.0.0.1".to_string(),
            "1.1.1.1".to_string(),
            "2606:4700:4700::1111".to_string()
        ]
    );
    assert!(nameserver_ips(&[]).is_empty());
}
