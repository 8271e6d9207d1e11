use netstatus::tui::{
    AUTO_REFRESH_DEFAULT, DashboardAction, KeyInput, Tab, address_tag, addresses_text,
    dashboard_key, endpoint_line, footer, interface_class_label, interface_detail_rows,
    ip_stack_text, join_strings, pad_to, proxy_lines, resolver_label, resolver_scope,
    shown_resolvers, vpn_lines, wifi_lines,
};
use netstatus::watch::{CheckScope, command_scope, forwards};
use netstatus::WatchCommand;
use netstatus::{
    AddressClass, Interface, InterfaceClass, IpStack, ProxyConfig, ProxyEndpoint, Resolver,
    VpnStatus, WifiIdentity, WifiRadio,
};

fn strings(items: &[&str]) -> Vec<String> {
    items.iter().map(|s| s.to_string()).collect()
}

fn resolver(domain: Option<&str>, search: &[&str], servers: &[&str], if_name: Option<&str>) -> Resolver {
    Resolver {
        domain: domain.map(str::to_string),
        search_domains: strings(search),
        nameservers: strings(servers),
        if_index: None,
        if_name: if_name.map(str::to_string),
        scoped: if_name.is_some(),
        reachable: true,
    }
}

#[test]
fn join_strings_separates_items() {
    assert_eq!(join_strings(&strings(&["a", "b", "c"]), ", "), "a, b, c");
    assert_eq!(join_strings(&strings(&["only"]), ", "), "only");
    assert_eq!(join_strings(&[], ", "), "");
}

#[test]
fn interface_row_texts() {
    assert_eq!(interface_class_label(InterfaceClass::Routable), "UP, ROUTABLE    ");
    assert_eq!(interface_class_label(InterfaceClass::Down), "DOWN            ");
    assert_eq!(address_tag(AddressClass::RoutableV6), "routable v6");
    let bare = Interface {
        name: "bridge0".to_string(),
        up: true,
        loopback: false,
        addresses: Vec::new(),
    };
    assert_eq!(addresses_text(&bare), "-");
    let en0 = Interface {
        name: "en0".to_string(),
        up: true,
        loopback: false,
        addresses: strings(&["192.168.1.2/24", "fe80::1/64"]),
    };
    assert_eq!(addresses_text(&en0), "192.168.1.2/24, fe80::1/64");
}

#[test]
fn vpn_panel_lists_state_then_optional_details() {
    let vpn = VpnStatus {
        tunnels: strings(&["utun3"]),
        primary_interface: Some("en0".to_string()),
        connected: true,
        split_tunnel: true,
        routed_subnets: strings(&["10.8.0.2/24", "10.0.0.0/8"]),
    };
    let resolvers = vec![resolver(Some("corp.example.com"), &[], &["10.10.10.10"], Some("utun3"))];
    assert_eq!(
        vpn_lines(&vpn, Some(true), Some(&resolvers)),
        strings(&[
            "Primary: en0",
            "VPN connected: true",
            "Split tunnel: true",
            "Split DNS: true",
            "Tunnels: utun3",
            "Routed subnets: 10.8.0.2/24, 10.0.0.0/8",
            "VPN domains: corp.example.com",
        ])
    );

    let idle = VpnStatus {
        tunnels: Vec::new(),
        primary_interface: None,
        connected: false,
        split_tunnel: false,
        routed_subnets: Vec::new(),
    };
    assert_eq!(
        vpn_lines(&idle, None, None),
        strings(&[
            "Primary: unknown",
            "VPN connected: false",
            "Split tunnel: false",
            "Split DNS: collecting...",
        ])
    );
}

#[test]
fn dns_panel_skips_resolvers_without_nameservers() {
    let resolvers = vec![
        resolver(None, &["lan"], &["192.168.1.1"], Some("en0")),
        resolver(Some("empty.example"), &[], &[], None),
        resolver(None, &[], &["1.1.1.1"], None),
    ];
    let shown = shown_resolvers(&resolvers);
    assert_eq!(shown.len(), 2);
    assert_eq!(resolver_label(shown[0]), "lan");
    assert_eq!(resolver_scope(shown[0]), "en0");
    assert_eq!(resolver_label(shown[1]), "*");
    assert_eq!(resolver_scope(shown[1]), "any");
    assert_eq!(resolver_label(&resolvers[1]), "empty.example");
}

#[test]
fn proxy_panel_shows_endpoints_pac_and_exceptions() {
    let config = ProxyConfig {
        http: ProxyEndpoint {
            enabled: true,
            host: Some("proxy.example.com".to_string()),
            port: Some(8080),
        },
        https: ProxyEndpoint {
            enabled: true,
            host: None,
            port: None,
        },
        socks: ProxyEndpoint {
            enabled: false,
            host: Some("ignored".to_string()),
            port: Some(1080),
        },
        pac_url: Some("http://wpad/wpad.dat".to_string()),
        exceptions: strings(&["*.local", "169.254/16"]),
    };
    assert_eq!(
        proxy_lines(&config),
        strings(&[
            "HTTP: proxy.example.com:8080",
            "HTTPS: ?:?",
            "SOCKS: off",
            "PAC: http://wpad/wpad.dat",
            "Exceptions: *.local, 169.254/16",
        ])
    );
    assert_eq!(
        proxy_lines(&ProxyConfig::default()),
        strings(&["HTTP: off", "HTTPS: off", "SOCKS: off", "PAC: off"])
    );
    assert_eq!(endpoint_line("HTTP", &config.http), "HTTP: proxy.example.com:8080");
}

#[test]
fn ip_stack_panel_texts() {
    assert_eq!(ip_stack_text(None), "Collecting...");
    assert_eq!(ip_stack_text(Some(IpStack::DualStack)), "Dual-stack (IPv4 + IPv6)");
    assert_eq!(ip_stack_text(Some(IpStack::Neither)), "No routable address");
}

#[test]
fn wifi_panel_renders_each_half_as_it_arrives() {
    assert_eq!(wifi_lines(None, None), strings(&["Collecting..."]));
    let offline = WifiIdentity {
        connected: false,
        ssid: None,
    };
    let radio = WifiRadio {
        channel: Some("36 (5GHz, 80MHz)".to_string()),
        signal_dbm: Some(-52),
        noise_dbm: None,
        security: Some("WPA2 Personal".to_string()),
        phy_mode: Some("802.11ac".to_string()),
    };
    assert_eq!(wifi_lines(Some(&offline), Some(&radio)), strings(&["Not connected"]));
    assert_eq!(
        wifi_lines(None, Some(&radio)),
        strings(&[
            "SSID: collecting...",
            "Channel: 36 (5GHz, 80MHz)",
            "Signal: -52 dBm",
            "Noise: -",
            "Security: WPA2 Personal",
            "PHY mode: 802.11ac",
        ])
    );
    let home = WifiIdentity {
        connected: true,
        ssid: Some("Home".to_string()),
    };
    assert_eq!(
        wifi_lines(Some(&home), None),
        strings(&["SSID: Home", "Channel/signal: collecting..."])
    );
}

#[test]
fn footer_shows_auto_refresh_state_age_and_version() {
    assert_eq!(
        footer(false, None, "dev"),
        "q: quit   r: refresh now   a: auto-refresh (off)   1-4: tabs      netcheck dev"
    );
    assert_eq!(
        footer(true, Some(42), "1.2.3"),
        "q: quit   r: refresh now   a: auto-refresh (on)   1-4: tabs   updated 42s ago   netcheck 1.2.3"
    );
}

#[test]
fn dashboard_keys_map_to_actions() {
    assert_eq!(dashboard_key(KeyInput::Char('q')), DashboardAction::Quit);
    assert_eq!(dashboard_key(KeyInput::Esc), DashboardAction::Quit);
    assert_eq!(dashboard_key(KeyInput::Char('r')), DashboardAction::RefreshNow);
    assert_eq!(dashboard_key(KeyInput::Char('a')), DashboardAction::ToggleAutoRefresh);
    assert_eq!(dashboard_key(KeyInput::Char('1')), DashboardAction::ShowTab(Tab::Overview));
    assert_eq!(dashboard_key(KeyInput::Char('2')), DashboardAction::ShowTab(Tab::Dns));
    assert_eq!(dashboard_key(KeyInput::Char('3')), DashboardAction::ShowTab(Tab::Reachability));
    assert_eq!(dashboard_key(KeyInput::Char('4')), DashboardAction::ShowTab(Tab::Wifi));
    assert_eq!(dashboard_key(KeyInput::Char('5')), DashboardAction::Ignore);
    assert_eq!(dashboard_key(KeyInput::Char('Q')), DashboardAction::Ignore);
    assert_eq!(dashboard_key(KeyInput::Other), DashboardAction::Ignore);
    assert!(AUTO_REFRESH_DEFAULT);
}

#[test]
fn interface_detail_rows_pad_addresses_and_tag_them() {
    let en0 = Interface {
        name: "en0".to_string(),
        up: true,
        loopback: false,
        addresses: strings(&["192.168.68.186/24", "fe80::42f:a459:cbee:c64e/64"]),
    };
    assert_eq!(
        interface_detail_rows(&en0),
        vec![
            ("en0".to_string(), None),
            (
                "  192.168.68.186/24           ".to_string(),
                Some(AddressClass::RoutableV4)
            ),
            (
                "  fe80::42f:a459:cbee:c64e/64 ".to_string(),
                Some(AddressClass::LinkLocal)
            ),
        ]
    );
    let bare = Interface {
        name: "bridge0".to_string(),
        up: true,
        loopback: false,
        addresses: Vec::new(),
    };
    assert_eq!(
        interface_detail_rows(&bare),
        vec![
            ("bridge0".to_string(), None),
            ("  (no addresses)".to_string(), None)
        ]
    );
    assert_eq!(pad_to("abc", 5), "abc  ");
    assert_eq!(pad_to("abcdef", 5), "abcdef");
}

#[test]
fn only_the_latest_check_is_forwarded_and_refresh_runs_a_full_check() {
    assert!(forwards(3, 3));
    assert!(!forwards(4, 3));
    assert_eq!(command_scope(WatchCommand::Refresh), CheckScope::Full);
}
