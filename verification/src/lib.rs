//! Network status diagnostics: interface, VPN, DNS, proxy, Wi-Fi and
//! reachability classification, with verified contracts.
pub mod captive_portal;
pub mod cli;
pub mod dns;
pub mod gateway;
pub mod interfaces;
pub mod ip_stack;
pub mod ipv4;
pub mod json;
pub mod plist;
pub mod probes;
pub mod proxy;
pub mod site;
pub mod status;
pub mod text;
pub mod tui;
pub mod vpn;
pub mod watch;
pub mod wifi;

pub use captive_portal::{CaptivePortalStatus, captive_portal_from_probe, classify_response};
pub use cli::{Cli, Command};
pub use dns::{
    DnsService, Resolver, build_resolver, has_split_dns, interface_name_for_service,
    nameserver_ips, resolvers_for_services, vpn_scoped_domains,
};
pub use gateway::build_gateway_ips;
pub use interfaces::{
    AddressClass, Interface, InterfaceClass, RawInterface, build_interface, classify_address,
    classify_interface, is_link_local,
};
pub use ip_stack::{IpStack, detect_ip_stack};
pub use json::JsonValue;
pub use plist::{Dictionary, PropertyValue};
pub use probes::{
    ConnectResult, PingResult, ResolutionResult, build_connect_result, build_result, ping_result,
};
pub use proxy::{ProxyConfig, ProxyEndpoint, proxy_config_from_dict};
pub use status::{
    ConnectionConfidence, CoreSignals, NetworkStatus, PartialStatus, ProbeGroup, StatusField,
    WatchCommand, cap_for_captive_portal, confidence_from, confidence_only, majority_ok, upsert_by,
};
pub use vpn::{
    VpnStatus, cidr, classify_tunnels, mask_to_prefix_len, own_subnet_routes,
    routes_for_interface, vpn_status_from_store,
};
pub use wifi::{
    ChannelBand, ChannelWidth, PhyMode, Security, WifiIdentity, WifiRadio, WifiStatus,
    format_channel, format_phy_mode, format_security, parse_signal_noise, parse_wifi_json,
    parse_wifi_report,
    wifi_radio_from, wifi_status,
};
