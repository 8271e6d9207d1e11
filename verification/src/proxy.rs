//! The system's configured HTTP/HTTPS/SOCKS/PAC proxy settings.
use vstd::prelude::*;
use crate::interfaces::texts;
use crate::plist::{Dictionary, bool_at, cf_bool, cf_port, cf_string, cf_string_array, port_at, text_array_at, text_at};
use crate::vpn::opt_text;

verus! {

#[derive(Debug, Clone, PartialEq)]
pub struct ProxyEndpoint {
    pub enabled: bool,
    pub host: Option<String>,
    pub port: Option<u16>,
}

impl Default for ProxyEndpoint {
    fn default() -> (r: Self)
        ensures
            !r.enabled,
            r.host is None,
            r.port is None,
    {
        ProxyEndpoint { enabled: false, host: None, port: None }
    }
}

#[derive(Debug, Clone, PartialEq)]
pub struct ProxyConfig {
    pub http: ProxyEndpoint,
    pub https: ProxyEndpoint,
    pub socks: ProxyEndpoint,
    pub pac_url: Option<String>,
    pub exceptions: Vec<String>,
}

pub open spec fn endpoint_off(e: ProxyEndpoint) -> bool {
    !e.enabled && e.host is None && e.port is None
}

impl Default for ProxyConfig {
    /// No proxy configured.
    fn default() -> (r: Self)
        ensures
            endpoint_off(r.http),
            endpoint_off(r.https),
            endpoint_off(r.socks),
            r.pac_url is None,
            r.exceptions.len() == 0,
    {
        ProxyConfig {
            http: ProxyEndpoint::default(),
            https: ProxyEndpoint::default(),
            socks: ProxyEndpoint::default(),
            pac_url: None,
            exceptions: Vec::new(),
        }
    }
}

/// The endpoint read from its enable flag, host and port keys.
pub open spec fn endpoint_from(
    e: ProxyEndpoint,
    d: Dictionary,
    enable_key: Seq<char>,
    host_key: Seq<char>,
    port_key: Seq<char>,
) -> bool {
    &&& e.enabled == bool_at(d, enable_key)
    &&& opt_text(e.host) == text_at(d, host_key)
    &&& e.port == port_at(d, port_key)
}

fn endpoint(dict: &Dictionary, enable_key: &str, host_key: &str, port_key: &str) -> (e: ProxyEndpoint)
    ensures
        endpoint_from(e, *dict, enable_key@, host_key@, port_key@),
{
    ProxyEndpoint {
        enabled: cf_bool(dict, enable_key),
        host: cf_string(dict, host_key),
        port: cf_port(dict, port_key),
    }
}

/// Builds a `ProxyConfig` from the proxies dictionary of the dynamic
/// store. The PAC URL counts only while `ProxyAutoConfigEnable` is set.
pub fn proxy_config_from_dict(dict: &Dictionary) -> (r: ProxyConfig)
    ensures
        endpoint_from(r.http, *dict, "HTTPEnable"@, "HTTPProxy"@, "HTTPPort"@),
        endpoint_from(r.https, *dict, "HTTPSEnable"@, "HTTPSProxy"@, "HTTPSPort"@),
        endpoint_from(r.socks, *dict, "SOCKSEnable"@, "SOCKSProxy"@, "SOCKSPort"@),
        opt_text(r.pac_url) == (if bool_at(*dict, "ProxyAutoConfigEnable"@) {
            text_at(*dict, "ProxyAutoConfigURLString"@)
        } else {
            None
        }),
        texts(r.exceptions@) == text_array_at(*dict, "ExceptionsList"@),
{
    let exceptions = cf_string_array(dict, "ExceptionsList");
    ProxyConfig {
        http: endpoint(dict, "HTTPEnable", "HTTPProxy", "HTTPPort"),
        https: endpoint(dict, "HTTPSEnable", "HTTPSProxy", "HTTPSPort"),
        socks: endpoint(dict, "SOCKSEnable", "SOCKSProxy", "SOCKSPort"),
        pac_url: if cf_bool(dict, "ProxyAutoConfigEnable") {
            cf_string(dict, "ProxyAutoConfigURLString")
        } else {
            None
        },
        exceptions,
    }
}

} // verus!
