//! Results of the individual reachability probes: ICMP ping, TCP connect
//! and DNS resolution. Timings are whole nanoseconds.
use vstd::prelude::*;
use vstd::string::StringExecFns;

verus! {

/// Well-known public IPs the reachability probes ping: Cloudflare, Google,
/// Quad9 and OpenDNS anycast resolvers.
pub const DEFAULT_PING_TARGETS: [&'static str; 7] = [
    "1.0.0.1",
    "1.1.1.1",
    "8.8.4.4",
    "8.8.8.8",
    "9.9.9.9",
    "208.67.220.220",
    "208.67.222.222",
];

/// Well-known public IPv6 anycast targets: Cloudflare, Google, Quad9.
pub const DEFAULT_PING_TARGETS_V6: [&'static str; 5] = [
    "2001:4860:4860::8844",
    "2001:4860:4860::8888",
    "2606:4700:4700::1001",
    "2606:4700:4700::1111",
    "2620:fe::fe",
];

/// Well-known domains resolved (and TCP-connected to) to check that DNS
/// resolution and the web actually work.
pub const DEFAULT_RESOLUTION_TARGETS: [&'static str; 7] = [
    "amazon.com",
    "apple.com",
    "cloudflare.com",
    "github.com",
    "google.com",
    "microsoft.com",
    "wikipedia.org",
];

/// Result of a single ping probe against a target host.
#[derive(Debug, Clone, PartialEq)]
pub struct PingResult {
    pub target: String,
    pub reachable: bool,
    pub rtt_ns: Option<u64>,
}

/// Result of a single TCP connect probe against a target host and port.
#[derive(Debug, Clone, PartialEq)]
pub struct ConnectResult {
    pub target: String,
    pub port: u16,
    pub reachable: bool,
    pub rtt_ns: Option<u64>,
}

/// Result of resolving a single domain name.
#[derive(Debug, Clone, PartialEq)]
pub struct ResolutionResult {
    pub domain: String,
    pub resolved: bool,
    pub addresses: Vec<String>,
    pub duration_ns: Option<u64>,
}

/// The result of one ping: reachable exactly when an echo reply came back
/// (`rtt_ns` is its round-trip time). A target that is not an IP address
/// literal is never probed and reads as unreachable.
pub fn ping_result(target: &str, rtt_ns: Option<u64>) -> (r: PingResult)
    ensures
        r.target@ == target@,
        r.reachable == rtt_ns is Some,
        r.rtt_ns == rtt_ns,
{
    PingResult { target: String::from_str(target), reachable: rtt_ns.is_some(), rtt_ns }
}

/// The result of one TCP connect attempt: the elapsed time is reported only
/// when the handshake completed.
pub fn build_connect_result(target: &str, port: u16, success: bool, elapsed_ns: u64) -> (r:
    ConnectResult)
    ensures
        r.target@ == target@,
        r.port == port,
        r.reachable == success,
        r.rtt_ns == (if success {
            Some(elapsed_ns)
        } else {
            None
        }),
{
    ConnectResult {
        target: String::from_str(target),
        port,
        reachable: success,
        rtt_ns: if success {
            Some(elapsed_ns)
        } else {
            None
        },
    }
}

/// The result of one lookup. `lookup` holds the addresses found, as text,
/// or `None` when the lookup failed; a lookup that found no address counts
/// as failed too, and a failed lookup reports no timing.
pub fn build_result(domain: &str, lookup: Option<Vec<String>>, elapsed_ns: u64) -> (r:
    ResolutionResult)
    ensures
        r.domain@ == domain@,
        r.resolved == (lookup matches Some(a) && a.len() > 0),
        r.resolved ==> r.addresses@ == lookup->0@ && r.duration_ns == Some(elapsed_ns),
        !r.resolved ==> r.addresses.len() == 0 && r.duration_ns is None,
{
    match lookup {
        Some(addrs) => {
            if addrs.len() > 0 {
                return ResolutionResult {
                    domain: String::from_str(domain),
                    resolved: true,
                    addresses: addrs,
                    duration_ns: Some(elapsed_ns),
                };
            }
        },
        None => {},
    }
    ResolutionResult {
        domain: String::from_str(domain),
        resolved: false,
        addresses: Vec::new(),
        duration_ns: None,
    }
}

} // verus!
