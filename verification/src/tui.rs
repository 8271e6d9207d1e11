//! Text layout decisions of the interactive dashboard.
use vstd::prelude::*;
use vstd::string::StringExecFns;
use vstd::multiset::Multiset;
use crate::interfaces::{
    AddressClass, Interface, InterfaceClass, class_rank, classify_address, classify_address_spec,
    classify_interface, classify_interface_spec, texts,
};
use crate::dns::{Resolver, domain_of, scoped_domains, vpn_scoped_domains};
use crate::ip_stack::IpStack;
use crate::proxy::{ProxyConfig, ProxyEndpoint};
use crate::site::join;
use crate::text::{decimal, decimal_string, signed_decimal, signed_decimal_string};
use crate::vpn::{VpnStatus, opt_text};
use crate::wifi::{WifiIdentity, WifiRadio};

verus! {

/// `n` spaces.
pub open spec fn spaces(n: nat) -> Seq<char> {
    Seq::new(n, |i: int| ' ')
}

/// `text` padded with spaces to `width` characters; text longer than the
/// column is kept whole.
pub open spec fn padded(text: Seq<char>, width: nat) -> Seq<char> {
    text + spaces(if text.len() < width {
        (width - text.len()) as nat
    } else {
        0
    })
}

/// `text` padded to `width` characters, then one separating space.
pub open spec fn pad_col_spec(text: Seq<char>, width: nat) -> Seq<char> {
    padded(text, width) + seq![' ']
}

/// Pads `text` with spaces to `width` characters.
pub fn pad_to(text: &str, width: usize) -> (r: String)
    ensures
        r@ == padded(text@, width as nat),
{
    let n = text.unicode_len();
    let mut s = String::from_str(text);
    let pad = if n < width {
        width - n
    } else {
        0
    };
    let mut k: usize = 0;
    proof { reveal_strlit(" "); }
    while k < pad
        invariant
            0 <= k <= pad,
            " "@ == seq![' '],
            s@ == text@ + spaces(k as nat),
        decreases pad - k,
    {
        s.append(" ");
        assert(spaces((k + 1) as nat) == spaces(k as nat).push(' '));
        k = k + 1;
    }
    s
}

/// Pads `text` to `width` columns with a single trailing separator space,
/// so a column's text never runs into the next one.
pub fn pad_col(text: &str, width: usize) -> (r: String)
    ensures
        r@ == pad_col_spec(text@, width as nat),
{
    proof { reveal_strlit(" "); }
    pad_to(text, width).concat(" ")
}

/// `now` under three seconds, then whole seconds under a minute, whole
/// minutes under an hour, whole hours beyond.
pub open spec fn format_age_spec(secs: nat) -> Seq<char> {
    if secs < 3 {
        "now"@
    } else if secs < 60 {
        decimal(secs) + "s"@
    } else if secs < 3600 {
        decimal(secs / 60) + "m"@
    } else {
        decimal(secs / 3600) + "h"@
    }
}

/// Formats an elapsed time in seconds for the footer.
pub fn format_age(elapsed_secs: u64) -> (r: String)
    ensures
        r@ == format_age_spec(elapsed_secs as nat),
{
    let secs = elapsed_secs;
    if secs < 3 {
        String::from_str("now")
    } else if secs < 60 {
        decimal_string(secs).concat("s")
    } else if secs < 3600 {
        decimal_string(secs / 60).concat("m")
    } else {
        decimal_string(secs / 3600).concat("h")
    }
}

/// `items` joined with `sep` between consecutive items.
pub fn join_strings(items: &[String], sep: &str) -> (r: String)
    ensures
        r@ == join(texts(items@), sep@),
{
    if items.len() == 0 {
        return String::new();
    }
    let mut s = items[0].clone();
    assert(texts(items@).take(1) == seq![items@[0]@]);
    let mut i: usize = 1;
    while i < items.len()
        invariant
            1 <= i <= items.len(),
            s@ == join(texts(items@).take(i as int), sep@),
        decreases items.len() - i,
    {
        let ghost t = texts(items@).take(i + 1);
        assert(t.drop_last() == texts(items@).take(i as int));
        assert(t.last() == items@[i as int]@);
        s = s.concat(sep).concat(items[i].as_str());
        i = i + 1;
    }
    assert(texts(items@).take(items.len() as int) == texts(items@));
    s
}

pub open spec fn bool_text(b: bool) -> Seq<char> {
    if b {
        "true"@
    } else {
        "false"@
    }
}

fn bool_string(b: bool) -> (r: String)
    ensures
        r@ == bool_text(b),
{
    if b {
        String::from_str("true")
    } else {
        String::from_str("false")
    }
}

/// The text of an optional value, `fallback` when there is none.
pub open spec fn text_or(v: Option<Seq<char>>, fallback: Seq<char>) -> Seq<char> {
    match v {
        Some(t) => t,
        None => fallback,
    }
}

fn string_or(v: &Option<String>, fallback: &str) -> (r: String)
    ensures
        r@ == text_or(opt_text(*v), fallback@),
{
    match v {
        Some(t) => t.clone(),
        None => String::from_str(fallback),
    }
}

/// The state column of an interface row, padded to a fixed width.
pub open spec fn class_label(c: InterfaceClass) -> Seq<char> {
    match c {
        InterfaceClass::Down => "DOWN            "@,
        InterfaceClass::Unaddressed => "UP, NO ADDRESS  "@,
        InterfaceClass::LinkLocalOnly => "UP, LINK-LOCAL  "@,
        InterfaceClass::Routable => "UP, ROUTABLE    "@,
    }
}

pub fn interface_class_label(class: InterfaceClass) -> (r: &'static str)
    ensures
        r@ == class_label(class),
{
    match class {
        InterfaceClass::Down => "DOWN            ",
        InterfaceClass::Unaddressed => "UP, NO ADDRESS  ",
        InterfaceClass::LinkLocalOnly => "UP, LINK-LOCAL  ",
        InterfaceClass::Routable => "UP, ROUTABLE    ",
    }
}

/// The tag shown beside one address in the interface detail.
pub open spec fn address_tag_text(a: AddressClass) -> Seq<char> {
    match a {
        AddressClass::LinkLocal => "link-local"@,
        AddressClass::RoutableV4 => "routable v4"@,
        AddressClass::RoutableV6 => "routable v6"@,
    }
}

pub fn address_tag(a: AddressClass) -> (r: &'static str)
    ensures
        r@ == address_tag_text(a),
{
    match a {
        AddressClass::LinkLocal => "link-local",
        AddressClass::RoutableV4 => "routable v4",
        AddressClass::RoutableV6 => "routable v6",
    }
}

/// An interface's addresses joined with commas, `-` when it has none.
pub open spec fn addresses_text_spec(i: Interface) -> Seq<char> {
    if i.addresses.len() == 0 {
        "-"@
    } else {
        join(texts(i.addresses@), ", "@)
    }
}

pub fn addresses_text(i: &Interface) -> (r: String)
    ensures
        r@ == addresses_text_spec(*i),
{
    if i.addresses.len() == 0 {
        String::from_str("-")
    } else {
        join_strings(i.addresses.as_slice(), ", ")
    }
}

/// The rows of one interface in the interface detail: its name, then each
/// address padded to its column with the address's class (for the tag),
/// or a single placeholder row when it has no address.
pub open spec fn detail_rows_spec(i: Interface) -> Seq<(Seq<char>, Option<AddressClass>)> {
    seq![(i.name@, None::<AddressClass>)] + if i.addresses.len() == 0 {
        seq![("  (no addresses)"@, None::<AddressClass>)]
    } else {
        i.addresses@.map_values(|a: String| address_row(a))
    }
}

/// One address row: the address indented and padded, with its class.
pub open spec fn address_row(a: String) -> (Seq<char>, Option<AddressClass>) {
    ("  "@ + padded(a@, 28), Some(classify_address_spec(a@)))
}

pub open spec fn row_views(v: Seq<(String, Option<AddressClass>)>) -> Seq<
    (Seq<char>, Option<AddressClass>),
> {
    v.map_values(|p: (String, Option<AddressClass>)| (p.0@, p.1))
}

pub fn interface_detail_rows(i: &Interface) -> (r: Vec<(String, Option<AddressClass>)>)
    ensures
        row_views(r@) == detail_rows_spec(*i),
{
    let mut rows: Vec<(String, Option<AddressClass>)> = Vec::new();
    rows.push((i.name.clone(), None));
    if i.addresses.len() == 0 {
        rows.push((String::from_str("  (no addresses)"), None));
        assert(row_views(rows@) =~= detail_rows_spec(*i));
        return rows;
    }
    let ghost head = row_views(rows@);
    let mut k: usize = 0;
    while k < i.addresses.len()
        invariant
            0 <= k <= i.addresses.len(),
            head == seq![(i.name@, None::<AddressClass>)],
            row_views(rows@) == head + i.addresses@.take(k as int).map_values(
                |a: String| address_row(a),
            ),
        decreases i.addresses.len() - k,
    {
        let a = &i.addresses[k];
        let cell = String::from_str("  ").concat(pad_to(a.as_str(), 28).as_str());
        let class = classify_address(a.as_str());
        let ghost before = row_views(rows@);
        rows.push((cell, Some(class)));
        assert(row_views(rows@) =~= before.push(address_row(*a)));
        assert(i.addresses@.take(k + 1) == i.addresses@.take(k as int).push(*a));
        assert(i.addresses@.take(k + 1).map_values(|a: String| address_row(a)) =~= i.addresses@.take(
            k as int,
        ).map_values(|a: String| address_row(a)).push(address_row(*a)));
        assert(row_views(rows@) =~= head + i.addresses@.take(k + 1).map_values(
            |a: String| address_row(a),
        ));
        k = k + 1;
    }
    assert(i.addresses@.take(i.addresses.len() as int) == i.addresses@);
    rows
}

/// The lines of the VPN panel.
pub open spec fn vpn_lines_spec(
    vpn: VpnStatus,
    split_dns: Option<bool>,
    resolvers: Option<Seq<Resolver>>,
) -> Seq<Seq<char>> {
    let base = seq![
        "Primary: "@ + text_or(opt_text(vpn.primary_interface), "unknown"@),
        "VPN connected: "@ + bool_text(vpn.connected),
        "Split tunnel: "@ + bool_text(vpn.split_tunnel),
        "Split DNS: "@ + (match split_dns {
            Some(b) => bool_text(b),
            None => "collecting..."@,
        }),
    ];
    let with_tunnels = if vpn.tunnels.len() > 0 {
        base.push("Tunnels: "@ + join(texts(vpn.tunnels@), ", "@))
    } else {
        base
    };
    let with_routes = if vpn.routed_subnets.len() > 0 {
        with_tunnels.push("Routed subnets: "@ + join(texts(vpn.routed_subnets@), ", "@))
    } else {
        with_tunnels
    };
    match resolvers {
        Some(rs) => if scoped_domains(rs).len() > 0 {
            with_routes.push("VPN domains: "@ + join(scoped_domains(rs), ", "@))
        } else {
            with_routes
        },
        None => with_routes,
    }
}

/// The VPN panel: primary interface, connected and split-tunnel state,
/// split DNS (once known), then the tunnels, routed subnets and VPN-only
/// domains when there are any.
pub fn vpn_lines(vpn: &VpnStatus, split_dns: Option<bool>, resolvers: Option<&[Resolver]>) -> (r:
    Vec<String>)
    ensures
        texts(r@) == vpn_lines_spec(
            *vpn,
            split_dns,
            match resolvers {
                Some(rs) => Some(rs@),
                None => None,
            },
        ),
{
    let mut lines: Vec<String> = Vec::new();
    lines.push(String::from_str("Primary: ").concat(string_or(&vpn.primary_interface, "unknown").as_str()));
    lines.push(String::from_str("VPN connected: ").concat(bool_string(vpn.connected).as_str()));
    lines.push(String::from_str("Split tunnel: ").concat(bool_string(vpn.split_tunnel).as_str()));
    let dns = match split_dns {
        Some(b) => bool_string(b),
        None => String::from_str("collecting..."),
    };
    lines.push(String::from_str("Split DNS: ").concat(dns.as_str()));
    let ghost base = texts(lines@);
    if vpn.tunnels.len() > 0 {
        lines.push(String::from_str("Tunnels: ").concat(join_strings(vpn.tunnels.as_slice(), ", ").as_str()));
    }
    if vpn.routed_subnets.len() > 0 {
        lines.push(
            String::from_str("Routed subnets: ").concat(join_strings(vpn.routed_subnets.as_slice(), ", ").as_str()),
        );
    }
    match resolvers {
        Some(rs) => {
            let domains = vpn_scoped_domains(rs);
            if domains.len() > 0 {
                lines.push(String::from_str("VPN domains: ").concat(join_strings(domains.as_slice(), ", ").as_str()));
            }
        },
        None => {},
    }
    assert(texts(lines@) =~= vpn_lines_spec(
        *vpn,
        split_dns,
        match resolvers {
            Some(rs) => Some(rs@),
            None => None,
        },
    ));
    lines
}

/// The resolvers the DNS panel lists: those with at least one nameserver.
pub open spec fn has_nameservers() -> spec_fn(Resolver) -> bool {
    |r: Resolver| r.nameservers.len() > 0
}

pub open spec fn deref_resolvers<'a>(v: Seq<&'a Resolver>) -> Seq<Resolver> {
    v.map_values(|r: &'a Resolver| *r)
}

pub fn shown_resolvers<'a>(resolvers: &'a [Resolver]) -> (r: Vec<&'a Resolver>)
    ensures
        deref_resolvers(r@) == resolvers@.filter(has_nameservers()),
{
    let mut out: Vec<&'a Resolver> = Vec::new();
    let mut i: usize = 0;
    while i < resolvers.len()
        invariant
            0 <= i <= resolvers.len(),
            deref_resolvers(out@) == resolvers@.take(i as int).filter(has_nameservers()),
        decreases resolvers.len() - i,
    {
        assert(resolvers@.take(i + 1) == resolvers@.take(i as int).push(resolvers@[i as int]));
        proof {
            resolvers@.take(i as int).lemma_filter_push(resolvers@[i as int], has_nameservers());
        }
        if resolvers[i].nameservers.len() > 0 {
            out.push(&resolvers[i]);
        }
        assert(deref_resolvers(out@) =~= resolvers@.take(i + 1).filter(has_nameservers()));
        i = i + 1;
    }
    assert(resolvers@.take(resolvers.len() as int) == resolvers@);
    out
}

/// A resolver's label: its domain, else its first search domain, else `*`.
pub fn resolver_label(r: &Resolver) -> (s: String)
    ensures
        s@ == text_or(domain_of(*r), "*"@),
{
    match &r.domain {
        Some(d) => d.clone(),
        None => if r.search_domains.len() > 0 {
            r.search_domains[0].clone()
        } else {
            String::from_str("*")
        },
    }
}

/// A resolver's scope: its interface, else `any`.
pub fn resolver_scope(r: &Resolver) -> (s: String)
    ensures
        s@ == text_or(opt_text(r.if_name), "any"@),
{
    string_or(&r.if_name, "any")
}

/// One proxy endpoint's line.
pub open spec fn endpoint_text(label: Seq<char>, e: ProxyEndpoint) -> Seq<char> {
    if !e.enabled {
        label + ": off"@
    } else {
        label + ": "@ + text_or(opt_text(e.host), "?"@) + ":"@ + (match e.port {
            Some(p) => decimal(p as nat),
            None => "?"@,
        })
    }
}

pub fn endpoint_line(label: &str, e: &ProxyEndpoint) -> (r: String)
    ensures
        r@ == endpoint_text(label@, *e),
{
    if !e.enabled {
        return String::from_str(label).concat(": off");
    }
    let port = match e.port {
        Some(p) => decimal_string(p as u64),
        None => String::from_str("?"),
    };
    String::from_str(label).concat(": ").concat(string_or(&e.host, "?").as_str()).concat(":").concat(
        port.as_str(),
    )
}

/// The lines of the proxy panel.
pub open spec fn proxy_lines_spec(p: ProxyConfig) -> Seq<Seq<char>> {
    let base = seq![
        endpoint_text("HTTP"@, p.http),
        endpoint_text("HTTPS"@, p.https),
        endpoint_text("SOCKS"@, p.socks),
        match opt_text(p.pac_url) {
            Some(u) => "PAC: "@ + u,
            None => "PAC: off"@,
        },
    ];
    if p.exceptions.len() > 0 {
        base.push("Exceptions: "@ + join(texts(p.exceptions@), ", "@))
    } else {
        base
    }
}

/// The proxy panel: each endpoint, the PAC URL, then the exceptions when
/// there are any.
pub fn proxy_lines(p: &ProxyConfig) -> (r: Vec<String>)
    ensures
        texts(r@) == proxy_lines_spec(*p),
{
    let mut lines: Vec<String> = Vec::new();
    lines.push(endpoint_line("HTTP", &p.http));
    lines.push(endpoint_line("HTTPS", &p.https));
    lines.push(endpoint_line("SOCKS", &p.socks));
    let pac = match &p.pac_url {
        Some(u) => String::from_str("PAC: ").concat(u.as_str()),
        None => String::from_str("PAC: off"),
    };
    lines.push(pac);
    if p.exceptions.len() > 0 {
        lines.push(String::from_str("Exceptions: ").concat(join_strings(p.exceptions.as_slice(), ", ").as_str()));
    }
    assert(texts(lines@) =~= proxy_lines_spec(*p));
    lines
}

/// The IP stack panel's text.
pub open spec fn ip_stack_text_spec(s: Option<IpStack>) -> Seq<char> {
    match s {
        None => "Collecting..."@,
        Some(IpStack::Ipv4Only) => "IPv4 only"@,
        Some(IpStack::Ipv6Only) => "IPv6 only"@,
        Some(IpStack::DualStack) => "Dual-stack (IPv4 + IPv6)"@,
        Some(IpStack::Neither) => "No routable address"@,
    }
}

pub fn ip_stack_text(s: Option<IpStack>) -> (r: &'static str)
    ensures
        r@ == ip_stack_text_spec(s),
{
    match s {
        None => "Collecting...",
        Some(IpStack::Ipv4Only) => "IPv4 only",
        Some(IpStack::Ipv6Only) => "IPv6 only",
        Some(IpStack::DualStack) => "Dual-stack (IPv4 + IPv6)",
        Some(IpStack::Neither) => "No routable address",
    }
}

/// A level in dBm, `-` when unknown.
pub open spec fn dbm_text(v: Option<i32>) -> Seq<char> {
    match v {
        Some(d) => signed_decimal(d as int) + " dBm"@,
        None => "-"@,
    }
}

fn dbm_string(v: Option<i32>) -> (r: String)
    ensures
        r@ == dbm_text(v),
{
    match v {
        Some(d) => signed_decimal_string(d as i64).concat(" dBm"),
        None => String::from_str("-"),
    }
}

/// The lines of the Wi-Fi panel. Identity and radio arrive separately:
/// nothing yet reads `Collecting...`; an identity that is not connected
/// reads `Not connected`; otherwise the SSID line (or a placeholder while
/// the identity is pending), then the radio fields (or a placeholder while
/// the radio is pending).
pub open spec fn wifi_lines_spec(identity: Option<WifiIdentity>, radio: Option<WifiRadio>) -> Seq<
    Seq<char>,
> {
    if identity is None && radio is None {
        seq!["Collecting..."@]
    } else if identity matches Some(i) && !i.connected {
        seq!["Not connected"@]
    } else {
        let first = match identity {
            Some(i) => "SSID: "@ + text_or(opt_text(i.ssid), "-"@),
            None => "SSID: collecting..."@,
        };
        match radio {
            Some(r) => seq![
                first,
                "Channel: "@ + text_or(opt_text(r.channel), "-"@),
                "Signal: "@ + dbm_text(r.signal_dbm),
                "Noise: "@ + dbm_text(r.noise_dbm),
                "Security: "@ + text_or(opt_text(r.security), "-"@),
                "PHY mode: "@ + text_or(opt_text(r.phy_mode), "-"@),
            ],
            None => seq![first, "Channel/signal: collecting..."@],
        }
    }
}

pub fn wifi_lines(identity: Option<&WifiIdentity>, radio: Option<&WifiRadio>) -> (r: Vec<String>)
    ensures
        texts(r@) == wifi_lines_spec(
            match identity {
                Some(i) => Some(*i),
                None => None,
            },
            match radio {
                Some(x) => Some(*x),
                None => None,
            },
        ),
{
    let mut lines: Vec<String> = Vec::new();
    if identity.is_none() && radio.is_none() {
        lines.push(String::from_str("Collecting..."));
        assert(texts(lines@) =~= seq!["Collecting..."@]);
        return lines;
    }
    match identity {
        Some(i) => {
            if !i.connected {
                lines.push(String::from_str("Not connected"));
                assert(texts(lines@) =~= seq!["Not connected"@]);
                return lines;
            }
            lines.push(String::from_str("SSID: ").concat(string_or(&i.ssid, "-").as_str()));
        },
        None => {
            lines.push(String::from_str("SSID: collecting..."));
        },
    }
    match radio {
        Some(x) => {
            lines.push(String::from_str("Channel: ").concat(string_or(&x.channel, "-").as_str()));
            lines.push(String::from_str("Signal: ").concat(dbm_string(x.signal_dbm).as_str()));
            lines.push(String::from_str("Noise: ").concat(dbm_string(x.noise_dbm).as_str()));
            lines.push(String::from_str("Security: ").concat(string_or(&x.security, "-").as_str()));
            lines.push(String::from_str("PHY mode: ").concat(string_or(&x.phy_mode, "-").as_str()));
        },
        None => {
            lines.push(String::from_str("Channel/signal: collecting..."));
        },
    }
    assert(texts(lines@) =~= wifi_lines_spec(
        match identity {
            Some(i) => Some(*i),
            None => None,
        },
        match radio {
            Some(x) => Some(*x),
            None => None,
        },
    ));
    lines
}

/// The dashboard's footer: the key help, the auto-refresh state, how long
/// ago the last field arrived (when one has), and the version.
pub open spec fn footer_spec(auto_refresh: bool, age_secs: Option<u64>, version: Seq<char>) -> Seq<char> {
    "q: quit   r: refresh now   a: auto-refresh ("@ + (if auto_refresh {
        "on"@
    } else {
        "off"@
    }) + ")   1-4: tabs   "@ + (match age_secs {
        Some(a) => "updated "@ + format_age_spec(a as nat) + " ago"@,
        None => Seq::empty(),
    }) + "   netcheck "@ + version
}

pub fn footer(auto_refresh: bool, age_secs: Option<u64>, version: &str) -> (r: String)
    ensures
        r@ == footer_spec(auto_refresh, age_secs, version@),
{
    let state = if auto_refresh {
        "on"
    } else {
        "off"
    };
    let age = match age_secs {
        Some(a) => String::from_str("updated ").concat(format_age(a).as_str()).concat(" ago"),
        None => String::new(),
    };
    String::from_str("q: quit   r: refresh now   a: auto-refresh (").concat(state).concat(
        ")   1-4: tabs   ",
    ).concat(age.as_str()).concat("   netcheck ").concat(version)
}

/// The dashboard's tabs.
#[derive(Debug, Clone, Copy, PartialEq, Eq)]
pub enum Tab {
    Overview,
    Dns,
    Reachability,
    Wifi,
}

pub open spec fn tab_title(t: Tab) -> Seq<char> {
    match t {
        Tab::Overview => "Overview"@,
        Tab::Dns => "DNS"@,
        Tab::Reachability => "Reachability"@,
        Tab::Wifi => "Wi-Fi"@,
    }
}

/// The key (1 to 4) that selects each tab.
pub open spec fn tab_digit(t: Tab) -> u8 {
    match t {
        Tab::Overview => 1,
        Tab::Dns => 2,
        Tab::Reachability => 3,
        Tab::Wifi => 4,
    }
}

impl Tab {
    pub fn title(self) -> (r: &'static str)
        ensures
            r@ == tab_title(self),
    {
        match self {
            Tab::Overview => "Overview",
            Tab::Dns => "DNS",
            Tab::Reachability => "Reachability",
            Tab::Wifi => "Wi-Fi",
        }
    }

    /// The tab selected by digit key `n`, if any.
    pub fn from_digit(n: u8) -> (r: Option<Tab>)
        ensures
            match r {
                Some(t) => tab_digit(t) == n,
                None => n < 1 || n > 4,
            },
    {
        match n {
            1 => Some(Tab::Overview),
            2 => Some(Tab::Dns),
            3 => Some(Tab::Reachability),
            4 => Some(Tab::Wifi),
            _ => None,
        }
    }
}

/// Every tab's digit key selects it.
pub proof fn lemma_tab_digit_roundtrip(t: Tab)
    ensures
        1 <= tab_digit(t) <= 4,
        forall|u: Tab| tab_digit(u) == tab_digit(t) ==> u == t,
{
}

/// Auto-refresh is on when the dashboard starts: it re-checks on every
/// network-configuration change and on the adaptive poll.
pub const AUTO_REFRESH_DEFAULT: bool = true;

/// A key press, as the dashboard reads it.
#[derive(Debug, Clone, Copy, PartialEq, Eq)]
pub enum KeyInput {
    Char(char),
    Esc,
    Other,
}

/// What a key press asks of the dashboard.
#[derive(Debug, Clone, Copy, PartialEq, Eq)]
pub enum DashboardAction {
    Quit,
    RefreshNow,
    ToggleAutoRefresh,
    ShowTab(Tab),
    Ignore,
}

/// The tab a digit key selects.
pub open spec fn tab_for_key(c: char) -> Option<Tab> {
    if c == '1' {
        Some(Tab::Overview)
    } else if c == '2' {
        Some(Tab::Dns)
    } else if c == '3' {
        Some(Tab::Reachability)
    } else if c == '4' {
        Some(Tab::Wifi)
    } else {
        None
    }
}

/// `q` and Esc quit, `r` refreshes now, `a` toggles auto-refresh, `1` to
/// `4` switch tabs; any other key is ignored.
pub open spec fn dashboard_key_spec(key: KeyInput) -> DashboardAction {
    match key {
        KeyInput::Esc => DashboardAction::Quit,
        KeyInput::Char(c) => if c == 'q' {
            DashboardAction::Quit
        } else if c == 'r' {
            DashboardAction::RefreshNow
        } else if c == 'a' {
            DashboardAction::ToggleAutoRefresh
        } else {
            match tab_for_key(c) {
                Some(t) => DashboardAction::ShowTab(t),
                None => DashboardAction::Ignore,
            }
        },
        KeyInput::Other => DashboardAction::Ignore,
    }
}

/// The action a key press asks for.
pub fn dashboard_key(key: KeyInput) -> (r: DashboardAction)
    ensures
        r == dashboard_key_spec(key),
        r matches DashboardAction::ShowTab(t) ==> key matches KeyInput::Char(c) && tab_digit(t)
            == (c as u32) - ('0' as u32),
{
    match key {
        KeyInput::Esc => DashboardAction::Quit,
        KeyInput::Char(c) => {
            if c == 'q' {
                DashboardAction::Quit
            } else if c == 'r' {
                DashboardAction::RefreshNow
            } else if c == 'a' {
                DashboardAction::ToggleAutoRefresh
            } else if '1' <= c && c <= '4' {
                let d = (c as u32 - 48) as u8;
                match Tab::from_digit(d) {
                    Some(t) => DashboardAction::ShowTab(t),
                    None => DashboardAction::Ignore,
                }
            } else {
                DashboardAction::Ignore
            }
        },
        KeyInput::Other => DashboardAction::Ignore,
    }
}

/// The non-loopback interfaces of class `c`, in list order.
pub open spec fn of_class(s: Seq<Interface>, c: InterfaceClass) -> Seq<Interface> {
    s.filter(listed_as(c))
}

/// A non-loopback interface of class `c`.
pub open spec fn listed_as(c: InterfaceClass) -> spec_fn(Interface) -> bool {
    |i: Interface| !i.loopback && classify_interface_spec(i) == c
}

/// The non-loopback interfaces sorted online-to-offline, keeping list
/// order within a class (a stable sort by class).
pub open spec fn sorted_non_loopback_spec(s: Seq<Interface>) -> Seq<Interface> {
    of_class(s, InterfaceClass::Routable) + of_class(s, InterfaceClass::LinkLocalOnly) + of_class(
        s,
        InterfaceClass::Unaddressed,
    ) + of_class(s, InterfaceClass::Down)
}

/// Not a loopback interface.
pub open spec fn not_loopback() -> spec_fn(Interface) -> bool {
    |i: Interface| !i.loopback
}

proof fn lemma_of_class_members(s: Seq<Interface>, c: InterfaceClass)
    ensures
        forall|k: int|
            0 <= k < of_class(s, c).len() ==> classify_interface_spec(#[trigger] of_class(s, c)[k])
                == c && !of_class(s, c)[k].loopback,
{
    s.filter_lemma(listed_as(c));
}

proof fn lemma_sorted_multiset(s: Seq<Interface>)
    ensures
        sorted_non_loopback_spec(s).to_multiset() == s.filter(not_loopback()).to_multiset(),
    decreases s.len(),
{
    broadcast use vstd::seq_lib::lemma_multiset_commutative;
    broadcast use vstd::multiset::group_multiset_axioms;

    let r = of_class(s, InterfaceClass::Routable);
    let l = of_class(s, InterfaceClass::LinkLocalOnly);
    let u = of_class(s, InterfaceClass::Unaddressed);
    let d = of_class(s, InterfaceClass::Down);
    assert(sorted_non_loopback_spec(s).to_multiset() =~= r.to_multiset().add(l.to_multiset()).add(
        u.to_multiset(),
    ).add(d.to_multiset()));
    if s.len() == 0 {
        s.filter_lemma(listed_as(InterfaceClass::Routable));
        s.filter_lemma(listed_as(InterfaceClass::LinkLocalOnly));
        s.filter_lemma(listed_as(InterfaceClass::Unaddressed));
        s.filter_lemma(listed_as(InterfaceClass::Down));
        s.filter_lemma(not_loopback());
        assert(r.len() == 0 && l.len() == 0 && u.len() == 0 && d.len() == 0);
        assert(s.filter(not_loopback()).len() == 0);
        assert(s.filter(not_loopback()) =~= Seq::<Interface>::empty());
        assert(r =~= Seq::<Interface>::empty());
        assert(r.to_multiset() =~= Multiset::empty());
        assert(l.to_multiset() =~= Multiset::empty());
        assert(u.to_multiset() =~= Multiset::empty());
        assert(d.to_multiset() =~= Multiset::empty());
        assert(s.filter(not_loopback()).to_multiset() =~= Multiset::empty());
    } else {
        let p = s.drop_last();
        let x = s.last();
        assert(s == p.push(x));
        lemma_sorted_multiset(p);
        p.lemma_filter_push(x, listed_as(InterfaceClass::Routable));
        p.lemma_filter_push(x, listed_as(InterfaceClass::LinkLocalOnly));
        p.lemma_filter_push(x, listed_as(InterfaceClass::Unaddressed));
        p.lemma_filter_push(x, listed_as(InterfaceClass::Down));
        p.lemma_filter_push(x, not_loopback());
        let rp = of_class(p, InterfaceClass::Routable);
        let lp = of_class(p, InterfaceClass::LinkLocalOnly);
        let up = of_class(p, InterfaceClass::Unaddressed);
        let dp = of_class(p, InterfaceClass::Down);
        assert(sorted_non_loopback_spec(p).to_multiset() =~= rp.to_multiset().add(
            lp.to_multiset(),
        ).add(up.to_multiset()).add(dp.to_multiset()));
        rp.to_multiset_ensures();
        lp.to_multiset_ensures();
        up.to_multiset_ensures();
        dp.to_multiset_ensures();
        p.filter(not_loopback()).to_multiset_ensures();
        let m = rp.to_multiset().add(lp.to_multiset()).add(up.to_multiset()).add(dp.to_multiset());
        if x.loopback {
            assert(r == rp && l == lp && u == up && d == dp);
        } else {
            assert(s.filter(not_loopback()) == p.filter(not_loopback()).push(x));
            match classify_interface_spec(x) {
                InterfaceClass::Routable => {
                    assert(r == rp.push(x) && l == lp && u == up && d == dp);
                    assert(r.to_multiset().add(l.to_multiset()).add(u.to_multiset()).add(
                        d.to_multiset(),
                    ) =~= m.insert(x));
                },
                InterfaceClass::LinkLocalOnly => {
                    assert(r == rp && l == lp.push(x) && u == up && d == dp);
                    assert(r.to_multiset().add(l.to_multiset()).add(u.to_multiset()).add(
                        d.to_multiset(),
                    ) =~= m.insert(x));
                },
                InterfaceClass::Unaddressed => {
                    assert(r == rp && l == lp && u == up.push(x) && d == dp);
                    assert(r.to_multiset().add(l.to_multiset()).add(u.to_multiset()).add(
                        d.to_multiset(),
                    ) =~= m.insert(x));
                },
                InterfaceClass::Down => {
                    assert(r == rp && l == lp && u == up && d == dp.push(x));
                    assert(r.to_multiset().add(l.to_multiset()).add(u.to_multiset()).add(
                        d.to_multiset(),
                    ) =~= m.insert(x));
                },
            }
        }
    }
}

/// The dashboard lists exactly the non-loopback interfaces, each as often
/// as it occurs, ordered online-to-offline: no listed interface comes
/// before one of a more online class.
pub proof fn lemma_sorted_non_loopback(s: Seq<Interface>)
    ensures
        sorted_non_loopback_spec(s).to_multiset() == s.filter(not_loopback()).to_multiset(),
        forall|k: int|
            0 <= k < sorted_non_loopback_spec(s).len() ==> !(
            #[trigger] sorted_non_loopback_spec(s)[k]).loopback,
        forall|i: int, j: int|
            0 <= i < j < sorted_non_loopback_spec(s).len() ==> class_rank(
                classify_interface_spec(#[trigger] sorted_non_loopback_spec(s)[i]),
            ) <= class_rank(classify_interface_spec(#[trigger] sorted_non_loopback_spec(s)[j])),
{
    lemma_sorted_multiset(s);
    let r = of_class(s, InterfaceClass::Routable);
    let l = of_class(s, InterfaceClass::LinkLocalOnly);
    let u = of_class(s, InterfaceClass::Unaddressed);
    let d = of_class(s, InterfaceClass::Down);
    lemma_of_class_members(s, InterfaceClass::Routable);
    lemma_of_class_members(s, InterfaceClass::LinkLocalOnly);
    lemma_of_class_members(s, InterfaceClass::Unaddressed);
    lemma_of_class_members(s, InterfaceClass::Down);
    let all = sorted_non_loopback_spec(s);
    let a = r.len();
    let b = a + l.len();
    let c = b + u.len();
    assert forall|k: int| 0 <= k < all.len() implies {
        &&& !all[k].loopback
        &&& class_rank(classify_interface_spec(all[k])) == (if k < a {
            0int
        } else if k < b {
            1int
        } else if k < c {
            2int
        } else {
            3int
        })
    } by {
        if k < a {
            assert(all[k] == r[k]);
        } else if k < b {
            assert(all[k] == l[k - a]);
        } else if k < c {
            assert(all[k] == u[k - b]);
        } else {
            assert(all[k] == d[k - c]);
        }
    }
}

pub open spec fn derefs<'a>(v: Seq<&'a Interface>) -> Seq<Interface> {
    v.map_values(|i: &'a Interface| *i)
}

fn collect_class<'a>(interfaces: &'a [Interface], c: InterfaceClass, out: &mut Vec<&'a Interface>)
    ensures
        derefs(final(out)@) == derefs(old(out)@) + of_class(interfaces@, c),
{
    let ghost start = derefs(out@);
    let mut i: usize = 0;
    while i < interfaces.len()
        invariant
            0 <= i <= interfaces.len(),
            derefs(out@) == start + of_class(interfaces@.take(i as int), c),
        decreases interfaces.len() - i,
    {
        let iface = &interfaces[i];
        proof {
            interfaces@.take(i as int).lemma_filter_push(interfaces@[i as int], listed_as(c));
        }
        assert(interfaces@.take(i + 1) == interfaces@.take(i as int).push(*iface));
        let ghost before = derefs(out@);
        if !iface.loopback && classify_interface(iface) == c {
            out.push(iface);
            assert(derefs(out@) =~= before.push(*iface));
        }
        assert(derefs(out@) =~= start + of_class(interfaces@.take(i + 1), c));
        i = i + 1;
    }
    assert(interfaces@.take(interfaces.len() as int) == interfaces@);
}

/// The interfaces to list, loopback left out, online-to-offline.
pub fn sorted_non_loopback<'a>(interfaces: &'a [Interface]) -> (r: Vec<&'a Interface>)
    ensures
        derefs(r@) == sorted_non_loopback_spec(interfaces@),
{
    let mut out: Vec<&'a Interface> = Vec::new();
    assert(derefs(out@) == Seq::<Interface>::empty());
    collect_class(interfaces, InterfaceClass::Routable, &mut out);
    collect_class(interfaces, InterfaceClass::LinkLocalOnly, &mut out);
    collect_class(interfaces, InterfaceClass::Unaddressed, &mut out);
    collect_class(interfaces, InterfaceClass::Down, &mut out);
    out
}

} // verus!
