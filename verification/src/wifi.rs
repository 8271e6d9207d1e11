//! Wi-Fi status: the connected network read from the Wi-Fi report of
//! `system_profiler`, and the radio parameters rendered for display.
use vstd::prelude::*;
use vstd::string::StringExecFns;
use crate::json::{JsonValue, as_text, get, json_document, member, parse_json, text_of};
use crate::text::{
    chars_of, first_word, first_word_chars, parse_i32_chars, parse_i32_spec, signed_decimal,
    signed_decimal_string, split_once_chars, split_once_spec, starts_with, str_starts_with,
};
use crate::vpn::opt_text;

verus! {

#[derive(Debug, Clone, PartialEq)]
pub struct WifiStatus {
    pub connected: bool,
    pub ssid: Option<String>,
    pub channel: Option<String>,
    pub signal_dbm: Option<i32>,
    pub noise_dbm: Option<i32>,
    pub security: Option<String>,
    pub phy_mode: Option<String>,
}

/// Not connected, nothing known.
pub open spec fn is_blank(w: WifiStatus) -> bool {
    &&& !w.connected
    &&& w.ssid is None
    &&& w.channel is None
    &&& w.signal_dbm is None
    &&& w.noise_dbm is None
    &&& w.security is None
    &&& w.phy_mode is None
}

impl Default for WifiStatus {
    fn default() -> (r: Self)
        ensures
            is_blank(r),
    {
        WifiStatus {
            connected: false,
            ssid: None,
            channel: None,
            signal_dbm: None,
            noise_dbm: None,
            security: None,
            phy_mode: None,
        }
    }
}

/// SSID and connected state: the slow half of Wi-Fi status.
#[derive(Debug, Clone, PartialEq)]
pub struct WifiIdentity {
    pub connected: bool,
    pub ssid: Option<String>,
}

impl Default for WifiIdentity {
    fn default() -> (r: Self)
        ensures
            !r.connected,
            r.ssid is None,
    {
        WifiIdentity { connected: false, ssid: None }
    }
}

/// Channel, signal, noise, security and PHY mode: the fast half.
#[derive(Debug, Clone, PartialEq)]
pub struct WifiRadio {
    pub channel: Option<String>,
    pub signal_dbm: Option<i32>,
    pub noise_dbm: Option<i32>,
    pub security: Option<String>,
    pub phy_mode: Option<String>,
}

impl Default for WifiRadio {
    fn default() -> (r: Self)
        ensures
            r.channel is None,
            r.signal_dbm is None,
            r.noise_dbm is None,
            r.security is None,
            r.phy_mode is None,
    {
        WifiRadio { channel: None, signal_dbm: None, noise_dbm: None, security: None, phy_mode: None }
    }
}

/// Signal and noise from text like `-52 dBm / -90 dBm`: the first word on
/// each side of the first `/`, each read as an `i32`.
pub open spec fn signal_noise_spec(text: Seq<char>) -> Option<(i32, i32)> {
    match split_once_spec(text, '/') {
        Some(p) => match (first_word(p.0), first_word(p.1)) {
            (Some(a), Some(b)) => match (parse_i32_spec(a), parse_i32_spec(b)) {
                (Some(x), Some(y)) => Some((x, y)),
                _ => None,
            },
            _ => None,
        },
        None => None,
    }
}

fn parse_dbm(s: &Vec<char>) -> (r: Option<i32>)
    ensures
        r == (match first_word(s@) {
            Some(w) => parse_i32_spec(w),
            None => None,
        }),
{
    match first_word_chars(s) {
        Some(w) => parse_i32_chars(&w),
        None => None,
    }
}

pub fn parse_signal_noise(text: &str) -> (r: Option<(i32, i32)>)
    ensures
        r == signal_noise_spec(text@),
{
    let v = chars_of(text);
    match split_once_chars(&v, '/') {
        Some((signal, noise)) => {
            let s = parse_dbm(&signal);
            let n = parse_dbm(&noise);
            match (s, n) {
                (Some(a), Some(b)) => Some((a, b)),
                _ => None,
            }
        },
        None => None,
    }
}

/// The connected network's block of an interface entry: present only when
/// the interface is genuinely associated, i.e. its status reads
/// `spairport_status_connected` or the block names a non-empty SSID.
pub open spec fn connected_info(iface: JsonValue) -> Option<JsonValue> {
    match member(iface, "spairport_current_network_information"@) {
        None => None,
        Some(cur) => {
            let status_connected = text_of(member(iface, "spairport_status_information"@)) == Some(
                "spairport_status_connected"@,
            );
            let has_ssid = text_of(member(cur, "_name"@)) matches Some(n) && n.len() > 0;
            if status_connected || has_ssid {
                Some(cur)
            } else {
                None
            }
        },
    }
}

fn text_is(s: &String, lit: &str) -> (r: bool)
    ensures
        r == (s@ == lit@),
{
    let t = String::from_str(lit);
    *s == t
}

fn connected_network_information(iface: &JsonValue) -> (r: Option<&JsonValue>)
    ensures
        match r {
            Some(c) => connected_info(*iface) == Some(*c),
            None => connected_info(*iface) is None,
        },
{
    let current = match get(iface, "spairport_current_network_information") {
        Some(c) => c,
        None => return None,
    };
    let status_connected = match as_text(get(iface, "spairport_status_information")) {
        Some(s) => text_is(s, "spairport_status_connected"),
        None => false,
    };
    let has_ssid = match as_text(get(current, "_name")) {
        Some(n) => n.as_str().unicode_len() > 0,
        None => false,
    };
    if status_connected || has_ssid {
        Some(current)
    } else {
        None
    }
}

/// The first interface entry with a connected network.
pub open spec fn first_connected(ifaces: Seq<JsonValue>) -> Option<JsonValue>
    decreases ifaces.len(),
{
    if ifaces.len() == 0 {
        None
    } else {
        match connected_info(ifaces[0]) {
            Some(c) => Some(c),
            None => first_connected(ifaces.drop_first()),
        }
    }
}

/// The connected network of the report: among the interfaces of the first
/// `SPAirPortDataType` entry, the first that is connected.
pub open spec fn current_network(root: JsonValue) -> Option<JsonValue> {
    match member(root, "SPAirPortDataType"@) {
        Some(JsonValue::Array(entries)) => if entries.len() > 0 {
            match member(entries@[0], "spairport_airport_interfaces"@) {
                Some(JsonValue::Array(ifaces)) => first_connected(ifaces@),
                _ => None,
            }
        } else {
            None
        },
        _ => None,
    }
}

/// The SSID, unless absent or the literal `<redacted>` placeholder that a
/// process without Location Services authorization is shown.
pub open spec fn ssid_of(current: JsonValue) -> Option<Seq<char>> {
    match text_of(member(current, "_name"@)) {
        Some(n) => if n == "<redacted>"@ {
            None
        } else {
            Some(n)
        },
        None => None,
    }
}

fn ssid_field(current: &JsonValue) -> (r: Option<String>)
    ensures
        opt_text(r) == ssid_of(*current),
{
    match as_text(get(current, "_name")) {
        Some(n) => if text_is(n, "<redacted>") {
            None
        } else {
            Some(n.clone())
        },
        None => None,
    }
}

/// Status of the connected network `c`.
pub open spec fn status_of(w: WifiStatus, c: JsonValue) -> bool {
    let sn = match text_of(member(c, "spairport_signal_noise"@)) {
        Some(t) => signal_noise_spec(t),
        None => None,
    };
    &&& w.connected
    &&& opt_text(w.ssid) == ssid_of(c)
    &&& opt_text(w.channel) == text_of(member(c, "spairport_network_channel"@))
    &&& w.signal_dbm == (match sn {
        Some(p) => Some(p.0),
        None => None,
    })
    &&& w.noise_dbm == (match sn {
        Some(p) => Some(p.1),
        None => None,
    })
    &&& opt_text(w.security) == text_of(member(c, "spairport_security_mode"@))
    &&& opt_text(w.phy_mode) == text_of(member(c, "spairport_network_phymode"@))
}

fn str_field(current: &JsonValue, key: &str) -> (r: Option<String>)
    ensures
        opt_text(r) == text_of(member(*current, key@)),
{
    match as_text(get(current, key)) {
        Some(s) => Some(s.clone()),
        None => None,
    }
}

/// Reads the connected network from the parsed Wi-Fi report of
/// `system_profiler SPAirPortDataType -json`. `root` is `None` when the
/// output was not valid JSON; that, or a report without a connected
/// network, gives the blank (disconnected) status.
pub fn parse_wifi_json(root: Option<&JsonValue>) -> (r: WifiStatus)
    ensures
        match root {
            Some(j) => match current_network(*j) {
                Some(c) => status_of(r, c),
                None => is_blank(r),
            },
            None => is_blank(r),
        },
{
    let root = match root {
        Some(j) => j,
        None => return WifiStatus::default(),
    };
    let entries = match get(root, "SPAirPortDataType") {
        Some(JsonValue::Array(entries)) => entries,
        _ => return WifiStatus::default(),
    };
    if entries.len() == 0 {
        return WifiStatus::default();
    }
    let ifaces = match get(&entries[0], "spairport_airport_interfaces") {
        Some(JsonValue::Array(ifaces)) => ifaces,
        _ => return WifiStatus::default(),
    };
    let mut i: usize = 0;
    let mut found: Option<&JsonValue> = None;
    assert(ifaces@.skip(0) == ifaces@);
    while i < ifaces.len()
        invariant_except_break
            found is None,
        invariant
            0 <= i <= ifaces.len(),
            current_network(*root) == first_connected(ifaces@),
            first_connected(ifaces@) == first_connected(ifaces@.skip(i as int)),
        ensures
            match found {
                Some(c) => first_connected(ifaces@) == Some(*c),
                None => first_connected(ifaces@) is None,
            },
        decreases ifaces.len() - i,
    {
        assert(ifaces@.skip(i as int).drop_first() == ifaces@.skip(i + 1));
        match connected_network_information(&ifaces[i]) {
            Some(c) => {
                found = Some(c);
                break;
            },
            None => {},
        }
        i = i + 1;
    }
    let current = match found {
        Some(c) => c,
        None => return WifiStatus::default(),
    };
    let (signal_dbm, noise_dbm) = match str_field(current, "spairport_signal_noise") {
        Some(t) => match parse_signal_noise(t.as_str()) {
            Some((a, b)) => (Some(a), Some(b)),
            None => (None, None),
        },
        None => (None, None),
    };
    WifiStatus {
        connected: true,
        ssid: ssid_field(current),
        channel: str_field(current, "spairport_network_channel"),
        signal_dbm,
        noise_dbm,
        security: str_field(current, "spairport_security_mode"),
        phy_mode: str_field(current, "spairport_network_phymode"),
    }
}

/// Reads the connected network from the text `system_profiler
/// SPAirPortDataType -json` printed: text that is not JSON, or a report
/// without a connected network, gives the blank (disconnected) status.
pub fn parse_wifi_report(json: &str) -> (r: WifiStatus)
    ensures
        match json_document(json@) {
            Some(root) => match current_network(root) {
                Some(c) => status_of(r, c),
                None => is_blank(r),
            },
            None => is_blank(r),
        },
{
    let root = parse_json(json);
    parse_wifi_json(root.as_ref())
}

/// The combined snapshot: SSID and connected state from the identity
/// lookup, everything else from the radio. Not connected gives the blank
/// status, whatever the radio reported.
pub fn wifi_status(identity: WifiIdentity, radio: WifiRadio) -> (r: WifiStatus)
    ensures
        !identity.connected ==> is_blank(r),
        identity.connected ==> r.connected && r.ssid == identity.ssid && r.channel == radio.channel
            && r.signal_dbm == radio.signal_dbm && r.noise_dbm == radio.noise_dbm && r.security
            == radio.security && r.phy_mode == radio.phy_mode,
{
    if !identity.connected {
        return WifiStatus::default();
    }
    WifiStatus {
        connected: identity.connected,
        ssid: identity.ssid,
        channel: radio.channel,
        signal_dbm: radio.signal_dbm,
        noise_dbm: radio.noise_dbm,
        security: radio.security,
        phy_mode: radio.phy_mode,
    }
}

/// Frequency band of a Wi-Fi channel.
#[derive(Debug, Clone, Copy, PartialEq, Eq)]
pub enum ChannelBand {
    Band2GHz,
    Band5GHz,
    Band6GHz,
    Unknown,
}

/// Width of a Wi-Fi channel.
#[derive(Debug, Clone, Copy, PartialEq, Eq)]
pub enum ChannelWidth {
    Width20MHz,
    Width40MHz,
    Width80MHz,
    Width160MHz,
    Unknown,
}

/// Security mode of the associated network.
#[derive(Debug, Clone, Copy, PartialEq, Eq)]
pub enum Security {
    Open,
    Wep,
    WpaPersonal,
    WpaPersonalMixed,
    Wpa2Personal,
    WpaEnterprise,
    WpaEnterpriseMixed,
    Wpa2Enterprise,
    Wpa3Personal,
    Wpa3Enterprise,
    Wpa3Transition,
    Unknown,
}

/// Active PHY mode of the radio.
#[derive(Debug, Clone, Copy, PartialEq, Eq)]
pub enum PhyMode {
    Mode11a,
    Mode11b,
    Mode11g,
    Mode11n,
    Mode11ac,
    Mode11ax,
    Unknown,
}

pub open spec fn band_text(b: ChannelBand) -> Seq<char> {
    match b {
        ChannelBand::Band2GHz => "2.4GHz"@,
        ChannelBand::Band5GHz => "5GHz"@,
        ChannelBand::Band6GHz => "6GHz"@,
        ChannelBand::Unknown => "unknown band"@,
    }
}

fn band_label(b: ChannelBand) -> (r: &'static str)
    ensures
        r@ == band_text(b),
{
    match b {
        ChannelBand::Band2GHz => "2.4GHz",
        ChannelBand::Band5GHz => "5GHz",
        ChannelBand::Band6GHz => "6GHz",
        ChannelBand::Unknown => "unknown band",
    }
}

pub open spec fn width_text(w: ChannelWidth) -> Seq<char> {
    match w {
        ChannelWidth::Width20MHz => "20MHz"@,
        ChannelWidth::Width40MHz => "40MHz"@,
        ChannelWidth::Width80MHz => "80MHz"@,
        ChannelWidth::Width160MHz => "160MHz"@,
        ChannelWidth::Unknown => "unknown width"@,
    }
}

fn width_label(w: ChannelWidth) -> (r: &'static str)
    ensures
        r@ == width_text(w),
{
    match w {
        ChannelWidth::Width20MHz => "20MHz",
        ChannelWidth::Width40MHz => "40MHz",
        ChannelWidth::Width80MHz => "80MHz",
        ChannelWidth::Width160MHz => "160MHz",
        ChannelWidth::Unknown => "unknown width",
    }
}

/// `number (band, width)`, e.g. `36 (5GHz, 80MHz)`.
pub open spec fn channel_text(number: int, band: ChannelBand, width: ChannelWidth) -> Seq<char> {
    signed_decimal(number) + " ("@ + band_text(band) + ", "@ + width_text(width) + ")"@
}

pub fn format_channel(number: isize, band: ChannelBand, width: ChannelWidth) -> (r: String)
    ensures
        r@ == channel_text(number as int, band, width),
{
    let n = signed_decimal_string(number as i64);
    n.concat(" (").concat(band_label(band)).concat(", ").concat(width_label(width)).concat(")")
}

pub open spec fn security_text(s: Security) -> Seq<char> {
    match s {
        Security::Open => "Open"@,
        Security::Wep => "WEP"@,
        Security::WpaPersonal => "WPA Personal"@,
        Security::WpaPersonalMixed => "WPA Personal Mixed"@,
        Security::Wpa2Personal => "WPA2 Personal"@,
        Security::WpaEnterprise => "WPA Enterprise"@,
        Security::WpaEnterpriseMixed => "WPA Enterprise Mixed"@,
        Security::Wpa2Enterprise => "WPA2 Enterprise"@,
        Security::Wpa3Personal => "WPA3 Personal"@,
        Security::Wpa3Enterprise => "WPA3 Enterprise"@,
        Security::Wpa3Transition => "WPA3 Transition"@,
        Security::Unknown => "Unknown"@,
    }
}

pub fn format_security(security: Security) -> (r: &'static str)
    ensures
        r@ == security_text(security),
{
    match security {
        Security::Open => "Open",
        Security::Wep => "WEP",
        Security::WpaPersonal => "WPA Personal",
        Security::WpaPersonalMixed => "WPA Personal Mixed",
        Security::Wpa2Personal => "WPA2 Personal",
        Security::WpaEnterprise => "WPA Enterprise",
        Security::WpaEnterpriseMixed => "WPA Enterprise Mixed",
        Security::Wpa2Enterprise => "WPA2 Enterprise",
        Security::Wpa3Personal => "WPA3 Personal",
        Security::Wpa3Enterprise => "WPA3 Enterprise",
        Security::Wpa3Transition => "WPA3 Transition",
        Security::Unknown => "Unknown",
    }
}

pub open spec fn phy_text(p: PhyMode) -> Seq<char> {
    match p {
        PhyMode::Mode11a => "802.11a"@,
        PhyMode::Mode11b => "802.11b"@,
        PhyMode::Mode11g => "802.11g"@,
        PhyMode::Mode11n => "802.11n"@,
        PhyMode::Mode11ac => "802.11ac"@,
        PhyMode::Mode11ax => "802.11ax"@,
        PhyMode::Unknown => "unknown"@,
    }
}

pub fn format_phy_mode(phy: PhyMode) -> (r: &'static str)
    ensures
        r@ == phy_text(phy),
{
    match phy {
        PhyMode::Mode11a => "802.11a",
        PhyMode::Mode11b => "802.11b",
        PhyMode::Mode11g => "802.11g",
        PhyMode::Mode11n => "802.11n",
        PhyMode::Mode11ac => "802.11ac",
        PhyMode::Mode11ax => "802.11ax",
        PhyMode::Unknown => "unknown",
    }
}

/// `v` as an `i32` when it fits.
pub open spec fn fit_i32(v: int) -> Option<i32> {
    if i32::MIN <= v <= i32::MAX {
        Some(v as i32)
    } else {
        None
    }
}

fn to_i32(v: isize) -> (r: Option<i32>)
    ensures
        r == fit_i32(v as int),
{
    if -2147483648 <= v && v <= 2147483647 {
        Some(v as i32)
    } else {
        None
    }
}

/// The radio snapshot from what the Wi-Fi interface reports: its channel
/// (number, band, width) if it has one, RSSI and noise in dBm (kept when
/// they fit an `i32`), security and PHY mode.
pub fn wifi_radio_from(
    channel: Option<(isize, ChannelBand, ChannelWidth)>,
    rssi: isize,
    noise: isize,
    security: Security,
    phy: PhyMode,
) -> (r: WifiRadio)
    ensures
        opt_text(r.channel) == (match channel {
            Some(c) => Some(channel_text(c.0 as int, c.1, c.2)),
            None => None,
        }),
        r.signal_dbm == fit_i32(rssi as int),
        r.noise_dbm == fit_i32(noise as int),
        opt_text(r.security) == Some(security_text(security)),
        opt_text(r.phy_mode) == Some(phy_text(phy)),
{
    let channel = match channel {
        Some((number, band, width)) => Some(format_channel(number, band, width)),
        None => None,
    };
    WifiRadio {
        channel,
        signal_dbm: to_i32(rssi),
        noise_dbm: to_i32(noise),
        security: Some(String::from_str(format_security(security))),
        phy_mode: Some(String::from_str(format_phy_mode(phy))),
    }
}

/// The identity half of a parsed report: its connected state and SSID.
pub fn identity_from_status(status: WifiStatus) -> (r: WifiIdentity)
    ensures
        r.connected == status.connected,
        r.ssid == status.ssid,
{
    WifiIdentity { connected: status.connected, ssid: status.ssid }
}

/// An interface entry with a current-network block that names a non-empty
/// SSID counts as connected, with or without a status entry, and so does
/// one whose status reads `spairport_status_connected`; the block is then
/// its connected network. An entry without a block never counts, nor does
/// one with neither a connected status nor a non-empty SSID.
pub proof fn lemma_connected_by_ssid_or_status(iface: JsonValue)
    ensures
        member(iface, "spairport_current_network_information"@) is Some && nonempty_text(
            member(member(iface, "spairport_current_network_information"@)->0, "_name"@),
        ) ==> connected_info(iface) == member(iface, "spairport_current_network_information"@),
        member(iface, "spairport_current_network_information"@) is Some && text_of(
            member(iface, "spairport_status_information"@),
        ) == Some("spairport_status_connected"@) ==> connected_info(iface) == member(
            iface,
            "spairport_current_network_information"@,
        ),
        member(iface, "spairport_current_network_information"@) is None ==> connected_info(
            iface,
        ) is None,
        connected_info(iface) is Some ==> connected_info(iface) == member(
            iface,
            "spairport_current_network_information"@,
        ) && (text_of(member(iface, "spairport_status_information"@)) == Some(
            "spairport_status_connected"@,
        ) || nonempty_text(
            member(member(iface, "spairport_current_network_information"@)->0, "_name"@),
        )),
{
}

/// The value is a JSON string that is not empty.
pub open spec fn nonempty_text(v: Option<JsonValue>) -> bool {
    text_of(v) is Some && text_of(v)->0.len() > 0
}

proof fn lemma_first_connected_found(ifaces: Seq<JsonValue>, k: int)
    requires
        0 <= k < ifaces.len(),
        connected_info(ifaces[k]) is Some,
    ensures
        first_connected(ifaces) is Some,
    decreases k,
{
    if k > 0 && connected_info(ifaces[0]) is None {
        assert(ifaces.drop_first()[k - 1] == ifaces[k]);
        lemma_first_connected_found(ifaces.drop_first(), k - 1);
    }
}

/// A report in which some interface of the first `SPAirPortDataType`
/// entry has a current-network block naming a non-empty SSID reads as
/// connected; when that interface is the first one, the block is the
/// connected network and its SSID (unless redacted) is the one reported.
pub proof fn lemma_report_connected_by_ssid(root: JsonValue, k: int)
    requires
        report_interfaces(root) is Some,
        0 <= k < report_interfaces(root)->0.len(),
        member(report_interfaces(root)->0[k], "spairport_current_network_information"@) is Some,
        nonempty_text(
            member(
                member(
                    report_interfaces(root)->0[k],
                    "spairport_current_network_information"@,
                )->0,
                "_name"@,
            ),
        ),
    ensures
        current_network(root) is Some,
        k == 0 ==> current_network(root) == member(
            report_interfaces(root)->0[0],
            "spairport_current_network_information"@,
        ),
{
    let ifaces = report_interfaces(root)->0;
    lemma_connected_by_ssid_or_status(ifaces[k]);
    lemma_first_connected_found(ifaces, k);
}

/// The interface entries of the report's first `SPAirPortDataType` entry.
pub open spec fn report_interfaces(root: JsonValue) -> Option<Seq<JsonValue>> {
    match member(root, "SPAirPortDataType"@) {
        Some(JsonValue::Array(entries)) => if entries.len() > 0 {
            match member(entries@[0], "spairport_airport_interfaces"@) {
                Some(JsonValue::Array(ifaces)) => Some(ifaces@),
                _ => None,
            }
        } else {
            None
        },
        _ => None,
    }
}

/// Each security mode has a label of its own: no two modes share one.
/// WPA2 and WPA3 modes, and only they, are labelled `WPA2 ...` and
/// `WPA3 ...`; the enterprise modes, and only they, are labelled
/// `... Enterprise`.
pub proof fn lemma_security_labels(a: Security, b: Security)
    ensures
        security_text(a) == security_text(b) ==> a == b,
        starts_with(security_text(a), "WPA2 "@) <==> (a == Security::Wpa2Personal || a
            == Security::Wpa2Enterprise),
        starts_with(security_text(a), "WPA3 "@) <==> (a == Security::Wpa3Personal || a
            == Security::Wpa3Enterprise || a == Security::Wpa3Transition),
        ends_with_enterprise(security_text(a)) <==> (a == Security::WpaEnterprise || a
            == Security::Wpa2Enterprise || a == Security::Wpa3Enterprise),
{
    lemma_security_label_shape(a);
    lemma_security_label_shape(b);
    reveal_strlit("WPA2 ");
    reveal_strlit("WPA3 ");
    reveal_strlit("Enterprise");
    let t = security_text(a);
    if security_text(a) == security_text(b) {
        assert(label_shape(a) == label_shape(b));
    }
    if starts_with(t, "WPA2 "@) {
        assert(t[3] == t.take(5)[3]);
    }
    if starts_with(t, "WPA3 "@) {
        assert(t[3] == t.take(5)[3]);
    }
    if ends_with_enterprise(t) {
        assert(t.last() == t.subrange(t.len() - 10, t.len() as int)[9]);
    }
    match a {
        Security::Open => {
            reveal_strlit("Open");
        },
        Security::Wep => {
            reveal_strlit("WEP");
        },
        Security::WpaPersonal => {
            reveal_strlit("WPA Personal");
        },
        Security::WpaPersonalMixed => {
            reveal_strlit("WPA Personal Mixed");
        },
        Security::Wpa2Personal => {
            reveal_strlit("WPA2 Personal");
            assert(t.take(5) =~= "WPA2 "@);
        },
        Security::WpaEnterprise => {
            reveal_strlit("WPA Enterprise");
            assert(t.subrange(t.len() - 10, t.len() as int) =~= "Enterprise"@);
        },
        Security::WpaEnterpriseMixed => {
            reveal_strlit("WPA Enterprise Mixed");
        },
        Security::Wpa2Enterprise => {
            reveal_strlit("WPA2 Enterprise");
            assert(t.take(5) =~= "WPA2 "@);
            assert(t.subrange(t.len() - 10, t.len() as int) =~= "Enterprise"@);
        },
        Security::Wpa3Personal => {
            reveal_strlit("WPA3 Personal");
            assert(t.take(5) =~= "WPA3 "@);
        },
        Security::Wpa3Enterprise => {
            reveal_strlit("WPA3 Enterprise");
            assert(t.take(5) =~= "WPA3 "@);
            assert(t.subrange(t.len() - 10, t.len() as int) =~= "Enterprise"@);
        },
        Security::Wpa3Transition => {
            reveal_strlit("WPA3 Transition");
            assert(t.take(5) =~= "WPA3 "@);
        },
        Security::Unknown => {
            reveal_strlit("Unknown");
        },
    }
}

/// The length of a security label, its fourth and sixth characters (a
/// space when it is shorter) and its last character: enough to tell the
/// labels apart.
spec fn label_shape(a: Security) -> (nat, char, char, char) {
    match a {
        Security::Open => (4, 'n', ' ', 'n'),
        Security::Wep => (3, ' ', ' ', 'P'),
        Security::WpaPersonal => (12, ' ', 'e', 'l'),
        Security::WpaPersonalMixed => (18, ' ', 'e', 'd'),
        Security::Wpa2Personal => (13, '2', 'P', 'l'),
        Security::WpaEnterprise => (14, ' ', 'n', 'e'),
        Security::WpaEnterpriseMixed => (20, ' ', 'n', 'd'),
        Security::Wpa2Enterprise => (15, '2', 'E', 'e'),
        Security::Wpa3Personal => (13, '3', 'P', 'l'),
        Security::Wpa3Enterprise => (15, '3', 'E', 'e'),
        Security::Wpa3Transition => (15, '3', 'T', 'n'),
        Security::Unknown => (7, 'n', 'w', 'n'),
    }
}

proof fn lemma_security_label_shape(a: Security)
    ensures
        security_text(a).len() == label_shape(a).0,
        security_text(a).len() > 3 ==> security_text(a)[3] == label_shape(a).1,
        security_text(a).len() > 5 ==> security_text(a)[5] == label_shape(a).2,
        security_text(a).len() > 0 && security_text(a).last() == label_shape(a).3,
{
    match a {
        Security::Open => {
            reveal_strlit("Open");
        },
        Security::Wep => {
            reveal_strlit("WEP");
        },
        Security::WpaPersonal => {
            reveal_strlit("WPA Personal");
        },
        Security::WpaPersonalMixed => {
            reveal_strlit("WPA Personal Mixed");
        },
        Security::Wpa2Personal => {
            reveal_strlit("WPA2 Personal");
        },
        Security::WpaEnterprise => {
            reveal_strlit("WPA Enterprise");
        },
        Security::WpaEnterpriseMixed => {
            reveal_strlit("WPA Enterprise Mixed");
        },
        Security::Wpa2Enterprise => {
            reveal_strlit("WPA2 Enterprise");
        },
        Security::Wpa3Personal => {
            reveal_strlit("WPA3 Personal");
        },
        Security::Wpa3Enterprise => {
            reveal_strlit("WPA3 Enterprise");
        },
        Security::Wpa3Transition => {
            reveal_strlit("WPA3 Transition");
        },
        Security::Unknown => {
            reveal_strlit("Unknown");
        },
    }
}

/// The text ends with `Enterprise`.
pub open spec fn ends_with_enterprise(t: Seq<char>) -> bool {
    t.len() >= 10 && t.subrange(t.len() - 10, t.len() as int) == "Enterprise"@
}

} // verus!
