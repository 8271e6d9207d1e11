//! Connection confidence, the streamed status fields, and the partial
//! status that accumulates them.
use vstd::prelude::*;
use crate::captive_portal::CaptivePortalStatus;
use crate::dns::Resolver;
use crate::interfaces::Interface;
use crate::ip_stack::IpStack;
use crate::probes::{ConnectResult, PingResult, ResolutionResult};
use crate::proxy::ProxyConfig;
use crate::vpn::VpnStatus;
use crate::wifi::{WifiIdentity, WifiRadio, WifiStatus};

verus! {

/// A probe result that either succeeded or did not.
pub trait ProbeOutcome {
    spec fn ok_spec(&self) -> bool;

    fn ok(&self) -> (r: bool)
        ensures
            r == self.ok_spec(),
    ;
}

impl ProbeOutcome for PingResult {
    open spec fn ok_spec(&self) -> bool {
        self.reachable
    }

    fn ok(&self) -> (r: bool) {
        self.reachable
    }
}

impl ProbeOutcome for ConnectResult {
    open spec fn ok_spec(&self) -> bool {
        self.reachable
    }

    fn ok(&self) -> (r: bool) {
        self.reachable
    }
}

impl ProbeOutcome for ResolutionResult {
    open spec fn ok_spec(&self) -> bool {
        self.resolved
    }

    fn ok(&self) -> (r: bool) {
        self.resolved
    }
}

/// How many of `s` succeeded.
pub open spec fn ok_count<T: ProbeOutcome>(s: Seq<T>) -> nat
    decreases s.len(),
{
    if s.len() == 0 {
        0
    } else {
        ok_count(s.drop_last()) + if s.last().ok_spec() {
            1nat
        } else {
            0nat
        }
    }
}

proof fn lemma_ok_count_bound<T: ProbeOutcome>(s: Seq<T>)
    ensures
        ok_count(s) <= s.len(),
    decreases s.len(),
{
    if s.len() > 0 {
        lemma_ok_count_bound(s.drop_last());
    }
}

/// More than half of the results succeeded; an empty list never does.
pub open spec fn majority<T: ProbeOutcome>(s: Seq<T>) -> bool {
    s.len() > 0 && ok_count(s) * 2 > s.len()
}

/// True if more than half of `results` succeeded: a single lucky reply from
/// an otherwise unreachable target list does not count as the category
/// working. Empty lists are never ok.
pub fn majority_ok<T: ProbeOutcome>(results: &[T]) -> (r: bool)
    ensures
        r == majority(results@),
{
    let n = results.len();
    let mut count: usize = 0;
    let mut i: usize = 0;
    while i < n
        invariant
            n == results.len(),
            0 <= i <= n,
            count == ok_count(results@.take(i as int)),
            count <= i,
        decreases n - i,
    {
        assert(results@.take(i + 1).drop_last() == results@.take(i as int));
        if results[i].ok() {
            count = count + 1;
        }
        i = i + 1;
    }
    assert(results@.take(n as int) == results@);
    n > 0 && count > n - count
}

/// How confident the machine has a working internet connection.
#[derive(Debug, Clone, Copy, PartialEq, Eq)]
pub enum ConnectionConfidence {
    Online,
    Limited,
    Offline,
}

/// Higher is better: Offline 0, Limited 1, Online 2.
pub open spec fn confidence_rank(c: ConnectionConfidence) -> nat {
    match c {
        ConnectionConfidence::Offline => 0,
        ConnectionConfidence::Limited => 1,
        ConnectionConfidence::Online => 2,
    }
}

pub open spec fn bool_count(a: bool, b: bool, c: bool) -> nat {
    (if a {
        1nat
    } else {
        0nat
    }) + (if b {
        1nat
    } else {
        0nat
    }) + (if c {
        1nat
    } else {
        0nat
    })
}

/// Two or three working categories is online, one is limited, none is
/// offline.
pub open spec fn confidence_from_spec(dns_ok: bool, ping_ok: bool, tcp_ok: bool) -> ConnectionConfidence {
    let n = bool_count(dns_ok, ping_ok, tcp_ok);
    if n >= 2 {
        ConnectionConfidence::Online
    } else if n == 1 {
        ConnectionConfidence::Limited
    } else {
        ConnectionConfidence::Offline
    }
}

/// Rolls the three categories (DNS resolution, ICMP reachability, TCP
/// connect) into one confidence tier.
pub fn confidence_from(dns_ok: bool, ping_ok: bool, tcp_ok: bool) -> (r: ConnectionConfidence)
    ensures
        r == confidence_from_spec(dns_ok, ping_ok, tcp_ok),
{
    let n: u8 = (if dns_ok { 1u8 } else { 0u8 }) + (if ping_ok { 1u8 } else { 0u8 }) + (if tcp_ok {
        1u8
    } else {
        0u8
    });
    if n >= 2 {
        ConnectionConfidence::Online
    } else if n == 1 {
        ConnectionConfidence::Limited
    } else {
        ConnectionConfidence::Offline
    }
}

/// A confirmed captive portal caps `Online` at `Limited`; nothing else
/// changes.
pub open spec fn cap_spec(c: ConnectionConfidence, p: CaptivePortalStatus) -> ConnectionConfidence {
    if p == CaptivePortalStatus::Detected && c == ConnectionConfidence::Online {
        ConnectionConfidence::Limited
    } else {
        c
    }
}

/// Caps `confidence` at `Limited` when a portal is confirmed present. An
/// `Unknown` probe is no evidence of a portal and does not cap.
pub fn cap_for_captive_portal(
    confidence: ConnectionConfidence,
    captive_portal: CaptivePortalStatus,
) -> (r: ConnectionConfidence)
    ensures
        r == cap_spec(confidence, captive_portal),
        confidence_rank(r) <= confidence_rank(confidence),
{
    match (captive_portal, confidence) {
        (CaptivePortalStatus::Detected, ConnectionConfidence::Online) => ConnectionConfidence::Limited,
        _ => confidence,
    }
}

/// The tier the four core probe lists vote for: DNS works when most
/// lookups resolved, ICMP when most IPv4 or most IPv6 targets replied (each
/// stack judged on its own), TCP when most connects completed.
pub open spec fn signals_confidence(
    resolution: Seq<ResolutionResult>,
    reachability: Seq<PingResult>,
    reachability_v6: Seq<PingResult>,
    domain_reachability: Seq<ConnectResult>,
) -> ConnectionConfidence {
    confidence_from_spec(
        majority(resolution),
        majority(reachability) || majority(reachability_v6),
        majority(domain_reachability),
    )
}

fn confidence_of_lists(
    resolution: &[ResolutionResult],
    reachability: &[PingResult],
    reachability_v6: &[PingResult],
    domain_reachability: &[ConnectResult],
) -> (r: ConnectionConfidence)
    ensures
        r == signals_confidence(
            resolution@,
            reachability@,
            reachability_v6@,
            domain_reachability@,
        ),
{
    let dns_ok = majority_ok(resolution);
    let ping_ok = majority_ok(reachability) || majority_ok(reachability_v6);
    let tcp_ok = majority_ok(domain_reachability);
    confidence_from(dns_ok, ping_ok, tcp_ok)
}

/// A full snapshot of the machine's network status.
#[derive(Debug, Clone, PartialEq)]
pub struct NetworkStatus {
    pub interfaces: Vec<Interface>,
    pub vpn: VpnStatus,
    pub resolvers: Vec<Resolver>,
    pub split_dns: bool,
    pub reachability: Vec<PingResult>,
    pub reachability_v6: Vec<PingResult>,
    pub resolution: Vec<ResolutionResult>,
    /// TCP connect (port 443) reachability of the well-known domains.
    pub domain_reachability: Vec<ConnectResult>,
    /// ICMP reachability of the default gateway's IP(s).
    pub gateway_reachability: Vec<PingResult>,
    /// ICMP reachability of each configured resolver's IP.
    pub nameserver_reachability: Vec<PingResult>,
    /// TCP connect (port 53) reachability of each configured resolver's IP.
    pub nameserver_connect: Vec<ConnectResult>,
    pub proxy: ProxyConfig,
    pub wifi: WifiStatus,
    pub ip_stack: IpStack,
    pub captive_portal: CaptivePortalStatus,
}

impl NetworkStatus {
    /// The tier the core probes vote for, capped when a captive portal is
    /// confirmed.
    pub fn confidence(&self) -> (r: ConnectionConfidence)
        ensures
            r == cap_spec(
                signals_confidence(
                    self.resolution@,
                    self.reachability@,
                    self.reachability_v6@,
                    self.domain_reachability@,
                ),
                self.captive_portal,
            ),
    {
        let c = confidence_of_lists(
            self.resolution.as_slice(),
            self.reachability.as_slice(),
            self.reachability_v6.as_slice(),
            self.domain_reachability.as_slice(),
        );
        cap_for_captive_portal(c, self.captive_portal)
    }
}

/// The four probes that determine confidence.
#[derive(Debug, Clone, PartialEq)]
pub struct CoreSignals {
    pub resolution: Vec<ResolutionResult>,
    pub reachability: Vec<PingResult>,
    pub reachability_v6: Vec<PingResult>,
    pub domain_reachability: Vec<ConnectResult>,
}

impl CoreSignals {
    pub fn confidence(&self) -> (r: ConnectionConfidence)
        ensures
            r == signals_confidence(
                self.resolution@,
                self.reachability@,
                self.reachability_v6@,
                self.domain_reachability@,
            ),
    {
        confidence_of_lists(
            self.resolution.as_slice(),
            self.reachability.as_slice(),
            self.reachability_v6.as_slice(),
            self.domain_reachability.as_slice(),
        )
    }
}

/// Confidence from only the three signal categories, without the captive
/// portal probe (and so without its cap).
pub fn confidence_only(signals: &CoreSignals) -> (r: ConnectionConfidence)
    ensures
        r == signals_confidence(
            signals.resolution@,
            signals.reachability@,
            signals.reachability_v6@,
            signals.domain_reachability@,
        ),
{
    signals.confidence()
}

/// Which target list a streamed `Ping`/`Connect` item, or a
/// `GroupComplete` marker, belongs to.
#[derive(Debug, Clone, Copy, PartialEq, Eq, Structural)]
pub enum ProbeGroup {
    Reachability,
    ReachabilityV6,
    GatewayReachability,
    NameserverReachability,
    DomainReachability,
    NameserverConnect,
    Resolution,
}

/// A command the `watch` subcommand accepts: run a full check now.
#[derive(Debug, Clone, Copy, PartialEq, Eq)]
pub enum WatchCommand {
    Refresh,
}

/// One probe's result, delivered as soon as that probe completes.
#[derive(Debug, Clone, PartialEq)]
pub enum StatusField {
    Interfaces(Vec<Interface>),
    Vpn(VpnStatus),
    Resolvers(Vec<Resolver>),
    SplitDns(bool),
    Ping { group: ProbeGroup, result: PingResult },
    Connect { group: ProbeGroup, result: ConnectResult },
    Resolution(ResolutionResult),
    GroupComplete(ProbeGroup),
    Proxy(ProxyConfig),
    WifiIdentity(WifiIdentity),
    WifiRadio(WifiRadio),
    IpStack(IpStack),
    CaptivePortal(CaptivePortalStatus),
}

/// Groups whose items are ICMP pings.
pub open spec fn is_ping_group(g: ProbeGroup) -> bool {
    g == ProbeGroup::Reachability || g == ProbeGroup::ReachabilityV6 || g
        == ProbeGroup::GatewayReachability || g == ProbeGroup::NameserverReachability
}

/// Groups whose items are TCP connects.
pub open spec fn is_connect_group(g: ProbeGroup) -> bool {
    g == ProbeGroup::DomainReachability || g == ProbeGroup::NameserverConnect
}

/// A `Ping` item carries a ping group and a `Connect` item a connect group,
/// as every probe sends them.
pub open spec fn field_well_formed(f: StatusField) -> bool {
    match f {
        StatusField::Ping { group, .. } => is_ping_group(group),
        StatusField::Connect { group, .. } => is_connect_group(group),
        _ => true,
    }
}

/// A result that identifies its target by text.
pub trait Keyed {
    spec fn key_spec(&self) -> Seq<char>;

    fn key(&self) -> (r: &String)
        ensures
            r@ == self.key_spec(),
    ;
}

impl Keyed for PingResult {
    open spec fn key_spec(&self) -> Seq<char> {
        self.target@
    }

    fn key(&self) -> (r: &String) {
        &self.target
    }
}

impl Keyed for ConnectResult {
    open spec fn key_spec(&self) -> Seq<char> {
        self.target@
    }

    fn key(&self) -> (r: &String) {
        &self.target
    }
}

impl Keyed for ResolutionResult {
    open spec fn key_spec(&self) -> Seq<char> {
        self.domain@
    }

    fn key(&self) -> (r: &String) {
        &self.domain
    }
}

/// Position of the first entry of `s` whose key is `k`.
pub open spec fn first_key_index<T: Keyed>(s: Seq<T>, k: Seq<char>) -> Option<int>
    decreases s.len(),
{
    if s.len() == 0 {
        None
    } else if s[0].key_spec() == k {
        Some(0)
    } else {
        match first_key_index(s.drop_first(), k) {
            Some(i) => Some(i + 1),
            None => None,
        }
    }
}

proof fn lemma_first_key_index<T: Keyed>(s: Seq<T>, k: Seq<char>)
    ensures
        match first_key_index(s, k) {
            Some(i) => 0 <= i < s.len() && s[i].key_spec() == k && forall|j: int|
                0 <= j < i ==> s[j].key_spec() != k,
            None => forall|j: int| 0 <= j < s.len() ==> s[j].key_spec() != k,
        },
    decreases s.len(),
{
    if s.len() > 0 {
        lemma_first_key_index(s.drop_first(), k);
        assert forall|j: int| 1 <= j < s.len() implies s[j] == s.drop_first()[j - 1] by {}
    }
}

/// The entry with `item`'s key replaced by `item`, or `item` appended when
/// no entry has its key: a target keeps its first-seen position.
pub open spec fn upserted<T: Keyed>(s: Seq<T>, item: T) -> Seq<T> {
    match first_key_index(s, item.key_spec()) {
        Some(i) => s.update(i, item),
        None => s.push(item),
    }
}

/// Replaces the entry of `list` with `item`'s key by `item`, or appends it.
pub fn upsert_by<T: Keyed>(list: &mut Vec<T>, item: T)
    ensures
        final(list)@ == upserted(old(list)@, item),
{
    proof {
        lemma_first_key_index(old(list)@, item.key_spec());
    }
    let mut i: usize = 0;
    while i < list.len()
        invariant
            list@ == old(list)@,
            0 <= i <= list.len(),
            forall|j: int| 0 <= j < i ==> list@[j].key_spec() != item.key_spec(),
        decreases list.len() - i,
    {
        if *list[i].key() == *item.key() {
            proof {
                lemma_first_key_index(old(list)@, item.key_spec());
                let f = first_key_index(old(list)@, item.key_spec());
                if f is None {
                    assert(list@[i as int].key_spec() != item.key_spec());
                } else if f->0 < i {
                    assert(list@[f->0].key_spec() != item.key_spec());
                } else if f->0 > i {
                    assert(list@[i as int].key_spec() != item.key_spec());
                }
            }
            list.set(i, item);
            return;
        }
        i = i + 1;
    }
    proof {
        lemma_first_key_index(old(list)@, item.key_spec());
        let f = first_key_index(old(list)@, item.key_spec());
        if f is Some {
            assert(list@[f->0].key_spec() != item.key_spec());
        }
    }
    list.push(item);
}

/// No two entries share a key.
pub open spec fn keys_distinct<T: Keyed>(s: Seq<T>) -> bool {
    forall|i: int, j: int| 0 <= i < j < s.len() ==> s[i].key_spec() != s[j].key_spec()
}

/// Upserting keeps the entries' keys distinct, holds the new item, and
/// adds at most one entry.
pub proof fn lemma_upsert_keeps_keys_distinct<T: Keyed>(s: Seq<T>, item: T)
    requires
        keys_distinct(s),
    ensures
        keys_distinct(upserted(s, item)),
        upserted(s, item).contains(item),
        s.len() <= upserted(s, item).len() <= s.len() + 1,
{
    lemma_first_key_index(s, item.key_spec());
    let u = upserted(s, item);
    match first_key_index(s, item.key_spec()) {
        Some(i) => {
            assert(u[i] == item);
        },
        None => {
            assert(u[s.len() as int] == item);
        },
    }
}

/// Accumulates `StatusField`s as they stream in: one `Option` per
/// single-value field, one list (upserted by target) per target-list
/// group.
#[derive(Debug, Clone, PartialEq)]
pub struct PartialStatus {
    pub interfaces: Option<Vec<Interface>>,
    pub vpn: Option<VpnStatus>,
    pub split_dns: Option<bool>,
    pub resolvers: Option<Vec<Resolver>>,
    pub reachability: Vec<PingResult>,
    pub reachability_v6: Vec<PingResult>,
    pub resolution: Vec<ResolutionResult>,
    pub domain_reachability: Vec<ConnectResult>,
    pub gateway_reachability: Vec<PingResult>,
    pub nameserver_reachability: Vec<PingResult>,
    pub nameserver_connect: Vec<ConnectResult>,
    pub proxy: Option<ProxyConfig>,
    pub wifi_identity: Option<WifiIdentity>,
    pub wifi_radio: Option<WifiRadio>,
    pub ip_stack: Option<IpStack>,
    pub captive_portal: Option<CaptivePortalStatus>,
    /// Groups whose target list has fully drained at least once (as a
    /// set: the order and any repeat carry no meaning).
    pub completed_groups: Vec<ProbeGroup>,
}

impl PartialStatus {
    /// The groups marked complete so far.
    pub open spec fn completed(&self) -> Set<ProbeGroup> {
        self.completed_groups@.to_set()
    }

    /// Nothing has arrived yet.
    pub open spec fn is_empty_status(&self) -> bool {
        &&& self.interfaces is None
        &&& self.vpn is None
        &&& self.split_dns is None
        &&& self.resolvers is None
        &&& self.reachability.len() == 0
        &&& self.reachability_v6.len() == 0
        &&& self.resolution.len() == 0
        &&& self.domain_reachability.len() == 0
        &&& self.gateway_reachability.len() == 0
        &&& self.nameserver_reachability.len() == 0
        &&& self.nameserver_connect.len() == 0
        &&& self.proxy is None
        &&& self.wifi_identity is None
        &&& self.wifi_radio is None
        &&& self.ip_stack is None
        &&& self.captive_portal is None
        &&& self.completed() == Set::<ProbeGroup>::empty()
    }
}

impl Default for PartialStatus {
    fn default() -> (r: Self)
        ensures
            r.is_empty_status(),
    {
        let r = PartialStatus {
            interfaces: None,
            vpn: None,
            split_dns: None,
            resolvers: None,
            reachability: Vec::new(),
            reachability_v6: Vec::new(),
            resolution: Vec::new(),
            domain_reachability: Vec::new(),
            gateway_reachability: Vec::new(),
            nameserver_reachability: Vec::new(),
            nameserver_connect: Vec::new(),
            proxy: None,
            wifi_identity: None,
            wifi_radio: None,
            ip_stack: None,
            captive_portal: None,
            completed_groups: Vec::new(),
        };
        assert(r.completed_groups@.to_set() =~= Set::<ProbeGroup>::empty());
        r
    }
}

/// The ping list of group `g` after `f` (only a `Ping` item of that group
/// changes it).
pub open spec fn ping_list_after(l: Seq<PingResult>, f: StatusField, g: ProbeGroup) -> Seq<PingResult> {
    match f {
        StatusField::Ping { group, result } => if group == g {
            upserted(l, result)
        } else {
            l
        },
        _ => l,
    }
}

pub open spec fn connect_list_after(l: Seq<ConnectResult>, f: StatusField, g: ProbeGroup) -> Seq<
    ConnectResult,
> {
    match f {
        StatusField::Connect { group, result } => if group == g {
            upserted(l, result)
        } else {
            l
        },
        _ => l,
    }
}

/// `n` is `o` with field `f` merged in: a single-value field replaces its
/// slot, a target-list item is upserted into its group's list, a
/// `GroupComplete` marks its group; everything else is unchanged.
pub open spec fn merged(o: PartialStatus, n: PartialStatus, f: StatusField) -> bool {
    &&& n.interfaces == (match f {
        StatusField::Interfaces(v) => Some(v),
        _ => o.interfaces,
    })
    &&& n.vpn == (match f {
        StatusField::Vpn(v) => Some(v),
        _ => o.vpn,
    })
    &&& n.resolvers == (match f {
        StatusField::Resolvers(v) => Some(v),
        _ => o.resolvers,
    })
    &&& n.split_dns == (match f {
        StatusField::SplitDns(v) => Some(v),
        _ => o.split_dns,
    })
    &&& n.reachability@ == ping_list_after(o.reachability@, f, ProbeGroup::Reachability)
    &&& n.reachability_v6@ == ping_list_after(o.reachability_v6@, f, ProbeGroup::ReachabilityV6)
    &&& n.gateway_reachability@ == ping_list_after(
        o.gateway_reachability@,
        f,
        ProbeGroup::GatewayReachability,
    )
    &&& n.nameserver_reachability@ == ping_list_after(
        o.nameserver_reachability@,
        f,
        ProbeGroup::NameserverReachability,
    )
    &&& n.domain_reachability@ == connect_list_after(
        o.domain_reachability@,
        f,
        ProbeGroup::DomainReachability,
    )
    &&& n.nameserver_connect@ == connect_list_after(
        o.nameserver_connect@,
        f,
        ProbeGroup::NameserverConnect,
    )
    &&& n.resolution@ == (match f {
        StatusField::Resolution(v) => upserted(o.resolution@, v),
        _ => o.resolution@,
    })
    &&& n.completed() == (match f {
        StatusField::GroupComplete(g) => o.completed().insert(g),
        _ => o.completed(),
    })
    &&& n.proxy == (match f {
        StatusField::Proxy(v) => Some(v),
        _ => o.proxy,
    })
    &&& n.wifi_identity == (match f {
        StatusField::WifiIdentity(v) => Some(v),
        _ => o.wifi_identity,
    })
    &&& n.wifi_radio == (match f {
        StatusField::WifiRadio(v) => Some(v),
        _ => o.wifi_radio,
    })
    &&& n.ip_stack == (match f {
        StatusField::IpStack(v) => Some(v),
        _ => o.ip_stack,
    })
    &&& n.captive_portal == (match f {
        StatusField::CaptivePortal(v) => Some(v),
        _ => o.captive_portal,
    })
}

pub open spec fn has_any_spec(s: PartialStatus) -> bool {
    ||| s.interfaces is Some
    ||| s.vpn is Some
    ||| s.resolvers is Some
    ||| s.split_dns is Some
    ||| s.reachability.len() > 0
    ||| s.reachability_v6.len() > 0
    ||| s.resolution.len() > 0
    ||| s.domain_reachability.len() > 0
    ||| s.gateway_reachability.len() > 0
    ||| s.nameserver_reachability.len() > 0
    ||| s.nameserver_connect.len() > 0
    ||| s.proxy is Some
    ||| s.wifi_identity is Some
    ||| s.wifi_radio is Some
    ||| s.ip_stack is Some
    ||| s.captive_portal is Some
}

/// The four groups confidence waits for.
pub open spec fn core_groups_complete(done: Set<ProbeGroup>) -> bool {
    &&& done.contains(ProbeGroup::Resolution)
    &&& done.contains(ProbeGroup::Reachability)
    &&& done.contains(ProbeGroup::ReachabilityV6)
    &&& done.contains(ProbeGroup::DomainReachability)
}

pub open spec fn partial_confidence_spec(s: PartialStatus) -> Option<ConnectionConfidence> {
    if core_groups_complete(s.completed()) && s.captive_portal is Some {
        Some(
            cap_spec(
                signals_confidence(
                    s.resolution@,
                    s.reachability@,
                    s.reachability_v6@,
                    s.domain_reachability@,
                ),
                s.captive_portal->0,
            ),
        )
    } else {
        None
    }
}

fn mark_complete(groups: &mut Vec<ProbeGroup>, g: ProbeGroup)
    ensures
        final(groups)@.to_set() == old(groups)@.to_set().insert(g),
{
    let mut i: usize = 0;
    while i < groups.len()
        invariant
            groups@ == old(groups)@,
            0 <= i <= groups.len(),
            forall|j: int| 0 <= j < i ==> groups@[j] != g,
        decreases groups.len() - i,
    {
        if groups[i] == g {
            assert(groups@.to_set() =~= groups@.to_set().insert(g)) by {
                assert(groups@.to_set().contains(groups@[i as int]));
            }
            return;
        }
        i = i + 1;
    }
    let ghost before = groups@;
    groups.push(g);
    assert(groups@.to_set() =~= before.to_set().insert(g)) by {
        assert forall|x: ProbeGroup| groups@.to_set().contains(x) implies before.to_set().insert(
            g,
        ).contains(x) by {
            let j = choose|j: int| 0 <= j < groups@.len() && groups@[j] == x;
            if j < before.len() {
                assert(before[j] == x);
            }
        }
        assert forall|x: ProbeGroup| before.to_set().insert(g).contains(x) implies groups@.to_set().contains(
            x,
        ) by {
            if x == g {
                assert(groups@[before.len() as int] == g);
            } else {
                let j = choose|j: int| 0 <= j < before.len() && before[j] == x;
                assert(groups@[j] == x);
            }
        }
    }
}

fn has_group(groups: &Vec<ProbeGroup>, g: ProbeGroup) -> (r: bool)
    ensures
        r == groups@.to_set().contains(g),
{
    let mut i: usize = 0;
    while i < groups.len()
        invariant
            0 <= i <= groups.len(),
            forall|j: int| 0 <= j < i ==> groups@[j] != g,
        decreases groups.len() - i,
    {
        if groups[i] == g {
            assert(groups@.to_set().contains(groups@[i as int]));
            return true;
        }
        i = i + 1;
    }
    assert(!groups@.to_set().contains(g)) by {
        if groups@.to_set().contains(g) {
            let j = choose|j: int| 0 <= j < groups@.len() && groups@[j] == g;
        }
    }
    false
}

impl PartialStatus {
    /// Merges one streamed field.
    pub fn merge(&mut self, field: StatusField)
        requires
            field_well_formed(field),
        ensures
            merged(*old(self), *final(self), field),
    {
        proof {
            let _ = self.completed();
        }
        match field {
            StatusField::Interfaces(v) => self.interfaces = Some(v),
            StatusField::Vpn(v) => self.vpn = Some(v),
            StatusField::Resolvers(v) => self.resolvers = Some(v),
            StatusField::SplitDns(v) => self.split_dns = Some(v),
            StatusField::Ping { group, result } => {
                match group {
                    ProbeGroup::Reachability => upsert_by(&mut self.reachability, result),
                    ProbeGroup::ReachabilityV6 => upsert_by(&mut self.reachability_v6, result),
                    ProbeGroup::GatewayReachability => upsert_by(
                        &mut self.gateway_reachability,
                        result,
                    ),
                    _ => upsert_by(&mut self.nameserver_reachability, result),
                }
            },
            StatusField::Connect { group, result } => {
                match group {
                    ProbeGroup::DomainReachability => upsert_by(
                        &mut self.domain_reachability,
                        result,
                    ),
                    _ => upsert_by(&mut self.nameserver_connect, result),
                }
            },
            StatusField::Resolution(v) => upsert_by(&mut self.resolution, v),
            StatusField::GroupComplete(group) => mark_complete(&mut self.completed_groups, group),
            StatusField::Proxy(v) => self.proxy = Some(v),
            StatusField::WifiIdentity(v) => self.wifi_identity = Some(v),
            StatusField::WifiRadio(v) => self.wifi_radio = Some(v),
            StatusField::IpStack(v) => self.ip_stack = Some(v),
            StatusField::CaptivePortal(v) => self.captive_portal = Some(v),
        }
    }

    /// Whether any field has arrived.
    pub fn has_any(&self) -> (r: bool)
        ensures
            r == has_any_spec(*self),
    {
        self.interfaces.is_some() || self.vpn.is_some() || self.resolvers.is_some()
            || self.split_dns.is_some() || self.reachability.len() > 0
            || self.reachability_v6.len() > 0 || self.resolution.len() > 0
            || self.domain_reachability.len() > 0 || self.gateway_reachability.len() > 0
            || self.nameserver_reachability.len() > 0 || self.nameserver_connect.len() > 0
            || self.proxy.is_some() || self.wifi_identity.is_some() || self.wifi_radio.is_some()
            || self.ip_stack.is_some() || self.captive_portal.is_some()
    }

    /// `None` until resolution, both reachability groups and domain
    /// reachability have fully drained and the captive-portal probe has
    /// answered; then the capped tier of the four lists.
    pub fn confidence(&self) -> (r: Option<ConnectionConfidence>)
        ensures
            r == partial_confidence_spec(*self),
    {
        if !has_group(&self.completed_groups, ProbeGroup::Resolution) || !has_group(
            &self.completed_groups,
            ProbeGroup::Reachability,
        ) || !has_group(&self.completed_groups, ProbeGroup::ReachabilityV6) || !has_group(
            &self.completed_groups,
            ProbeGroup::DomainReachability,
        ) {
            return None;
        }
        let captive_portal = match self.captive_portal {
            Some(c) => c,
            None => return None,
        };
        let c = confidence_of_lists(
            self.resolution.as_slice(),
            self.reachability.as_slice(),
            self.reachability_v6.as_slice(),
            self.domain_reachability.as_slice(),
        );
        Some(cap_for_captive_portal(c, captive_portal))
    }
}

/// More working categories never lower the confidence tier.
pub proof fn lemma_confidence_from_monotone(
    dns1: bool,
    ping1: bool,
    tcp1: bool,
    dns2: bool,
    ping2: bool,
    tcp2: bool,
)
    requires
        dns1 ==> dns2,
        ping1 ==> ping2,
        tcp1 ==> tcp2,
    ensures
        confidence_rank(confidence_from_spec(dns1, ping1, tcp1)) <= confidence_rank(
            confidence_from_spec(dns2, ping2, tcp2),
        ),
{
}

/// The tier depends only on how many categories work, not which.
pub proof fn lemma_confidence_from_symmetric(dns: bool, ping: bool, tcp: bool)
    ensures
        confidence_from_spec(dns, ping, tcp) == confidence_from_spec(ping, dns, tcp),
        confidence_from_spec(dns, ping, tcp) == confidence_from_spec(tcp, ping, dns),
        confidence_from_spec(dns, ping, tcp) == confidence_from_spec(dns, tcp, ping),
{
}

/// The captive-portal cap never raises a tier, and only ever turns
/// `Online` into `Limited`, and only for a confirmed portal.
pub proof fn lemma_cap_never_raises(c: ConnectionConfidence, p: CaptivePortalStatus)
    ensures
        confidence_rank(cap_spec(c, p)) <= confidence_rank(c),
        cap_spec(c, p) != c ==> p == CaptivePortalStatus::Detected && c
            == ConnectionConfidence::Online && cap_spec(c, p) == ConnectionConfidence::Limited,
        cap_spec(cap_spec(c, p), p) == cap_spec(c, p),
{
}

/// The snapshot's confidence is the confidence-only tier of the same four
/// lists with the captive-portal cap applied: the two agree unless a
/// portal is confirmed, and the snapshot's is never the higher.
pub proof fn lemma_snapshot_vs_confidence_only(status: NetworkStatus, signals: CoreSignals)
    requires
        signals.resolution@ == status.resolution@,
        signals.reachability@ == status.reachability@,
        signals.reachability_v6@ == status.reachability_v6@,
        signals.domain_reachability@ == status.domain_reachability@,
    ensures
        ({
            let only = signals_confidence(
                signals.resolution@,
                signals.reachability@,
                signals.reachability_v6@,
                signals.domain_reachability@,
            );
            let full = cap_spec(
                signals_confidence(
                    status.resolution@,
                    status.reachability@,
                    status.reachability_v6@,
                    status.domain_reachability@,
                ),
                status.captive_portal,
            );
            &&& confidence_rank(full) <= confidence_rank(only)
            &&& status.captive_portal != CaptivePortalStatus::Detected ==> full == only
        }),
{
}

/// Once the four groups have drained and the portal probe answered, the
/// partial status reports the tier a full snapshot with the same four
/// lists and portal result would.
pub proof fn lemma_partial_agrees_with_snapshot(partial: PartialStatus, status: NetworkStatus)
    requires
        core_groups_complete(partial.completed()),
        partial.captive_portal == Some(status.captive_portal),
        partial.resolution@ == status.resolution@,
        partial.reachability@ == status.reachability@,
        partial.reachability_v6@ == status.reachability_v6@,
        partial.domain_reachability@ == status.domain_reachability@,
    ensures
        partial_confidence_spec(partial) == Some(
            cap_spec(
                signals_confidence(
                    status.resolution@,
                    status.reachability@,
                    status.reachability_v6@,
                    status.domain_reachability@,
                ),
                status.captive_portal,
            ),
        ),
{
}

/// Merging any field other than a `GroupComplete` marker leaves something
/// to show.
pub proof fn lemma_merge_gives_any(o: PartialStatus, n: PartialStatus, f: StatusField)
    requires
        field_well_formed(f),
        merged(o, n, f),
        !(f is GroupComplete),
    ensures
        has_any_spec(n),
{
    match f {
        StatusField::Ping { group, result } => {
            if group == ProbeGroup::Reachability {
                lemma_upserted_nonempty(o.reachability@, result);
            } else if group == ProbeGroup::ReachabilityV6 {
                lemma_upserted_nonempty(o.reachability_v6@, result);
            } else if group == ProbeGroup::GatewayReachability {
                lemma_upserted_nonempty(o.gateway_reachability@, result);
            } else {
                lemma_upserted_nonempty(o.nameserver_reachability@, result);
            }
        },
        StatusField::Connect { group, result } => {
            if group == ProbeGroup::DomainReachability {
                lemma_upserted_nonempty(o.domain_reachability@, result);
            } else {
                lemma_upserted_nonempty(o.nameserver_connect@, result);
            }
        },
        StatusField::Resolution(v) => {
            lemma_upserted_nonempty(o.resolution@, v);
        },
        _ => {},
    }
}

/// A merge never takes away something to show, and a `GroupComplete`
/// marker adds nothing to show.
proof fn lemma_merge_any_step(o: PartialStatus, n: PartialStatus, f: StatusField)
    requires
        field_well_formed(f),
        merged(o, n, f),
    ensures
        has_any_spec(o) ==> has_any_spec(n),
        f is GroupComplete ==> has_any_spec(n) == has_any_spec(o),
{
    match f {
        StatusField::Ping { group, result } => {
            lemma_upserted_nonempty(o.reachability@, result);
            lemma_upserted_nonempty(o.reachability_v6@, result);
            lemma_upserted_nonempty(o.gateway_reachability@, result);
            lemma_upserted_nonempty(o.nameserver_reachability@, result);
        },
        StatusField::Connect { group, result } => {
            lemma_upserted_nonempty(o.domain_reachability@, result);
            lemma_upserted_nonempty(o.nameserver_connect@, result);
        },
        StatusField::Resolution(v) => {
            lemma_upserted_nonempty(o.resolution@, v);
        },
        _ => {},
    }
}

/// Starting from the empty status and merging `fields` one by one
/// (`states[i + 1]` is `states[i]` with `fields[i]` merged), there is
/// something to show exactly when some merged field is not a
/// `GroupComplete` marker: the empty status shows nothing, markers alone
/// never make it show anything, and once it shows something it keeps
/// doing so.
pub proof fn lemma_has_any_after_merges(states: Seq<PartialStatus>, fields: Seq<StatusField>)
    requires
        states.len() == fields.len() + 1,
        states[0].is_empty_status(),
        forall|i: int|
            0 <= i < fields.len() ==> field_well_formed(#[trigger] fields[i]) && merged(
                states[i],
                states[i + 1],
                fields[i],
            ),
    ensures
        has_any_spec(states.last()) == exists|i: int|
            0 <= i < fields.len() && !(#[trigger] fields[i] is GroupComplete),
    decreases fields.len(),
{
    if fields.len() == 0 {
        return;
    }
    let k = fields.len() - 1;
    let ps = states.drop_last();
    let pf = fields.drop_last();
    assert forall|i: int| 0 <= i < pf.len() implies field_well_formed(#[trigger] pf[i]) && merged(
        ps[i],
        ps[i + 1],
        pf[i],
    ) by {
        assert(pf[i] == fields[i]);
        assert(ps[i] == states[i] && ps[i + 1] == states[i + 1]);
        assert(field_well_formed(fields[i]));
    }
    lemma_has_any_after_merges(ps, pf);
    assert(field_well_formed(fields[k]));
    assert(ps.last() == states[k]);
    lemma_merge_any_step(states[k], states[k + 1], fields[k]);
    if !(fields[k] is GroupComplete) {
        lemma_merge_gives_any(states[k], states[k + 1], fields[k]);
    }
    if exists|i: int| 0 <= i < fields.len() && !(#[trigger] fields[i] is GroupComplete) {
        let i = choose|i: int| 0 <= i < fields.len() && !(#[trigger] fields[i] is GroupComplete);
        if i < k {
            assert(pf[i] == fields[i]);
        }
    }
    if exists|i: int| 0 <= i < pf.len() && !(#[trigger] pf[i] is GroupComplete) {
        let i = choose|i: int| 0 <= i < pf.len() && !(#[trigger] pf[i] is GroupComplete);
        assert(fields[i] == pf[i]);
    }
}

proof fn lemma_upserted_nonempty<T: Keyed>(s: Seq<T>, item: T)
    ensures
        upserted(s, item).len() >= 1,
        upserted(s, item).len() >= s.len(),
{
    lemma_first_key_index(s, item.key_spec());
}

/// Every target list of the partial status names each target once.
pub open spec fn targets_distinct(s: PartialStatus) -> bool {
    &&& keys_distinct(s.reachability@)
    &&& keys_distinct(s.reachability_v6@)
    &&& keys_distinct(s.gateway_reachability@)
    &&& keys_distinct(s.nameserver_reachability@)
    &&& keys_distinct(s.domain_reachability@)
    &&& keys_distinct(s.nameserver_connect@)
    &&& keys_distinct(s.resolution@)
}

/// Merging keeps every target list free of repeated targets: a re-run's
/// result replaces the earlier one in place.
pub proof fn lemma_merge_keeps_targets_distinct(o: PartialStatus, n: PartialStatus, f: StatusField)
    requires
        field_well_formed(f),
        merged(o, n, f),
        targets_distinct(o),
    ensures
        targets_distinct(n),
{
    match f {
        StatusField::Ping { group, result } => {
            lemma_upsert_keeps_keys_distinct(o.reachability@, result);
            lemma_upsert_keeps_keys_distinct(o.reachability_v6@, result);
            lemma_upsert_keeps_keys_distinct(o.gateway_reachability@, result);
            lemma_upsert_keeps_keys_distinct(o.nameserver_reachability@, result);
        },
        StatusField::Connect { group, result } => {
            lemma_upsert_keeps_keys_distinct(o.domain_reachability@, result);
            lemma_upsert_keeps_keys_distinct(o.nameserver_connect@, result);
        },
        StatusField::Resolution(v) => {
            lemma_upsert_keeps_keys_distinct(o.resolution@, v);
        },
        _ => {},
    }
}

/// A streamed status yields a confidence only once all four of Resolution,
/// Reachability, ReachabilityV6 and DomainReachability have fully drained
/// and the captive-portal probe has answered: while any one of them is
/// missing, there is none; once all are in, there is one.
pub proof fn lemma_partial_confidence_waits(s: PartialStatus)
    ensures
        !s.completed().contains(ProbeGroup::Resolution) ==> partial_confidence_spec(s) is None,
        !s.completed().contains(ProbeGroup::Reachability) ==> partial_confidence_spec(s) is None,
        !s.completed().contains(ProbeGroup::ReachabilityV6) ==> partial_confidence_spec(s) is None,
        !s.completed().contains(ProbeGroup::DomainReachability) ==> partial_confidence_spec(s) is None,
        s.captive_portal is None ==> partial_confidence_spec(s) is None,
        (s.completed().contains(ProbeGroup::Resolution) && s.completed().contains(
            ProbeGroup::Reachability,
        ) && s.completed().contains(ProbeGroup::ReachabilityV6) && s.completed().contains(
            ProbeGroup::DomainReachability,
        ) && s.captive_portal is Some) ==> partial_confidence_spec(s) is Some,
{
}

} // verus!
