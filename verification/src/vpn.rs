//! VPN / tunnel status derived from the interface list and the primary
//! (default-route) interface.
use vstd::prelude::*;
use vstd::string::StringExecFns;
use crate::interfaces::{Interface, is_link_local, is_link_local_spec, texts};
use crate::plist::{
    Dictionary, cf_dict_array, cf_string, cf_string_array, derefs, dict_array_at, dict_at, get_dict,
    text_array_at, text_at,
};
use crate::ipv4::{ipv4_value, parse_ipv4};
use crate::text::{decimal, decimal_string, starts_with, str_starts_with};

verus! {

/// VPN / tunnel status. `routed_subnets` are the subnets routed through the
/// VPN (its own assigned address/subnet plus any split-tunnel destinations
/// it pushes) as CIDR text; empty when not connected.
#[derive(Debug, Clone, PartialEq)]
pub struct VpnStatus {
    pub tunnels: Vec<String>,
    pub primary_interface: Option<String>,
    pub connected: bool,
    pub split_tunnel: bool,
    pub routed_subnets: Vec<String>,
}

/// Tunnel interfaces are named `utun*`, `ppp*` or `tun*`.
pub open spec fn is_tunnel_name(n: Seq<char>) -> bool {
    starts_with(n, "utun"@) || starts_with(n, "ppp"@) || starts_with(n, "tun"@)
}

pub fn is_tunnel_interface(name: &str) -> (r: bool)
    ensures
        r == is_tunnel_name(name@),
{
    str_starts_with(name, "utun") || str_starts_with(name, "ppp") || str_starts_with(name, "tun")
}

/// The interface has at least one address that is not link-local.
pub open spec fn has_routable_address_spec(i: Interface) -> bool {
    exists|k: int| 0 <= k < i.addresses.len() && !is_link_local_spec(#[trigger] i.addresses@[k]@)
}

pub fn has_routable_address(interface: &Interface) -> (r: bool)
    ensures
        r == has_routable_address_spec(*interface),
{
    let mut k: usize = 0;
    while k < interface.addresses.len()
        invariant
            0 <= k <= interface.addresses.len(),
            forall|j: int| 0 <= j < k ==> is_link_local_spec(#[trigger] interface.addresses@[j]@),
        decreases interface.addresses.len() - k,
    {
        if !is_link_local(interface.addresses[k].as_str()) {
            return true;
        }
        k = k + 1;
    }
    false
}

/// An up tunnel interface with a routable address: a connected VPN.
pub open spec fn is_active_tunnel(i: Interface) -> bool {
    i.up && is_tunnel_name(i.name@) && has_routable_address_spec(i)
}

/// Names of the active tunnels, in interface order.
pub open spec fn tunnel_names(s: Seq<Interface>) -> Seq<Seq<char>>
    decreases s.len(),
{
    if s.len() == 0 {
        Seq::empty()
    } else {
        let prev = tunnel_names(s.drop_last());
        if is_active_tunnel(s.last()) {
            prev.push(s.last().name@)
        } else {
            prev
        }
    }
}

pub open spec fn opt_text(o: Option<String>) -> Option<Seq<char>> {
    match o {
        Some(s) => Some(s@),
        None => None,
    }
}

pub open spec fn opt_str_text(o: Option<&str>) -> Option<Seq<char>> {
    match o {
        Some(s) => Some(s@),
        None => None,
    }
}

/// A split tunnel: a VPN is up but the primary route goes through a
/// non-tunnel interface.
pub open spec fn split_tunnel_spec(connected: bool, primary: Option<Seq<char>>) -> bool {
    connected && (primary matches Some(p) && !is_tunnel_name(p))
}

pub fn classify_tunnels(
    interfaces: &[Interface],
    primary: Option<&str>,
    routed_subnets: Vec<String>,
) -> (r: VpnStatus)
    ensures
        texts(r.tunnels@) == tunnel_names(interfaces@),
        r.connected == (tunnel_names(interfaces@).len() > 0),
        r.split_tunnel == split_tunnel_spec(r.connected, opt_str_text(primary)),
        opt_text(r.primary_interface) == opt_str_text(primary),
        r.routed_subnets@ == (if r.connected {
            routed_subnets@
        } else {
            Seq::<String>::empty()
        }),
{
    let mut tunnels: Vec<String> = Vec::new();
    let mut i: usize = 0;
    while i < interfaces.len()
        invariant
            0 <= i <= interfaces.len(),
            texts(tunnels@) == tunnel_names(interfaces@.take(i as int)),
        decreases interfaces.len() - i,
    {
        let iface = &interfaces[i];
        assert(interfaces@.take(i + 1).drop_last() == interfaces@.take(i as int));
        if iface.up && is_tunnel_interface(iface.name.as_str()) && has_routable_address(iface) {
            tunnels.push(iface.name.clone());
        }
        assert(texts(tunnels@) == tunnel_names(interfaces@.take(i + 1)));
        i = i + 1;
    }
    assert(interfaces@.take(interfaces.len() as int) == interfaces@);
    let connected = tunnels.len() > 0;
    let split_tunnel = match primary {
        Some(p) => connected && !is_tunnel_interface(p),
        None => false,
    };
    let primary_interface = match primary {
        Some(p) => Some(String::from_str(p)),
        None => None,
    };
    VpnStatus {
        tunnels,
        primary_interface,
        connected,
        split_tunnel,
        routed_subnets: if connected {
            routed_subnets
        } else {
            Vec::new()
        },
    }
}

/// Number of one bits of `x`.
pub open spec fn ones(x: nat) -> nat
    decreases x,
{
    if x == 0 {
        0
    } else {
        (x % 2) + ones(x / 2)
    }
}

proof fn lemma_ones_bound(x: nat, w: nat)
    requires
        x < pow2(w),
    ensures
        ones(x) <= w,
    decreases w,
{
    if w > 0 && x > 0 {
        lemma_ones_bound(x / 2, (w - 1) as nat);
    }
}

pub open spec fn pow2(w: nat) -> nat
    decreases w,
{
    if w == 0 {
        1
    } else {
        2 * pow2((w - 1) as nat)
    }
}

fn count_ones(x: u32) -> (r: u8)
    ensures
        r == ones(x as nat),
{
    proof {
        reveal_with_fuel(pow2, 33);
        assert(pow2(32) == 0x1_0000_0000nat);
        lemma_ones_bound(x as nat, 32);
    }
    let mut y = x;
    let mut n: u8 = 0;
    while y > 0
        invariant
            n + ones(y as nat) == ones(x as nat),
            ones(x as nat) <= 32,
        decreases y,
    {
        n = n + (y % 2) as u8;
        y = y / 2;
    }
    n
}

/// Prefix length of a dotted-quad subnet mask: the number of one bits of
/// the parsed mask, or `None` when the text is not an IPv4 address.
pub open spec fn mask_prefix_len(mask: Seq<char>) -> Option<nat> {
    match ipv4_value(mask) {
        Some(v) => Some(ones(v)),
        None => None,
    }
}

pub fn mask_to_prefix_len(mask: &str) -> (r: Option<u8>)
    ensures
        r matches Some(p) ==> mask_prefix_len(mask@) == Some(p as nat),
        r is None ==> mask_prefix_len(mask@) is None,
{
    match parse_ipv4(mask) {
        Some(v) => Some(count_ones(v)),
        None => None,
    }
}

/// `addr/prefix` when the mask parses, else the bare address.
pub open spec fn cidr_spec(addr: Seq<char>, mask: Seq<char>) -> Seq<char> {
    match mask_prefix_len(mask) {
        Some(p) => addr + seq!['/'] + decimal(p),
        None => addr,
    }
}

pub fn cidr(addr: &str, mask: &str) -> (r: String)
    ensures
        r@ == cidr_spec(addr@, mask@),
{
    match mask_to_prefix_len(mask) {
        Some(prefix) => {
            let digits = decimal_string(prefix as u64);
            proof { reveal_strlit("/"); }
            let s = String::from_str(addr).concat("/");
            s.concat(digits.as_str())
        },
        None => String::from_str(addr),
    }
}

/// Addresses paired with the masks at the same positions; an address with
/// no mask lined up with it is kept bare.
pub open spec fn own_routes(addresses: Seq<Seq<char>>, masks: Seq<Seq<char>>) -> Seq<Seq<char>> {
    Seq::new(
        addresses.len(),
        |i: int|
            if i < masks.len() {
                cidr_spec(addresses[i], masks[i])
            } else {
                addresses[i]
            },
    )
}

/// Pairs `addresses` with `subnet_masks` by position; every address is
/// reported, as a bare address when no mask lines up with it.
pub fn own_subnet_routes(addresses: &[String], subnet_masks: &[String]) -> (r: Vec<String>)
    ensures
        texts(r@) == own_routes(texts(addresses@), texts(subnet_masks@)),
{
    let mut routes: Vec<String> = Vec::new();
    let mut i: usize = 0;
    while i < addresses.len()
        invariant
            0 <= i <= addresses.len(),
            routes.len() == i,
            forall|k: int|
                0 <= k < i ==> #[trigger] routes@[k]@ == own_routes(
                    texts(addresses@),
                    texts(subnet_masks@),
                )[k],
        decreases addresses.len() - i,
    {
        let route = if i < subnet_masks.len() {
            cidr(addresses[i].as_str(), subnet_masks[i].as_str())
        } else {
            addresses[i].clone()
        };
        routes.push(route);
        i = i + 1;
    }
    assert(texts(routes@) =~= own_routes(texts(addresses@), texts(subnet_masks@)));
    routes
}

/// The extra destinations a service pushes (`AdditionalRoutes`), each
/// `{DestinationAddress, SubnetMask}` as CIDR text; entries without a
/// destination are skipped, a missing mask reads as empty text.
pub open spec fn additional_routes(items: Seq<Dictionary>) -> Seq<Seq<char>>
    decreases items.len(),
{
    if items.len() == 0 {
        Seq::empty()
    } else {
        let prev = additional_routes(items.drop_last());
        match text_at(items.last(), "DestinationAddress"@) {
            Some(dest) => prev.push(
                cidr_spec(
                    dest,
                    match text_at(items.last(), "SubnetMask"@) {
                        Some(m) => m,
                        None => Seq::empty(),
                    },
                ),
            ),
            None => prev,
        }
    }
}

/// Routes of one service's IPv4 dictionary: its own address/subnet pairs,
/// then its additional routes.
pub open spec fn service_routes(d: Dictionary) -> Seq<Seq<char>> {
    own_routes(text_array_at(d, "Addresses"@), text_array_at(d, "SubnetMasks"@))
        + additional_routes(dict_array_at(d, "AdditionalRoutes"@))
}

/// The service dictionary of key `key` belongs to interface `if_name`.
pub open spec fn serves(store: Dictionary, key: Seq<char>, if_name: Seq<char>) -> bool {
    dict_at(store, key) matches Some(d) && text_at(d, "InterfaceName"@) == Some(if_name)
}

/// Routes of the first listed service (by key order) that belongs to
/// `if_name`; empty when none does.
pub open spec fn interface_routes(store: Dictionary, keys: Seq<Seq<char>>, if_name: Seq<char>) -> Seq<
    Seq<char>,
>
    decreases keys.len(),
{
    if keys.len() == 0 {
        Seq::empty()
    } else if serves(store, keys[0], if_name) {
        service_routes(dict_at(store, keys[0])->0)
    } else {
        interface_routes(store, keys.drop_first(), if_name)
    }
}

fn routes_of_service(dict: &Dictionary) -> (r: Vec<String>)
    ensures
        texts(r@) == service_routes(*dict),
{
    let addresses = cf_string_array(dict, "Addresses");
    let subnet_masks = cf_string_array(dict, "SubnetMasks");
    let mut routes = own_subnet_routes(addresses.as_slice(), subnet_masks.as_slice());
    let ghost own = texts(routes@);
    let extra = cf_dict_array(dict, "AdditionalRoutes");
    let mut i: usize = 0;
    while i < extra.len()
        invariant
            0 <= i <= extra.len(),
            derefs(extra@) == dict_array_at(*dict, "AdditionalRoutes"@),
            texts(routes@) == own + additional_routes(derefs(extra@).take(i as int)),
        decreases extra.len() - i,
    {
        let route = extra[i];
        assert(derefs(extra@).take(i + 1).drop_last() == derefs(extra@).take(i as int));
        assert(derefs(extra@).take(i + 1).last() == *route);
        let ghost prev = texts(routes@);
        let ghost a = additional_routes(derefs(extra@).take(i as int));
        match cf_string(route, "DestinationAddress") {
            Some(dest) => {
                let mask = match cf_string(route, "SubnetMask") {
                    Some(m) => m,
                    None => String::new(),
                };
                let c = cidr(dest.as_str(), mask.as_str());
                routes.push(c);
                assert(texts(routes@) =~= prev.push(c@));
                assert((own + a).push(c@) =~= own + a.push(c@));
            },
            None => {},
        }
        assert(texts(routes@) == own + additional_routes(derefs(extra@).take(i + 1)));
        i = i + 1;
    }
    assert(derefs(extra@).take(extra.len() as int) == derefs(extra@));
    routes
}

/// Reads the routed subnets of `if_name`'s network service from a snapshot
/// of the dynamic store: the first of `ipv4_keys` (the services' IPv4
/// keys) whose dictionary names that interface.
pub fn routes_for_interface(store: &Dictionary, ipv4_keys: &[String], if_name: &str) -> (r: Vec<
    String,
>)
    ensures
        texts(r@) == interface_routes(*store, texts(ipv4_keys@), if_name@),
{
    let mut i: usize = 0;
    assert(texts(ipv4_keys@).skip(0) == texts(ipv4_keys@));
    while i < ipv4_keys.len()
        invariant
            0 <= i <= ipv4_keys.len(),
            interface_routes(*store, texts(ipv4_keys@), if_name@) == interface_routes(
                *store,
                texts(ipv4_keys@).skip(i as int),
                if_name@,
            ),
        decreases ipv4_keys.len() - i,
    {
        let ghost rest = texts(ipv4_keys@).skip(i as int);
        assert(rest[0] == ipv4_keys@[i as int]@);
        assert(rest.drop_first() == texts(ipv4_keys@).skip(i + 1));
        match get_dict(store, ipv4_keys[i].as_str()) {
            Some(dict) => {
                let matches = match cf_string(dict, "InterfaceName") {
                    Some(n) => n.as_str().unicode_len() == if_name.unicode_len() && str_starts_with(
                        n.as_str(),
                        if_name,
                    ),
                    None => false,
                };
                proof {
                    if text_at(*dict, "InterfaceName"@) == Some(if_name@) {
                        assert(if_name@.take(if_name@.len() as int) == if_name@);
                    }
                }
                if matches {
                    proof {
                        let n = text_at(*dict, "InterfaceName"@)->0;
                        assert(n.take(if_name@.len() as int) == n);
                    }
                    return routes_of_service(dict);
                }
            },
            None => {},
        }
        i = i + 1;
    }
    Vec::new()
}

/// Routed subnets of every active tunnel, in interface order.
pub open spec fn tunnel_routes(ifaces: Seq<Interface>, store: Dictionary, keys: Seq<Seq<char>>) -> Seq<
    Seq<char>,
>
    decreases ifaces.len(),
{
    if ifaces.len() == 0 {
        Seq::empty()
    } else {
        let prev = tunnel_routes(ifaces.drop_last(), store, keys);
        if is_active_tunnel(ifaces.last()) {
            prev + interface_routes(store, keys, ifaces.last().name@)
        } else {
            prev
        }
    }
}

/// VPN status from the interface list, the primary interface named by the
/// dynamic store, and a snapshot of the services' IPv4 dictionaries: the
/// routed subnets are those of every active tunnel's service.
pub fn vpn_status_from_store(
    interfaces: &[Interface],
    primary: Option<&str>,
    store: &Dictionary,
    ipv4_keys: &[String],
) -> (r: VpnStatus)
    ensures
        texts(r.tunnels@) == tunnel_names(interfaces@),
        r.connected == (tunnel_names(interfaces@).len() > 0),
        r.split_tunnel == split_tunnel_spec(r.connected, opt_str_text(primary)),
        opt_text(r.primary_interface) == opt_str_text(primary),
        texts(r.routed_subnets@) == (if r.connected {
            tunnel_routes(interfaces@, *store, texts(ipv4_keys@))
        } else {
            Seq::<Seq<char>>::empty()
        }),
{
    let mut routed: Vec<String> = Vec::new();
    let mut i: usize = 0;
    while i < interfaces.len()
        invariant
            0 <= i <= interfaces.len(),
            texts(routed@) == tunnel_routes(interfaces@.take(i as int), *store, texts(ipv4_keys@)),
        decreases interfaces.len() - i,
    {
        let iface = &interfaces[i];
        assert(interfaces@.take(i + 1).drop_last() == interfaces@.take(i as int));
        assert(interfaces@.take(i + 1).last() == *iface);
        if iface.up && is_tunnel_interface(iface.name.as_str()) && has_routable_address(iface) {
            let mut more = routes_for_interface(store, ipv4_keys, iface.name.as_str());
            let ghost before = routed@;
            let ghost added = more@;
            routed.append(&mut more);
            assert(texts(routed@) =~= texts(before) + texts(added));
        }
        i = i + 1;
    }
    assert(interfaces@.take(interfaces.len() as int) == interfaces@);
    classify_tunnels(interfaces, primary, routed)
}

/// A VPN counts as connected exactly when some interface is an up tunnel
/// with a routable address, and each listed tunnel is such an interface.
pub proof fn lemma_connected_iff_active_tunnel(ifaces: Seq<Interface>)
    ensures
        (tunnel_names(ifaces).len() > 0) == (exists|k: int|
            0 <= k < ifaces.len() && is_active_tunnel(#[trigger] ifaces[k])),
        forall|i: int|
            0 <= i < tunnel_names(ifaces).len() ==> exists|k: int|
                0 <= k < ifaces.len() && is_active_tunnel(#[trigger] ifaces[k]) && ifaces[k].name@
                    == #[trigger] tunnel_names(ifaces)[i],
    decreases ifaces.len(),
{
    if ifaces.len() > 0 {
        let p = ifaces.drop_last();
        lemma_connected_iff_active_tunnel(p);
        assert forall|k: int| 0 <= k < p.len() implies p[k] == ifaces[k] by {}
        if is_active_tunnel(ifaces.last()) {
            assert(is_active_tunnel(ifaces[ifaces.len() - 1]));
        }
        if exists|k: int| 0 <= k < ifaces.len() && is_active_tunnel(#[trigger] ifaces[k]) {
            let k = choose|k: int| 0 <= k < ifaces.len() && is_active_tunnel(#[trigger] ifaces[k]);
            if k < p.len() {
                assert(is_active_tunnel(p[k]));
            }
        }
        assert forall|i: int| 0 <= i < tunnel_names(ifaces).len() implies exists|k: int|
            0 <= k < ifaces.len() && is_active_tunnel(#[trigger] ifaces[k]) && ifaces[k].name@
                == #[trigger] tunnel_names(ifaces)[i] by {
            if i < tunnel_names(p).len() {
                assert(tunnel_names(p)[i] == tunnel_names(p)[i]);
                let k = choose|k: int|
                    0 <= k < p.len() && is_active_tunnel(#[trigger] p[k]) && p[k].name@
                        == #[trigger] tunnel_names(p)[i];
                assert(ifaces[k] == p[k]);
            } else {
                assert(ifaces[ifaces.len() - 1] == ifaces.last());
            }
        }
    }
}

/// A split tunnel is always a connected VPN, and a full tunnel (the
/// primary route on a tunnel interface) is never split.
pub proof fn lemma_split_implies_connected(connected: bool, primary: Option<Seq<char>>)
    ensures
        split_tunnel_spec(connected, primary) ==> connected,
        (primary matches Some(p) && is_tunnel_name(p)) ==> !split_tunnel_spec(connected, primary),
        primary is None ==> !split_tunnel_spec(connected, primary),
{
}

/// An interface has a routable address exactly when one of its addresses,
/// at whatever position in its list, is not link-local. So an up tunnel
/// interface with such an address anywhere in its list is an active tunnel,
/// is listed among the tunnels, and makes the VPN count as connected.
pub proof fn lemma_routable_address_anywhere(ifaces: Seq<Interface>, m: int, k: int)
    requires
        0 <= m < ifaces.len(),
        0 <= k < ifaces[m].addresses.len(),
        !is_link_local_spec(ifaces[m].addresses@[k]@),
    ensures
        has_routable_address_spec(ifaces[m]),
        ifaces[m].up && is_tunnel_name(ifaces[m].name@) ==> is_active_tunnel(ifaces[m])
            && tunnel_names(ifaces).len() > 0 && tunnel_names(ifaces).contains(ifaces[m].name@),
{
    let i = ifaces[m];
    assert(!is_link_local_spec(i.addresses@[k]@));
    if i.up && is_tunnel_name(i.name@) {
        lemma_connected_iff_active_tunnel(ifaces);
        lemma_tunnel_listed(ifaces, m);
    }
}

proof fn lemma_tunnel_listed(ifaces: Seq<Interface>, m: int)
    requires
        0 <= m < ifaces.len(),
        is_active_tunnel(ifaces[m]),
    ensures
        tunnel_names(ifaces).contains(ifaces[m].name@),
    decreases ifaces.len(),
{
    let p = ifaces.drop_last();
    if m == ifaces.len() - 1 {
        let t = tunnel_names(ifaces);
        assert(t[t.len() - 1] == ifaces[m].name@);
    } else {
        assert(p[m] == ifaces[m]);
        lemma_tunnel_listed(p, m);
        let j = choose|j: int| 0 <= j < tunnel_names(p).len() && tunnel_names(p)[j] == ifaces[m].name@;
        assert(tunnel_names(ifaces)[j] == tunnel_names(p)[j]);
    }
}

/// An interface whose addresses are all link-local (or that has none) has
/// no routable address.
pub proof fn lemma_all_link_local_not_routable(i: Interface)
    requires
        forall|k: int| 0 <= k < i.addresses.len() ==> is_link_local_spec(#[trigger] i.addresses@[k]@),
    ensures
        !has_routable_address_spec(i),
{
}

} // verus!
