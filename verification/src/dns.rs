//! DNS resolver configuration and split-DNS detection.
use vstd::prelude::*;
use vstd::string::StringExecFns;
use crate::interfaces::texts;
use crate::plist::{
    Dictionary, cf_string, cf_string_array, dict_at, get_dict, text_array_at, text_at,
};
use crate::text::{contains_run, replace_all, starts_with, str_contains, str_replace, str_starts_with};
use crate::vpn::opt_text;

verus! {

/// A single resolver configuration, one per network service.
#[derive(Debug, Clone, PartialEq)]
pub struct Resolver {
    pub domain: Option<String>,
    pub search_domains: Vec<String>,
    pub nameservers: Vec<String>,
    pub if_index: Option<u32>,
    pub if_name: Option<String>,
    pub scoped: bool,
    pub reachable: bool,
}

/// A scoped resolver bound to a `utun*` interface: a VPN tunnel's own
/// resolver.
pub open spec fn tunnel_bound(r: Resolver) -> bool {
    r.scoped && (r.if_name matches Some(n) && starts_with(n@, "utun"@))
}

fn is_tunnel_bound(r: &Resolver) -> (b: bool)
    ensures
        b == tunnel_bound(*r),
{
    r.scoped && match &r.if_name {
        Some(n) => str_starts_with(n.as_str(), "utun"),
        None => false,
    }
}

pub open spec fn has_split_dns_spec(resolvers: Seq<Resolver>) -> bool {
    exists|k: int| 0 <= k < resolvers.len() && tunnel_bound(#[trigger] resolvers[k])
}

/// True if some scoped resolver is bound to a `utun*` interface, i.e. a
/// domain resolves only through a VPN tunnel (split DNS).
pub fn has_split_dns(resolvers: &[Resolver]) -> (b: bool)
    ensures
        b == has_split_dns_spec(resolvers@),
{
    let mut k: usize = 0;
    while k < resolvers.len()
        invariant
            0 <= k <= resolvers.len(),
            forall|j: int| 0 <= j < k ==> !tunnel_bound(#[trigger] resolvers@[j]),
        decreases resolvers.len() - k,
    {
        if is_tunnel_bound(&resolvers[k]) {
            return true;
        }
        k = k + 1;
    }
    false
}

/// The domain a resolver stands for: its own domain, else its first search
/// domain.
pub open spec fn domain_of(r: Resolver) -> Option<Seq<char>> {
    match r.domain {
        Some(d) => Some(d@),
        None => if r.search_domains.len() > 0 {
            Some(r.search_domains@[0]@)
        } else {
            None
        },
    }
}

/// The tunnel-bound resolvers' domains in resolver order, each kept at its
/// first occurrence.
pub open spec fn scoped_domains(rs: Seq<Resolver>) -> Seq<Seq<char>>
    decreases rs.len(),
{
    if rs.len() == 0 {
        Seq::empty()
    } else {
        let prev = scoped_domains(rs.drop_last());
        if tunnel_bound(rs.last()) && (domain_of(rs.last()) matches Some(d) && !prev.contains(d)) {
            prev.push(domain_of(rs.last())->0)
        } else {
            prev
        }
    }
}

fn contains_text(v: &Vec<String>, s: &String) -> (b: bool)
    ensures
        b == texts(v@).contains(s@),
{
    let mut k: usize = 0;
    while k < v.len()
        invariant
            0 <= k <= v.len(),
            forall|j: int| 0 <= j < k ==> v@[j]@ != s@,
        decreases v.len() - k,
    {
        if v[k] == *s {
            assert(texts(v@)[k as int] == s@);
            return true;
        }
        k = k + 1;
    }
    assert(!texts(v@).contains(s@)) by {
        if texts(v@).contains(s@) {
            let j = choose|j: int| 0 <= j < texts(v@).len() && texts(v@)[j] == s@;
            assert(v@[j]@ == s@);
        }
    }
    false
}

/// Domains only resolvable through a VPN tunnel's own resolver: for every
/// resolver bound to a `utun*` interface, its domain (falling back to its
/// first search domain). Deduplicated, first-seen order kept.
pub fn vpn_scoped_domains(resolvers: &[Resolver]) -> (r: Vec<String>)
    ensures
        texts(r@) == scoped_domains(resolvers@),
{
    let mut domains: Vec<String> = Vec::new();
    let mut i: usize = 0;
    while i < resolvers.len()
        invariant
            0 <= i <= resolvers.len(),
            texts(domains@) == scoped_domains(resolvers@.take(i as int)),
        decreases resolvers.len() - i,
    {
        let r = &resolvers[i];
        assert(resolvers@.take(i + 1).drop_last() == resolvers@.take(i as int));
        assert(resolvers@.take(i + 1).last() == *r);
        if is_tunnel_bound(r) {
            let candidate = match &r.domain {
                Some(d) => Some(d.clone()),
                None => if r.search_domains.len() > 0 {
                    Some(r.search_domains[0].clone())
                } else {
                    None
                },
            };
            match candidate {
                Some(d) => {
                    if !contains_text(&domains, &d) {
                        domains.push(d);
                    }
                },
                None => {},
            }
        }
        assert(texts(domains@) == scoped_domains(resolvers@.take(i + 1)));
        i = i + 1;
    }
    assert(resolvers@.take(resolvers.len() as int) == resolvers@);
    domains
}

/// No domain is listed twice.
pub proof fn lemma_scoped_domains_distinct(rs: Seq<Resolver>)
    ensures
        scoped_domains(rs).no_duplicates(),
    decreases rs.len(),
{
    if rs.len() > 0 {
        lemma_scoped_domains_distinct(rs.drop_last());
    }
}

/// Each listed domain is the domain of some tunnel-bound resolver, and the
/// domain of every tunnel-bound resolver is listed.
pub proof fn lemma_scoped_domains_exact(rs: Seq<Resolver>)
    ensures
        forall|i: int|
            0 <= i < scoped_domains(rs).len() ==> exists|k: int|
                0 <= k < rs.len() && tunnel_bound(#[trigger] rs[k]) && domain_of(rs[k])
                    == Some(#[trigger] scoped_domains(rs)[i]),
        forall|k: int|
            0 <= k < rs.len() && tunnel_bound(#[trigger] rs[k]) && domain_of(rs[k]) is Some
                ==> scoped_domains(rs).contains(domain_of(rs[k])->0),
    decreases rs.len(),
{
    if rs.len() > 0 {
        let p = rs.drop_last();
        lemma_scoped_domains_exact(p);
        let prev = scoped_domains(p);
        let cur = scoped_domains(rs);
        assert forall|i: int| 0 <= i < cur.len() implies exists|k: int|
            0 <= k < rs.len() && tunnel_bound(#[trigger] rs[k]) && domain_of(rs[k]) == Some(
                #[trigger] cur[i],
            ) by {
            if i < prev.len() {
                assert(cur[i] == prev[i]);
                let k = choose|k: int|
                    0 <= k < p.len() && tunnel_bound(#[trigger] p[k]) && domain_of(p[k]) == Some(
                        #[trigger] prev[i],
                    );
                assert(rs[k] == p[k]);
            } else {
                assert(rs[rs.len() - 1] == rs.last());
            }
        }
        assert forall|k: int|
            0 <= k < rs.len() && tunnel_bound(#[trigger] rs[k]) && domain_of(rs[k]) is Some
                implies cur.contains(domain_of(rs[k])->0) by {
            if k < p.len() {
                assert(rs[k] == p[k]);
                assert(prev.contains(domain_of(p[k])->0));
                let j = choose|j: int| 0 <= j < prev.len() && prev[j] == domain_of(p[k])->0;
                assert(cur[j] == prev[j]);
            } else {
                assert(rs[k] == rs.last());
                if !prev.contains(domain_of(rs.last())->0) {
                    assert(cur[cur.len() - 1] == domain_of(rs.last())->0);
                } else {
                    let j = choose|j: int| 0 <= j < prev.len() && prev[j] == domain_of(rs.last())->0;
                    assert(cur[j] == prev[j]);
                }
            }
        }
    }
}

/// A VPN-only domain exists only when split DNS is in effect.
pub proof fn lemma_scoped_domains_imply_split_dns(rs: Seq<Resolver>)
    ensures
        scoped_domains(rs).len() > 0 ==> has_split_dns_spec(rs),
{
    lemma_scoped_domains_exact(rs);
    if scoped_domains(rs).len() > 0 {
        assert(scoped_domains(rs)[0] == scoped_domains(rs)[0]);
    }
}

/// `acc` followed by those of `items` not already present, each at its
/// first occurrence.
pub open spec fn append_new(acc: Seq<Seq<char>>, items: Seq<Seq<char>>) -> Seq<Seq<char>>
    decreases items.len(),
{
    if items.len() == 0 {
        acc
    } else {
        let prev = append_new(acc, items.drop_last());
        if prev.contains(items.last()) {
            prev
        } else {
            prev.push(items.last())
        }
    }
}

/// Every resolver's nameservers in resolver order, each kept at its first
/// occurrence.
pub open spec fn distinct_nameservers(rs: Seq<Resolver>) -> Seq<Seq<char>>
    decreases rs.len(),
{
    if rs.len() == 0 {
        Seq::empty()
    } else {
        append_new(distinct_nameservers(rs.drop_last()), texts(rs.last().nameservers@))
    }
}

/// The nameserver addresses of all resolvers, each listed once, in the
/// order they first appear.
pub fn nameserver_ips(resolvers: &[Resolver]) -> (r: Vec<String>)
    ensures
        texts(r@) == distinct_nameservers(resolvers@),
{
    let mut out: Vec<String> = Vec::new();
    let mut i: usize = 0;
    while i < resolvers.len()
        invariant
            0 <= i <= resolvers.len(),
            texts(out@) == distinct_nameservers(resolvers@.take(i as int)),
        decreases resolvers.len() - i,
    {
        let r = &resolvers[i];
        assert(resolvers@.take(i + 1).drop_last() == resolvers@.take(i as int));
        assert(resolvers@.take(i + 1).last() == *r);
        let ghost start = texts(out@);
        let mut j: usize = 0;
        while j < r.nameservers.len()
            invariant
                0 <= j <= r.nameservers.len(),
                texts(out@) == append_new(start, texts(r.nameservers@).take(j as int)),
            decreases r.nameservers.len() - j,
        {
            let ghost items = texts(r.nameservers@).take(j + 1);
            assert(items.drop_last() == texts(r.nameservers@).take(j as int));
            assert(items.last() == r.nameservers@[j as int]@);
            if !contains_text(&out, &r.nameservers[j]) {
                out.push(r.nameservers[j].clone());
                assert(texts(out@) == append_new(start, texts(r.nameservers@).take(j as int)).push(
                    r.nameservers@[j as int]@,
                ));
            }
            j = j + 1;
        }
        assert(texts(r.nameservers@).take(r.nameservers.len() as int) == texts(r.nameservers@));
        i = i + 1;
    }
    assert(resolvers@.take(resolvers.len() as int) == resolvers@);
    out
}

proof fn lemma_append_new(acc: Seq<Seq<char>>, items: Seq<Seq<char>>)
    requires
        acc.no_duplicates(),
    ensures
        append_new(acc, items).no_duplicates(),
        forall|x: Seq<char>|
            append_new(acc, items).contains(x) <==> (acc.contains(x) || items.contains(x)),
    decreases items.len(),
{
    if items.len() > 0 {
        let rest = items.drop_last();
        lemma_append_new(acc, rest);
        let prev = append_new(acc, rest);
        assert forall|x: Seq<char>|
            append_new(acc, items).contains(x) <==> (acc.contains(x) || items.contains(x)) by {
            if items.contains(x) && !rest.contains(x) {
                let k = choose|k: int| 0 <= k < items.len() && items[k] == x;
                if k < rest.len() {
                    assert(rest[k] == x);
                }
                assert(x == items.last());
            }
            if rest.contains(x) {
                let k = choose|k: int| 0 <= k < rest.len() && rest[k] == x;
                assert(items[k] == x);
            }
            if !prev.contains(items.last()) {
                assert(prev.push(items.last()).last() == items.last());
                if prev.push(items.last()).contains(x) {
                    let k = choose|k: int| 0 <= k < prev.len() + 1 && prev.push(items.last())[k] == x;
                    if k < prev.len() {
                        assert(prev[k] == x);
                    }
                }
                if prev.contains(x) {
                    let k = choose|k: int| 0 <= k < prev.len() && prev[k] == x;
                    assert(prev.push(items.last())[k] == x);
                }
            }
        }
    }
}

/// Each nameserver address is listed once, and the list holds exactly the
/// nameservers of the given resolvers.
pub proof fn lemma_nameserver_ips_exact(rs: Seq<Resolver>)
    ensures
        distinct_nameservers(rs).no_duplicates(),
        forall|x: Seq<char>|
            distinct_nameservers(rs).contains(x) <==> exists|k: int|
                0 <= k < rs.len() && texts(#[trigger] rs[k].nameservers@).contains(x),
    decreases rs.len(),
{
    if rs.len() > 0 {
        let p = rs.drop_last();
        lemma_nameserver_ips_exact(p);
        lemma_append_new(distinct_nameservers(p), texts(rs.last().nameservers@));
        assert forall|x: Seq<char>|
            distinct_nameservers(rs).contains(x) <==> exists|k: int|
                0 <= k < rs.len() && texts(#[trigger] rs[k].nameservers@).contains(x) by {
            if distinct_nameservers(p).contains(x) {
                let k = choose|k: int| 0 <= k < p.len() && texts(#[trigger] p[k].nameservers@).contains(x);
                assert(rs[k] == p[k]);
            }
            if texts(rs.last().nameservers@).contains(x) {
                assert(rs[rs.len() - 1] == rs.last());
            }
            if exists|k: int| 0 <= k < rs.len() && texts(#[trigger] rs[k].nameservers@).contains(x) {
                let k = choose|k: int| 0 <= k < rs.len() && texts(#[trigger] rs[k].nameservers@).contains(x);
                if k < p.len() {
                    assert(rs[k] == p[k]);
                } else {
                    assert(rs[k] == rs.last());
                }
            }
        }
    }
}

/// The resolver fields that come from a service's DNS dictionary.
pub open spec fn resolver_from(
    r: Resolver,
    dns: Dictionary,
    if_name: Option<Seq<char>>,
    if_index: Option<u32>,
    scoped: bool,
    reachable: bool,
) -> bool {
    &&& opt_text(r.domain) == text_at(dns, "DomainName"@)
    &&& texts(r.search_domains@) == text_array_at(dns, "SearchDomains"@)
    &&& texts(r.nameservers@) == text_array_at(dns, "ServerAddresses"@)
    &&& opt_text(r.if_name) == if_name
    &&& r.if_index == if_index
    &&& r.scoped == scoped
    &&& r.reachable == reachable
}

/// Builds a `Resolver` from a service's DNS dictionary
/// (`State:/Network/Service/<id>/DNS`) plus the interface, scope and
/// reachability gathered separately.
pub fn build_resolver(
    dns_dict: &Dictionary,
    if_name: Option<String>,
    if_index: Option<u32>,
    scoped: bool,
    reachable: bool,
) -> (r: Resolver)
    ensures
        resolver_from(r, *dns_dict, opt_text(if_name), if_index, scoped, reachable),
{
    Resolver {
        domain: cf_string(dns_dict, "DomainName"),
        search_domains: cf_string_array(dns_dict, "SearchDomains"),
        nameservers: cf_string_array(dns_dict, "ServerAddresses"),
        if_index,
        if_name,
        scoped,
        reachable,
    }
}

/// The interface of the service whose DNS key is `key`: the
/// `InterfaceName` of the service's IPv4 dictionary, else of its IPv6 one.
pub open spec fn service_if_name(store: Dictionary, key: Seq<char>) -> Option<Seq<char>> {
    let v4 = dict_at(store, replace_all(key, "/DNS"@, "/IPv4"@));
    let v6 = dict_at(store, replace_all(key, "/DNS"@, "/IPv6"@));
    if v4 is Some && text_at(v4->0, "InterfaceName"@) is Some {
        text_at(v4->0, "InterfaceName"@)
    } else {
        match v6 {
            Some(d) => text_at(d, "InterfaceName"@),
            None => None,
        }
    }
}

/// Finds the interface a service's DNS configuration belongs to, reading
/// the service's IPv4 and then IPv6 dictionary from the store snapshot.
pub fn interface_name_for_service(store: &Dictionary, dns_key: &str) -> (r: Option<String>)
    ensures
        opt_text(r) == service_if_name(*store, dns_key@),
{
    proof {
        reveal_strlit("/DNS");
    }
    let ipv4_key = str_replace(dns_key, "/DNS", "/IPv4");
    match get_dict(store, ipv4_key.as_str()) {
        Some(dict) => {
            match cf_string(dict, "InterfaceName") {
                Some(name) => {
                    return Some(name);
                },
                None => {},
            }
        },
        None => {},
    }
    let ipv6_key = str_replace(dns_key, "/DNS", "/IPv6");
    match get_dict(store, ipv6_key.as_str()) {
        Some(dict) => cf_string(dict, "InterfaceName"),
        None => None,
    }
}

/// One network service's DNS configuration with the facts gathered about
/// it: its dynamic-store key, its DNS dictionary, the interface it belongs
/// to (name and index) and whether its first nameserver is reachable.
#[derive(Debug, PartialEq)]
pub struct DnsService {
    pub key: String,
    pub dns: Dictionary,
    pub if_name: Option<String>,
    pub if_index: Option<u32>,
    pub reachable: bool,
}

/// The service backs the default route: its key holds
/// `/Service/<primary>/`.
pub open spec fn is_primary(key: Seq<char>, primary: Option<Seq<char>>) -> bool {
    primary matches Some(p) && contains_run(key, "/Service/"@ + p + "/"@)
}

/// Which resolver each output position holds: the service's index and
/// whether it is the scoped copy.
pub open spec fn resolver_slots(services: Seq<DnsService>, primary: Option<Seq<char>>) -> Seq<(int, bool)>
    decreases services.len(),
{
    if services.len() == 0 {
        Seq::empty()
    } else {
        let prev = resolver_slots(services.drop_last(), primary);
        let k = services.len() - 1;
        let with_scoped = prev.push((k, true));
        if is_primary(services.last().key@, primary) {
            with_scoped.push((k, false))
        } else {
            with_scoped
        }
    }
}

pub open spec fn resolver_at(r: Resolver, s: DnsService, scoped: bool) -> bool {
    if scoped {
        resolver_from(r, s.dns, opt_text(s.if_name), s.if_index, true, s.reachable)
    } else {
        resolver_from(r, s.dns, None, None, false, s.reachable)
    }
}

fn primary_pattern(p: &str) -> (r: String)
    ensures
        r@ == "/Service/"@ + p@ + "/"@,
{
    String::from_str("/Service/").concat(p).concat("/")
}

/// Every service's DNS configuration, scoped to that service's own
/// interface; the service backing the default route is also listed a second
/// time, right after, as the unscoped system-wide resolver.
pub fn resolvers_for_services(services: &[DnsService], primary_service: Option<&str>) -> (r: Vec<
    Resolver,
>)
    ensures
        r.len() == resolver_slots(services@, crate::vpn::opt_str_text(primary_service)).len(),
        forall|i: int|
            0 <= i < r.len() ==> {
                let slot = #[trigger] resolver_slots(
                    services@,
                    crate::vpn::opt_str_text(primary_service),
                )[i];
                0 <= slot.0 < services.len() && resolver_at(r@[i], services@[slot.0], slot.1)
            },
{
    let ghost primary = crate::vpn::opt_str_text(primary_service);
    let pattern: Option<String> = match primary_service {
        Some(p) => Some(primary_pattern(p)),
        None => None,
    };
    let mut out: Vec<Resolver> = Vec::new();
    let mut i: usize = 0;
    while i < services.len()
        invariant
            0 <= i <= services.len(),
            primary == crate::vpn::opt_str_text(primary_service),
            match pattern {
                Some(q) => primary matches Some(p) && q@ == "/Service/"@ + p + "/"@,
                None => primary is None,
            },
            out.len() == resolver_slots(services@.take(i as int), primary).len(),
            forall|j: int|
                0 <= j < out.len() ==> {
                    let slot = #[trigger] resolver_slots(services@.take(i as int), primary)[j];
                    0 <= slot.0 < i && resolver_at(out@[j], services@[slot.0], slot.1)
                },
        decreases services.len() - i,
    {
        let s = &services[i];
        let ghost prev_slots = resolver_slots(services@.take(i as int), primary);
        assert(services@.take(i + 1).drop_last() == services@.take(i as int));
        assert(services@.take(i + 1).last() == *s);
        let scoped = build_resolver(&s.dns, s.if_name.clone(), s.if_index, true, s.reachable);
        out.push(scoped);
        let primary_here = match &pattern {
            Some(q) => str_contains(s.key.as_str(), q.as_str()),
            None => false,
        };
        if primary_here {
            let unscoped = build_resolver(&s.dns, None, None, false, s.reachable);
            out.push(unscoped);
        }
        let ghost slots = resolver_slots(services@.take(i + 1), primary);
        assert(primary_here == is_primary(s.key@, primary));
        assert forall|j: int| 0 <= j < out.len() implies {
            let slot = #[trigger] slots[j];
            0 <= slot.0 < i + 1 && resolver_at(out@[j], services@[slot.0], slot.1)
        } by {
            if j < prev_slots.len() {
                assert(slots[j] == prev_slots[j]);
            }
        }
        i = i + 1;
    }
    assert(services@.take(services.len() as int) == services@);
    out
}

/// A resolver stands for its own domain when it has one; without one, for
/// its first search domain (`search_domains[0]`), whatever follows it; with
/// neither, for none. So a tunnel-bound resolver without a domain but with
/// search domains puts its first search domain among the VPN-only domains.
pub proof fn lemma_domain_falls_back_to_first_search_domain(rs: Seq<Resolver>, k: int)
    requires
        0 <= k < rs.len(),
    ensures
        rs[k].domain matches Some(d) ==> domain_of(rs[k]) == Some(d@),
        rs[k].domain is None && rs[k].search_domains.len() > 0 ==> domain_of(rs[k]) == Some(
            rs[k].search_domains@[0]@,
        ),
        rs[k].domain is None && rs[k].search_domains.len() == 0 ==> domain_of(rs[k]) is None,
        tunnel_bound(rs[k]) && rs[k].domain is None && rs[k].search_domains.len() > 0
            ==> scoped_domains(rs).contains(rs[k].search_domains@[0]@),
{
    lemma_scoped_domains_exact(rs);
}

} // verus!
