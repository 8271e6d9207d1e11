//! Which IP families the machine can route.
use vstd::prelude::*;
use crate::interfaces::{Interface, is_link_local, is_link_local_spec, str_has_char};

verus! {

#[derive(Debug, Clone, Copy, PartialEq, Eq)]
pub enum IpStack {
    Ipv4Only,
    Ipv6Only,
    DualStack,
    Neither,
}

/// A routable IPv4 address: not link-local, no `:`.
pub open spec fn routable_v4(a: Seq<char>) -> bool {
    !is_link_local_spec(a) && !a.contains(':')
}

/// A routable IPv6 address: not link-local, holds a `:`.
pub open spec fn routable_v6(a: Seq<char>) -> bool {
    !is_link_local_spec(a) && a.contains(':')
}

/// Only interfaces that are up and not loopback count.
pub open spec fn counted(i: Interface) -> bool {
    i.up && !i.loopback
}

pub open spec fn has_v4_address(addresses: Seq<String>) -> bool {
    exists|j: int| 0 <= j < addresses.len() && routable_v4(#[trigger] addresses[j]@)
}

pub open spec fn has_v6_address(addresses: Seq<String>) -> bool {
    exists|j: int| 0 <= j < addresses.len() && routable_v6(#[trigger] addresses[j]@)
}

/// Some counted interface among the first `n` has a routable IPv4 address.
pub open spec fn any_v4(ifaces: Seq<Interface>, n: int) -> bool {
    exists|k: int| 0 <= k < n && counted(ifaces[k]) && has_v4_address(#[trigger] ifaces[k].addresses@)
}

/// Some counted interface among the first `n` has a routable IPv6 address.
pub open spec fn any_v6(ifaces: Seq<Interface>, n: int) -> bool {
    exists|k: int| 0 <= k < n && counted(ifaces[k]) && has_v6_address(#[trigger] ifaces[k].addresses@)
}

pub open spec fn stack_of(v4: bool, v6: bool) -> IpStack {
    if v4 && v6 {
        IpStack::DualStack
    } else if v4 {
        IpStack::Ipv4Only
    } else if v6 {
        IpStack::Ipv6Only
    } else {
        IpStack::Neither
    }
}

pub open spec fn detect_ip_stack_spec(ifaces: Seq<Interface>) -> IpStack {
    stack_of(any_v4(ifaces, ifaces.len() as int), any_v6(ifaces, ifaces.len() as int))
}

fn scan_addresses(addresses: &Vec<String>) -> (r: (bool, bool))
    ensures
        r.0 == has_v4_address(addresses@),
        r.1 == has_v6_address(addresses@),
{
    let mut v4 = false;
    let mut v6 = false;
    let mut j: usize = 0;
    while j < addresses.len()
        invariant
            0 <= j <= addresses.len(),
            v4 == exists|x: int| 0 <= x < j && routable_v4(#[trigger] addresses@[x]@),
            v6 == exists|x: int| 0 <= x < j && routable_v6(#[trigger] addresses@[x]@),
        decreases addresses.len() - j,
    {
        let a = addresses[j].as_str();
        if !is_link_local(a) {
            if str_has_char(a, ':') {
                v6 = true;
            } else {
                v4 = true;
            }
        }
        j = j + 1;
    }
    (v4, v6)
}

/// Looks at every address of every interface that is up and not loopback,
/// skips link-local addresses, and reports which families remain.
pub fn detect_ip_stack(interfaces: &[Interface]) -> (r: IpStack)
    ensures
        r == detect_ip_stack_spec(interfaces@),
{
    let mut has_v4 = false;
    let mut has_v6 = false;
    let mut i: usize = 0;
    while i < interfaces.len()
        invariant
            0 <= i <= interfaces.len(),
            has_v4 == any_v4(interfaces@, i as int),
            has_v6 == any_v6(interfaces@, i as int),
        decreases interfaces.len() - i,
    {
        let iface = &interfaces[i];
        if iface.up && !iface.loopback {
            let (a, b) = scan_addresses(&iface.addresses);
            has_v4 = has_v4 || a;
            has_v6 = has_v6 || b;
        }
        assert(any_v4(interfaces@, i + 1) == (any_v4(interfaces@, i as int) || (counted(
            interfaces@[i as int],
        ) && has_v4_address(interfaces@[i as int].addresses@))));
        assert(any_v6(interfaces@, i + 1) == (any_v6(interfaces@, i as int) || (counted(
            interfaces@[i as int],
        ) && has_v6_address(interfaces@[i as int].addresses@))));
        i = i + 1;
    }
    if has_v4 && has_v6 {
        IpStack::DualStack
    } else if has_v4 {
        IpStack::Ipv4Only
    } else if has_v6 {
        IpStack::Ipv6Only
    } else {
        IpStack::Neither
    }
}

/// Interfaces that are down or loopback never change the detected stack,
/// wherever they stand in the list.
pub proof fn lemma_ignores_uncounted(before: Seq<Interface>, x: Interface, after: Seq<Interface>)
    requires
        !counted(x),
    ensures
        detect_ip_stack_spec(before + seq![x] + after) == detect_ip_stack_spec(before + after),
{
    let a = before + seq![x] + after;
    let b = before + after;
    let n = before.len() as int;
    assert(any_v4(a, a.len() as int) == any_v4(b, b.len() as int)) by {
        if any_v4(a, a.len() as int) {
            let k = choose|k: int|
                0 <= k < a.len() && counted(a[k]) && has_v4_address(#[trigger] a[k].addresses@);
            if k < n {
                assert(b[k] == a[k]);
            } else {
                assert(k > n);
                assert(b[k - 1] == a[k]);
            }
        }
        if any_v4(b, b.len() as int) {
            let k = choose|k: int|
                0 <= k < b.len() && counted(b[k]) && has_v4_address(#[trigger] b[k].addresses@);
            if k < n {
                assert(a[k] == b[k]);
            } else {
                assert(a[k + 1] == b[k]);
            }
        }
    }
    assert(any_v6(a, a.len() as int) == any_v6(b, b.len() as int)) by {
        if any_v6(a, a.len() as int) {
            let k = choose|k: int|
                0 <= k < a.len() && counted(a[k]) && has_v6_address(#[trigger] a[k].addresses@);
            if k < n {
                assert(b[k] == a[k]);
            } else {
                assert(k > n);
                assert(b[k - 1] == a[k]);
            }
        }
        if any_v6(b, b.len() as int) {
            let k = choose|k: int|
                0 <= k < b.len() && counted(b[k]) && has_v6_address(#[trigger] b[k].addresses@);
            if k < n {
                assert(a[k] == b[k]);
            } else {
                assert(a[k + 1] == b[k]);
            }
        }
    }
}

/// The order of the interfaces does not matter: swapping two neighbours
/// leaves the stack unchanged.
pub proof fn lemma_order_irrelevant(before: Seq<Interface>, x: Interface, y: Interface, after: Seq<Interface>)
    ensures
        detect_ip_stack_spec(before + seq![x, y] + after) == detect_ip_stack_spec(
            before + seq![y, x] + after,
        ),
{
    let a = before + seq![x, y] + after;
    let b = before + seq![y, x] + after;
    let n = before.len() as int;
    assert forall|k: int| 0 <= k < a.len() implies exists|j: int| 0 <= j < b.len() && #[trigger] b[j] == #[trigger] a[k] by {
        if k == n {
            assert(b[n + 1] == a[k]);
        } else if k == n + 1 {
            assert(b[n] == a[k]);
        } else {
            assert(b[k] == a[k]);
        }
    }
    assert forall|k: int| 0 <= k < b.len() implies exists|j: int| 0 <= j < a.len() && #[trigger] a[j] == #[trigger] b[k] by {
        if k == n {
            assert(a[n + 1] == b[k]);
        } else if k == n + 1 {
            assert(a[n] == b[k]);
        } else {
            assert(a[k] == b[k]);
        }
    }
    assert(any_v4(a, a.len() as int) == any_v4(b, b.len() as int)) by {
        if any_v4(a, a.len() as int) {
            let k = choose|k: int|
                0 <= k < a.len() && counted(a[k]) && has_v4_address(#[trigger] a[k].addresses@);
            let j = choose|j: int| 0 <= j < b.len() && #[trigger] b[j] == a[k];
            assert(has_v4_address(b[j].addresses@));
        }
        if any_v4(b, b.len() as int) {
            let k = choose|k: int|
                0 <= k < b.len() && counted(b[k]) && has_v4_address(#[trigger] b[k].addresses@);
            let j = choose|j: int| 0 <= j < a.len() && #[trigger] a[j] == b[k];
            assert(has_v4_address(a[j].addresses@));
        }
    }
    assert(any_v6(a, a.len() as int) == any_v6(b, b.len() as int)) by {
        if any_v6(a, a.len() as int) {
            let k = choose|k: int|
                0 <= k < a.len() && counted(a[k]) && has_v6_address(#[trigger] a[k].addresses@);
            let j = choose|j: int| 0 <= j < b.len() && #[trigger] b[j] == a[k];
            assert(has_v6_address(b[j].addresses@));
        }
        if any_v6(b, b.len() as int) {
            let k = choose|k: int|
                0 <= k < b.len() && counted(b[k]) && has_v6_address(#[trigger] b[k].addresses@);
            let j = choose|j: int| 0 <= j < a.len() && #[trigger] a[j] == b[k];
            assert(has_v6_address(a[j].addresses@));
        }
    }
}

} // verus!
