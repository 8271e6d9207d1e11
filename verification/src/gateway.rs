//! The default gateway's addresses.
use vstd::prelude::*;

verus! {

/// The gateway's addresses as text, IPv4 addresses first, then IPv6, each
/// in the order the route table reports them.
pub fn build_gateway_ips(ipv4: &[String], ipv6: &[String]) -> (r: Vec<String>)
    ensures
        r@ == ipv4@ + ipv6@,
{
    let mut ips: Vec<String> = Vec::new();
    let mut i: usize = 0;
    while i < ipv4.len()
        invariant
            0 <= i <= ipv4.len(),
            ips@ == ipv4@.take(i as int),
        decreases ipv4.len() - i,
    {
        ips.push(ipv4[i].clone());
        assert(ipv4@.take(i + 1) == ipv4@.take(i as int).push(ipv4@[i as int]));
        i = i + 1;
    }
    assert(ipv4@.take(ipv4.len() as int) == ipv4@);
    let mut j: usize = 0;
    while j < ipv6.len()
        invariant
            0 <= j <= ipv6.len(),
            ips@ == ipv4@ + ipv6@.take(j as int),
        decreases ipv6.len() - j,
    {
        ips.push(ipv6[j].clone());
        assert(ipv6@.take(j + 1) == ipv6@.take(j as int).push(ipv6@[j as int]));
        j = j + 1;
    }
    assert(ipv6@.take(ipv6.len() as int) == ipv6@);
    ips
}

} // verus!
