//! Network interfaces and their classification by state and addressing.
use vstd::prelude::*;

verus! {

/// Observable status of a single network interface.
#[derive(Debug, Clone, PartialEq)]
pub struct Interface {
    pub name: String,
    pub up: bool,
    pub loopback: bool,
    pub addresses: Vec<String>,
}

/// What the system reports for one interface, reduced to the values the
/// classification reads: the operational state and the interface type as
/// flags, and each address already rendered as `address/prefix` text.
#[derive(Debug, Clone, PartialEq)]
pub struct RawInterface {
    pub name: String,
    /// The operational state is "up".
    pub oper_state_up: bool,
    /// The interface type is loopback.
    pub loopback_type: bool,
    pub ipv4: Vec<String>,
    pub ipv6: Vec<String>,
}

/// The text views of a list of strings.
pub open spec fn texts(v: Seq<String>) -> Seq<Seq<char>> {
    v.map_values(|s: String| s@)
}

/// ASCII lower-casing of one character, as a code point.
pub open spec fn lower_code(c: char) -> u32 {
    if 65 <= (c as u32) && (c as u32) <= 90 {
        (c as u32 + 32) as u32
    } else {
        c as u32
    }
}

/// An address is link-local when its host part (the text before any
/// `/prefix`) starts with `fe80:` (compared ignoring ASCII case) or with
/// `169.254.`. Neither prefix holds a `/`, so the test can be read off the
/// start of the whole text.
pub open spec fn is_link_local_spec(a: Seq<char>) -> bool {
    ||| (a.len() >= 5 && lower_code(a[0]) == 102 && lower_code(a[1]) == 101 && a[2] == '8'
        && a[3] == '0' && a[4] == ':')
    ||| (a.len() >= 8 && a[0] == '1' && a[1] == '6' && a[2] == '9' && a[3] == '.' && a[4] == '2'
        && a[5] == '5' && a[6] == '4' && a[7] == '.')
}

fn lower_code_exec(c: char) -> (r: u32)
    ensures
        r == lower_code(c),
{
    let code = c as u32;
    if 65 <= code && code <= 90 {
        code + 32
    } else {
        code
    }
}

/// Whether `address` is an IPv6 (`fe80:`) or IPv4 (`169.254.`) link-local
/// address.
pub fn is_link_local(address: &str) -> (r: bool)
    ensures
        r == is_link_local_spec(address@),
{
    let a = crate::text::chars_of(address);
    let n = a.len();
    let v6 = n >= 5 && lower_code_exec(a[0]) == 102 && lower_code_exec(a[1]) == 101 && a[2] == '8'
        && a[3] == '0' && a[4] == ':';
    let v4 = n >= 8 && a[0] == '1' && a[1] == '6' && a[2] == '9' && a[3] == '.' && a[4] == '2'
        && a[5] == '5' && a[6] == '4' && a[7] == '.';
    v6 || v4
}

/// Builds an `Interface` from the raw system record: IPv4 addresses first,
/// then IPv6, each in the order reported.
pub fn build_interface(raw: RawInterface) -> (r: Interface)
    ensures
        r.name == raw.name,
        r.up == raw.oper_state_up,
        r.loopback == raw.loopback_type,
        r.addresses@ == raw.ipv4@ + raw.ipv6@,
{
    let RawInterface { name, oper_state_up, loopback_type, ipv4, ipv6 } = raw;
    let mut addresses = ipv4;
    let mut more = ipv6;
    addresses.append(&mut more);
    Interface { name, up: oper_state_up, loopback: loopback_type, addresses }
}

/// Coarse operational classification of an interface, derived from its
/// up/down state and the routability of its addresses. Declared
/// online-to-offline so the derived ordering sorts interfaces that way.
#[derive(Debug, Clone, Copy, PartialEq, Eq, PartialOrd, Ord, Structural)]
pub enum InterfaceClass {
    Routable,
    LinkLocalOnly,
    Unaddressed,
    Down,
}

/// Position of a class in the online-to-offline order.
pub open spec fn class_rank(c: InterfaceClass) -> nat {
    match c {
        InterfaceClass::Routable => 0,
        InterfaceClass::LinkLocalOnly => 1,
        InterfaceClass::Unaddressed => 2,
        InterfaceClass::Down => 3,
    }
}

/// Every address of the interface is link-local.
pub open spec fn all_link_local(addresses: Seq<String>) -> bool {
    forall|k: int| 0 <= k < addresses.len() ==> is_link_local_spec(#[trigger] addresses[k]@)
}

pub open spec fn classify_interface_spec(iface: Interface) -> InterfaceClass {
    if !iface.up {
        InterfaceClass::Down
    } else if iface.addresses.len() == 0 {
        InterfaceClass::Unaddressed
    } else if all_link_local(iface.addresses@) {
        InterfaceClass::LinkLocalOnly
    } else {
        InterfaceClass::Routable
    }
}

/// Down beats everything; an up interface with no address is unaddressed;
/// one whose addresses are all link-local is link-local only; otherwise it
/// is routable.
pub fn classify_interface(iface: &Interface) -> (r: InterfaceClass)
    ensures
        r == classify_interface_spec(*iface),
{
    if !iface.up {
        return InterfaceClass::Down;
    }
    if iface.addresses.len() == 0 {
        return InterfaceClass::Unaddressed;
    }
    let mut i: usize = 0;
    while i < iface.addresses.len()
        invariant
            iface.up,
            iface.addresses.len() > 0,
            0 <= i <= iface.addresses.len(),
            forall|k: int| 0 <= k < i ==> is_link_local_spec(#[trigger] iface.addresses@[k]@),
        decreases iface.addresses.len() - i,
    {
        if !is_link_local(iface.addresses[i].as_str()) {
            assert(!is_link_local_spec(iface.addresses@[i as int]@));
            return InterfaceClass::Routable;
        }
        i = i + 1;
    }
    InterfaceClass::LinkLocalOnly
}

/// Classification of a single address, for per-address display.
#[derive(Debug, Clone, Copy, PartialEq, Eq)]
pub enum AddressClass {
    LinkLocal,
    RoutableV4,
    RoutableV6,
}

pub open spec fn classify_address_spec(a: Seq<char>) -> AddressClass {
    if is_link_local_spec(a) {
        AddressClass::LinkLocal
    } else if a.contains(':') {
        AddressClass::RoutableV6
    } else {
        AddressClass::RoutableV4
    }
}

/// Whether `s` holds the character `c`.
pub fn str_has_char(s: &str, c: char) -> (r: bool)
    ensures
        r == s@.contains(c),
{
    let v = crate::text::chars_of(s);
    let mut i: usize = 0;
    while i < v.len()
        invariant
            v@ == s@,
            0 <= i <= v.len(),
            forall|k: int| 0 <= k < i ==> v@[k] != c,
        decreases v.len() - i,
    {
        if v[i] == c {
            assert(s@[i as int] == c);
            return true;
        }
        i = i + 1;
    }
    false
}

/// Link-local addresses first; otherwise a `:` marks IPv6.
pub fn classify_address(address: &str) -> (r: AddressClass)
    ensures
        r == classify_address_spec(address@),
{
    if is_link_local(address) {
        AddressClass::LinkLocal
    } else if str_has_char(address, ':') {
        AddressClass::RoutableV6
    } else {
        AddressClass::RoutableV4
    }
}

} // verus!
