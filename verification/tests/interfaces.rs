use netstatus::{
    AddressClass, Interface, InterfaceClass, IpStack, RawInterface, build_interface,
    classify_address, classify_interface, detect_ip_stack, is_link_local,
};

fn iface(name: &str, up: bool, addresses: &[&str]) -> Interface {
    Interface {
        name: name.to_string(),
        up,
        loopback: false,
        addresses: addresses.iter().map(|s| s.to_string()).collect(),
    }
}

#[test]
fn build_interface_up_with_address() {
    let raw = RawInterface {
        name: "en0".to_string(),
        oper_state_up: true,
        loopback_type: false,
        ipv4: vec!["192.168.1.42/24".to_string()],
        ipv6: vec![],
    };
    assert_eq!(
        build_interface(raw),
        Interface {
            name: "en0".to_string(),
            up: true,
            loopback: false,
            addresses: vec!["192.168.1.42/24".to_string()],
        }
    );
}

#[test]
fn build_interface_down_with_no_address() {
    let raw = RawInterface {
        name: "en1".to_string(),
        oper_state_up: false,
        loopback_type: false,
        ipv4: vec![],
        ipv6: vec![],
    };
    assert_eq!(
        build_interface(raw),
        Interface { name: "en1".to_string(), up: false, loopback: false, addresses: vec![] }
    );
}

#[test]
fn build_interface_loopback() {
    let raw = RawInterface {
        name: "lo0".to_string(),
        oper_state_up: true,
        loopback_type: true,
        ipv4: vec!["127.0.0.1/8".to_string()],
        ipv6: vec![],
    };
    assert_eq!(
        build_interface(raw),
        Interface {
            name: "lo0".to_string(),
            up: true,
            loopback: true,
            addresses: vec!["127.0.0.1/8".to_string()],
        }
    );
}

#[test]
fn build_interface_lists_ipv4_before_ipv6() {
    let raw = RawInterface {
        name: "en0".to_string(),
        oper_state_up: true,
        loopback_type: false,
        ipv4: vec!["10.0.0.2/24".to_string()],
        ipv6: vec!["fe80::1/64".to_string(), "2001:db8::1/64".to_string()],
    };
    assert_eq!(
        build_interface(raw).addresses,
        vec!["10.0.0.2/24".to_string(), "fe80::1/64".to_string(), "2001:db8::1/64".to_string()]
    );
}

#[test]
fn is_link_local_detects_ipv4_self_assigned() {
    assert!(is_link_local("169.254.1.2/16"));
    assert!(!is_link_local("192.168.1.1/24"));
}

#[test]
fn is_link_local_ignores_case_of_ipv6_prefix() {
    assert!(is_link_local("FE80::1/64"));
    assert!(is_link_local("fe80::abcd"));
    assert!(!is_link_local("fe8"));
    assert!(!is_link_local("fe81::1"));
    assert!(!is_link_local("169.25.1.2"));
}

#[test]
fn classify_down_interface() {
    let i = iface("en1", false, &["192.168.1.5/24"]);
    assert_eq!(classify_interface(&i), InterfaceClass::Down);
}

#[test]
fn classify_up_with_no_addresses() {
    let i = iface("en1", true, &[]);
    assert_eq!(classify_interface(&i), InterfaceClass::Unaddressed);
}

#[test]
fn classify_up_with_only_link_local_addresses() {
    let i = iface("en1", true, &["fe80::1/64", "169.254.1.2/16"]);
    assert_eq!(classify_interface(&i), InterfaceClass::LinkLocalOnly);
}

#[test]
fn classify_up_with_routable_address() {
    let i = iface("en0", true, &["fe80::1/64", "192.168.1.5/24"]);
    assert_eq!(classify_interface(&i), InterfaceClass::Routable);
}

#[test]
fn interface_class_orders_online_to_offline() {
    assert!(InterfaceClass::Routable < InterfaceClass::LinkLocalOnly);
    assert!(InterfaceClass::LinkLocalOnly < InterfaceClass::Unaddressed);
    assert!(InterfaceClass::Unaddressed < InterfaceClass::Down);
}

#[test]
fn classify_address_variants() {
    assert_eq!(classify_address("fe80::1/64"), AddressClass::LinkLocal);
    assert_eq!(classify_address("169.254.1.2/16"), AddressClass::LinkLocal);
    assert_eq!(classify_address("192.168.1.5/24"), AddressClass::RoutableV4);
    assert_eq!(classify_address("2001:db8::1/64"), AddressClass::RoutableV6);
}

#[test]
fn dual_stack_when_both_families_present() {
    let interfaces = vec![iface("en0", true, &["192.168.1.42/24", "2001:db8::1/64"])];
    assert_eq!(detect_ip_stack(&interfaces), IpStack::DualStack);
}

#[test]
fn ipv4_only_when_no_routable_v6() {
    let interfaces = vec![iface("en0", true, &["192.168.1.42/24", "fe80::1/64"])];
    assert_eq!(detect_ip_stack(&interfaces), IpStack::Ipv4Only);
}

#[test]
fn ipv6_only_when_no_v4() {
    let interfaces = vec![iface("en0", true, &["2001:db8::1/64"])];
    assert_eq!(detect_ip_stack(&interfaces), IpStack::Ipv6Only);
}

#[test]
fn none_when_no_routable_address() {
    let interfaces = vec![iface("en0", true, &["fe80::1/64"])];
    assert_eq!(detect_ip_stack(&interfaces), IpStack::Neither);
}

#[test]
fn ignores_down_and_loopback_interfaces() {
    let mut lo = iface("lo0", true, &["127.0.0.1/8", "::1/128"]);
    lo.loopback = true;
    let down = iface("en1", false, &["10.0.0.5/24"]);
    let interfaces = vec![lo, down];
    assert_eq!(detect_ip_stack(&interfaces), IpStack::Neither);
}

#[test]
fn ip_stack_ignores_order_and_uncounted_interfaces() {
    let v4 = iface("en0", true, &["10.0.0.5/24"]);
    let v6 = iface("en1", true, &["2001:db8::5/64"]);
    let down = iface("en2", false, &["10.0.0.6/24"]);
    let a = vec![v4.clone(), down.clone(), v6.clone()];
    let b = vec![v6, v4];
    assert_eq!(detect_ip_stack(&a), IpStack::DualStack);
    assert_eq!(detect_ip_stack(&b), IpStack::DualStack);
    assert_eq!(detect_ip_stack(&[]), IpStack::Neither);
}
