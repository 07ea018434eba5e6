use multicast_rs::net::{
    default_interface, group_address, interface_addr, ipv4_group, ipv6_group, join_plan,
    receiver_bind_address, resolve_port, sender_plan, IpAddress, JoinPlan, SenderPlan,
    SocketAddress, PORT,
};

#[test]
fn default_port_is_7645() {
    assert_eq!(PORT, 7645);
    assert_eq!(resolve_port(None), 7645);
    assert_eq!(resolve_port(Some(8000)), 8000);
}

#[test]
fn group_address_keeps_ip_and_port() {
    let a = group_address(ipv4_group(), Some(7700));
    assert_eq!(a.ip, IpAddress::V4([224, 0, 0, 123]));
    assert_eq!(a.port, 7700);
    let b = group_address(ipv4_group(), None);
    assert_eq!(b.port, 7645);
}

#[test]
fn default_groups() {
    let v4 = ipv4_group();
    assert!(v4.is_ipv4());
    assert!(v4.is_multicast());
    let v6 = ipv6_group();
    assert_eq!(v6, IpAddress::V6([0xff02, 0, 0, 0, 0, 0, 0, 0x0123]));
    assert!(v6.is_ipv6());
    assert!(v6.is_multicast());
}

#[test]
fn multicast_ranges() {
    assert!(IpAddress::V4([224, 0, 0, 1]).is_multicast());
    assert!(IpAddress::V4([239, 255, 255, 255]).is_multicast());
    assert!(!IpAddress::V4([223, 255, 255, 255]).is_multicast());
    assert!(!IpAddress::V4([240, 0, 0, 0]).is_multicast());
    assert!(IpAddress::V6([0xff00, 0, 0, 0, 0, 0, 0, 0]).is_multicast());
    assert!(!IpAddress::V6([0xfeff, 0, 0, 0, 0, 0, 0, 1]).is_multicast());
}

#[test]
fn link_local_range() {
    assert!(IpAddress::V6([0xfe80, 0, 0, 0, 0, 0, 0, 1]).is_unicast_link_local());
    assert!(IpAddress::V6([0xfebf, 0, 0, 0, 0, 0, 0, 1]).is_unicast_link_local());
    assert!(!IpAddress::V6([0xfec0, 0, 0, 0, 0, 0, 0, 1]).is_unicast_link_local());
    assert!(!IpAddress::V4([169, 254, 0, 1]).is_unicast_link_local());
}

#[test]
fn interface_address_fallback() {
    let fb = default_interface();
    assert_eq!(fb, IpAddress::V4([0, 0, 0, 0]));
    let found = IpAddress::V4([192, 168, 1, 5]);
    assert_eq!(interface_addr(None, fb), fb);
    assert_eq!(interface_addr(Some(None), fb), fb);
    assert_eq!(interface_addr(Some(Some(found)), fb), found);
}

#[test]
fn join_plans() {
    let lo = IpAddress::V4([127, 0, 0, 1]);
    assert_eq!(
        join_plan(ipv4_group(), lo, 3),
        JoinPlan::V4 { group_v4: [224, 0, 0, 123], interface: [127, 0, 0, 1] }
    );
    let v6iface = IpAddress::V6([0xfe80, 0, 0, 0, 0, 0, 0, 1]);
    assert_eq!(
        join_plan(ipv4_group(), v6iface, 3),
        JoinPlan::V4 { group_v4: [224, 0, 0, 123], interface: [0, 0, 0, 0] }
    );
    assert_eq!(
        join_plan(ipv6_group(), lo, 3),
        JoinPlan::V6 { group_v6: [0xff02, 0, 0, 0, 0, 0, 0, 0x0123], interface_index: 3 }
    );
}

#[test]
fn sender_plans() {
    let lo = IpAddress::V4([127, 0, 0, 1]);
    assert_eq!(
        sender_plan(ipv4_group(), lo, 0),
        SenderPlan::V4 {
            interface: [127, 0, 0, 1],
            bind: SocketAddress { ip: lo, port: 0 }
        }
    );
    assert_eq!(
        sender_plan(ipv6_group(), lo, 2),
        SenderPlan::V6 {
            interface_index: 2,
            bind: SocketAddress { ip: IpAddress::V6([0; 8]), port: 0 }
        }
    );
}

#[test]
fn receiver_bind_addresses() {
    let g = group_address(ipv4_group(), Some(7800));
    assert_eq!(receiver_bind_address(g, false), g);
    assert_eq!(
        receiver_bind_address(g, true),
        SocketAddress { ip: IpAddress::V4([0, 0, 0, 0]), port: 7800 }
    );
    let g6 = group_address(ipv6_group(), Some(7801));
    assert_eq!(
        receiver_bind_address(g6, true),
        SocketAddress { ip: IpAddress::V6([0; 8]), port: 7801 }
    );
}
