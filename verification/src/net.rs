//! Addresses of multicast groups and the socket set-up that the library
//! decides for a group, independently of the operating system calls that
//! carry it out.
use vstd::prelude::*;

verus! {

/// The default multicast port.
pub const PORT: u16 = 7645;

/// An IP address: four octets for IPv4, eight 16-bit segments for IPv6.
#[derive(Clone, Copy, Debug, PartialEq, Eq)]
pub enum IpAddress {
    V4([u8; 4]),
    V6([u16; 8]),
}

/// An IP address together with a port.
#[derive(Clone, Copy, Debug, PartialEq, Eq)]
pub struct SocketAddress {
    pub ip: IpAddress,
    pub port: u16,
}

/// IPv4 multicast addresses are those of 224.0.0.0/4.
pub open spec fn ipv4_is_multicast(octets: [u8; 4]) -> bool {
    224 <= octets[0] <= 239
}

/// IPv6 multicast addresses are those of ff00::/8.
pub open spec fn ipv6_is_multicast(segments: [u16; 8]) -> bool {
    segments[0] >= 0xff00
}

/// IPv6 unicast link-local addresses are those of fe80::/10.
pub open spec fn ipv6_is_unicast_link_local(segments: [u16; 8]) -> bool {
    0xfe80 <= segments[0] <= 0xfebf
}

impl IpAddress {
    pub open spec fn spec_is_ipv4(self) -> bool {
        self is V4
    }

    pub open spec fn spec_is_multicast(self) -> bool {
        match self {
            IpAddress::V4(o) => ipv4_is_multicast(o),
            IpAddress::V6(s) => ipv6_is_multicast(s),
        }
    }

    pub open spec fn spec_is_unicast_link_local(self) -> bool {
        match self {
            IpAddress::V4(_) => false,
            IpAddress::V6(s) => ipv6_is_unicast_link_local(s),
        }
    }

    /// Whether this is an IPv4 address.
    pub fn is_ipv4(&self) -> (b: bool)
        ensures
            b == self.spec_is_ipv4(),
    {
        match self {
            IpAddress::V4(_) => true,
            IpAddress::V6(_) => false,
        }
    }

    /// Whether this is an IPv6 address.
    pub fn is_ipv6(&self) -> (b: bool)
        ensures
            b == !self.spec_is_ipv4(),
    {
        match self {
            IpAddress::V4(_) => false,
            IpAddress::V6(_) => true,
        }
    }

    /// Whether this is a multicast address (224.0.0.0/4 or ff00::/8).
    pub fn is_multicast(&self) -> (b: bool)
        ensures
            b == self.spec_is_multicast(),
    {
        match self {
            IpAddress::V4(o) => 224 <= o[0] && o[0] <= 239,
            IpAddress::V6(s) => s[0] >= 0xff00,
        }
    }

    /// Whether this is an IPv6 unicast link-local address (fe80::/10).
    pub fn is_unicast_link_local(&self) -> (b: bool)
        ensures
            b == self.spec_is_unicast_link_local(),
    {
        match self {
            IpAddress::V4(_) => false,
            IpAddress::V6(s) => 0xfe80 <= s[0] && s[0] <= 0xfebf,
        }
    }
}

pub open spec fn spec_unspecified_v4() -> [u8; 4] {
    [0u8, 0u8, 0u8, 0u8]
}

pub open spec fn spec_unspecified_v6() -> [u16; 8] {
    [0u16, 0u16, 0u16, 0u16, 0u16, 0u16, 0u16, 0u16]
}

/// The IPv4 address 0.0.0.0, which stands for every interface.
pub fn unspecified_v4() -> (o: [u8; 4])
    ensures
        o == spec_unspecified_v4(),
{
    [0u8, 0u8, 0u8, 0u8]
}

/// The IPv6 address ::, which stands for every interface.
pub fn unspecified_v6() -> (s: [u16; 8])
    ensures
        s == spec_unspecified_v6(),
{
    [0u16, 0u16, 0u16, 0u16, 0u16, 0u16, 0u16, 0u16]
}

pub open spec fn spec_ipv4_group() -> IpAddress {
    IpAddress::V4([224u8, 0u8, 0u8, 123u8])
}

pub open spec fn spec_ipv6_group() -> IpAddress {
    IpAddress::V6([0xff02u16, 0u16, 0u16, 0u16, 0u16, 0u16, 0u16, 0x0123u16])
}

/// The library's default IPv4 multicast group, 224.0.0.123.
pub fn ipv4_group() -> (a: IpAddress)
    ensures
        a == spec_ipv4_group(),
        a.spec_is_ipv4(),
        a.spec_is_multicast(),
{
    IpAddress::V4([224u8, 0u8, 0u8, 123u8])
}

/// The library's default IPv6 multicast group, ff02::123.
pub fn ipv6_group() -> (a: IpAddress)
    ensures
        a == spec_ipv6_group(),
        !a.spec_is_ipv4(),
        a.spec_is_multicast(),
{
    IpAddress::V6([0xff02u16, 0u16, 0u16, 0u16, 0u16, 0u16, 0u16, 0x0123u16])
}

pub open spec fn spec_resolve_port(port: Option<u16>) -> u16 {
    match port {
        Some(p) => p,
        None => PORT,
    }
}

/// The port actually used for an optional port: the given one, else `PORT`.
pub fn resolve_port(port: Option<u16>) -> (p: u16)
    ensures
        p == spec_resolve_port(port),
{
    match port {
        Some(q) => q,
        None => PORT,
    }
}

/// The socket address of a multicast group: the group's address with the
/// given port, or with `PORT` when none is given.
pub fn group_address(addr: IpAddress, port: Option<u16>) -> (s: SocketAddress)
    requires
        addr.spec_is_multicast(),
    ensures
        s.ip == addr,
        s.port == spec_resolve_port(port),
{
    SocketAddress { ip: addr, port: resolve_port(port) }
}

/// The interface address that the library falls back on: 0.0.0.0.
pub fn default_interface() -> (a: IpAddress)
    ensures
        a == IpAddress::V4(spec_unspecified_v4()),
{
    IpAddress::V4(unspecified_v4())
}

pub open spec fn spec_interface_addr(lookup: Option<Option<IpAddress>>, fallback: IpAddress) -> IpAddress {
    match lookup {
        Some(Some(found)) => found,
        _ => fallback,
    }
}

/// The address of the interface to use. `lookup` is `None` when no interface
/// was named, and otherwise what the lookup of the named interface found: the
/// address found is used, and `fallback` where nothing was named or found.
pub fn interface_addr(lookup: Option<Option<IpAddress>>, fallback: IpAddress) -> (a: IpAddress)
    ensures
        a == spec_interface_addr(lookup, fallback),
{
    match lookup {
        Some(Some(found)) => found,
        _ => fallback,
    }
}

pub open spec fn spec_v4_interface(iface: IpAddress) -> [u8; 4] {
    match iface {
        IpAddress::V4(o) => o,
        IpAddress::V6(_) => spec_unspecified_v4(),
    }
}

/// The IPv4 interface address to use: the interface's own when it is an IPv4
/// address, else 0.0.0.0 (every interface).
pub fn v4_interface(iface: IpAddress) -> (o: [u8; 4])
    ensures
        o == spec_v4_interface(iface),
{
    match iface {
        IpAddress::V4(o) => o,
        IpAddress::V6(_) => unspecified_v4(),
    }
}

/// How a receiving socket joins its group.
#[derive(Clone, Copy, Debug, PartialEq, Eq)]
pub enum JoinPlan {
    /// Join the IPv4 group on the interface with the given address.
    V4 { group_v4: [u8; 4], interface: [u8; 4] },
    /// Join the IPv6 group on the interface with the given index, and accept
    /// IPv6 traffic only.
    V6 { group_v6: [u16; 8], interface_index: u32 },
}

pub open spec fn spec_join_plan(group: IpAddress, iface: IpAddress, iface_index: u32) -> JoinPlan {
    match group {
        IpAddress::V4(g) => JoinPlan::V4 { group_v4: g, interface: spec_v4_interface(iface) },
        IpAddress::V6(g) => JoinPlan::V6 { group_v6: g, interface_index: iface_index },
    }
}

/// How to join `group`, given the resolved interface address (used for IPv4)
/// and interface index (used for IPv6).
pub fn join_plan(group: IpAddress, iface: IpAddress, iface_index: u32) -> (p: JoinPlan)
    ensures
        p == spec_join_plan(group, iface, iface_index),
{
    match group {
        IpAddress::V4(g) => JoinPlan::V4 { group_v4: g, interface: v4_interface(iface) },
        IpAddress::V6(g) => JoinPlan::V6 { group_v6: g, interface_index: iface_index },
    }
}

pub open spec fn spec_receiver_bind_address(group: SocketAddress, wildcard: bool) -> SocketAddress {
    if wildcard {
        match group.ip {
            IpAddress::V4(_) => SocketAddress {
                ip: IpAddress::V4(spec_unspecified_v4()),
                port: group.port,
            },
            IpAddress::V6(_) => SocketAddress {
                ip: IpAddress::V6(spec_unspecified_v6()),
                port: group.port,
            },
        }
    } else {
        group
    }
}

/// The address a receiving socket binds to. Where binding to a multicast
/// address is improper (`wildcard`, as on Windows) it is the unspecified
/// address of the group's family with the group's port; elsewhere it is the
/// group address itself, which makes the system filter multicast packets.
pub fn receiver_bind_address(group: SocketAddress, wildcard: bool) -> (a: SocketAddress)
    ensures
        a == spec_receiver_bind_address(group, wildcard),
        a.port == group.port,
        a.ip.spec_is_ipv4() == group.ip.spec_is_ipv4(),
        !wildcard ==> a == group,
{
    if wildcard {
        match group.ip {
            IpAddress::V4(_) => SocketAddress { ip: IpAddress::V4(unspecified_v4()), port: group.port },
            IpAddress::V6(_) => SocketAddress { ip: IpAddress::V6(unspecified_v6()), port: group.port },
        }
    } else {
        group
    }
}

/// How a sending socket is set up.
#[derive(Clone, Copy, Debug, PartialEq, Eq)]
pub enum SenderPlan {
    /// Send IPv4 multicast through the interface with address `interface`,
    /// from a socket bound to `bind` (that address, with a port chosen by the
    /// system).
    V4 { interface: [u8; 4], bind: SocketAddress },
    /// Send IPv6 multicast through the interface with index
    /// `interface_index`, from a socket bound to `bind` ([::] with a port
    /// chosen by the system).
    V6 { interface_index: u32, bind: SocketAddress },
}

pub open spec fn spec_sender_plan(group: IpAddress, iface: IpAddress, iface_index: u32) -> SenderPlan {
    match group {
        IpAddress::V4(_) => SenderPlan::V4 {
            interface: spec_v4_interface(iface),
            bind: SocketAddress { ip: IpAddress::V4(spec_v4_interface(iface)), port: 0 },
        },
        IpAddress::V6(_) => SenderPlan::V6 {
            interface_index: iface_index,
            bind: SocketAddress { ip: IpAddress::V6(spec_unspecified_v6()), port: 0 },
        },
    }
}

/// How to set up a socket that sends to `group`, given the resolved interface
/// address (used for IPv4) and interface index (used for IPv6).
pub fn sender_plan(group: IpAddress, iface: IpAddress, iface_index: u32) -> (p: SenderPlan)
    ensures
        p == spec_sender_plan(group, iface, iface_index),
{
    match group {
        IpAddress::V4(_) => {
            let o = v4_interface(iface);
            SenderPlan::V4 { interface: o, bind: SocketAddress { ip: IpAddress::V4(o), port: 0 } }
        },
        IpAddress::V6(_) => SenderPlan::V6 {
            interface_index: iface_index,
            bind: SocketAddress { ip: IpAddress::V6(unspecified_v6()), port: 0 },
        },
    }
}


/// Multicast addresses are those of 224.0.0.0/4 (the high four bits of the
/// first octet are 1110) and of ff00::/8 (the high byte of the first segment
/// is ff).
pub proof fn lemma_multicast_prefixes(o: [u8; 4], g: [u16; 8])
    ensures
        IpAddress::V4(o).spec_is_multicast() <==> (o[0] >> 4u8) == 14u8,
        IpAddress::V6(g).spec_is_multicast() <==> (g[0] >> 8u16) == 0xffu16,
{
    let x = o[0];
    let y = g[0];
    assert((224u8 <= x && x <= 239u8) <==> (x >> 4u8) == 14u8) by (bit_vector);
    assert((y >= 0xff00u16) <==> (y >> 8u16) == 0xffu16) by (bit_vector);
}

/// Where binding to a multicast address is proper, a receiver binds to its
/// group address itself, for both families; elsewhere to the unspecified
/// address of the group's family with the group's port.
pub proof fn lemma_receiver_binds_group(group: SocketAddress, wildcard: bool)
    ensures
        !wildcard ==> spec_receiver_bind_address(group, wildcard) == group,
        wildcard ==> spec_receiver_bind_address(group, wildcard).port == group.port,
        wildcard && group.ip.spec_is_ipv4() ==> spec_receiver_bind_address(group, wildcard).ip
            == IpAddress::V4([0u8, 0u8, 0u8, 0u8]),
        wildcard && !group.ip.spec_is_ipv4() ==> spec_receiver_bind_address(group, wildcard).ip
            == IpAddress::V6([0u16, 0u16, 0u16, 0u16, 0u16, 0u16, 0u16, 0u16]),
{
}

} // verus!
