//! Internet addresses.
//!
//! The addresses are held as plain numbers. What is asked of an address is answered by
//! `no_std_net`.
use vstd::prelude::*;
use vstd::std_specs::convert::FromSpec;

verus! {

/// Asks `no_std_net::Ipv4Addr::is_unspecified` about the address with these octets.
///
/// It is trusted that it holds of the address `0.0.0.0` and of no other.
#[verifier::external_body]
fn v4_is_unspecified(octets: [u8; 4]) -> (b: bool)
    ensures
        b == (octets@ == seq![0u8, 0u8, 0u8, 0u8]),
{
    no_std_net::Ipv4Addr::from(octets).is_unspecified()
}

/// Asks `no_std_net::Ipv6Addr::is_unspecified` about the address with these segments.
///
/// It is trusted that it holds of the address `::` and of no other.
#[verifier::external_body]
fn v6_is_unspecified(segments: [u16; 8]) -> (b: bool)
    ensures
        b == (segments@ == seq![0u16, 0u16, 0u16, 0u16, 0u16, 0u16, 0u16, 0u16]),
{
    no_std_net::Ipv6Addr::from(segments).is_unspecified()
}

/// `core::convert::From` of a type for itself: it hands its argument back.
///
/// It is trusted that the result is the argument. The sockets convert what they are given, and
/// this is the conversion where they are given a `SocketAddr` or a `RingBuffer` as such.
pub assume_specification<Any>[ <Any as core::convert::From<Any>>::from ](value: Any) -> (same: Any)
    ensures
        same == value,
;

/// An IPv4 address.
#[derive(Debug, Clone, Copy, PartialEq, Eq, Hash)]
pub struct Ipv4Addr {
    /// The four octets, in the order in which they are written.
    pub octets: [u8; 4],
}

impl Ipv4Addr {
    /// Create the address `a.b.c.d`.
    pub fn new(a: u8, b: u8, c: u8, d: u8) -> (ip: Ipv4Addr)
        ensures
            ip.octets@ == seq![a, b, c, d],
    {
        Ipv4Addr { octets: [a, b, c, d] }
    }
}

/// An IPv6 address.
#[derive(Debug, Clone, Copy, PartialEq, Eq, Hash)]
pub struct Ipv6Addr {
    /// The eight segments, in the order in which they are written.
    pub segments: [u16; 8],
}

impl Ipv6Addr {
    /// Create an address from its segments.
    pub fn new(segments: [u16; 8]) -> (ip: Ipv6Addr)
        ensures
            ip.segments == segments,
    {
        Ipv6Addr { segments }
    }
}

/// An IP address, either IPv4 or IPv6.
#[derive(Debug, Clone, Copy, PartialEq, Eq, Hash)]
pub enum IpAddr {
    /// An IPv4 address.
    V4(Ipv4Addr),
    /// An IPv6 address.
    V6(Ipv6Addr),
}

impl IpAddr {
    /// Whether this is the unspecified address: `0.0.0.0` or `::`.
    pub open spec fn unspecified(self) -> bool {
        match self {
            IpAddr::V4(ip) => ip.octets@ == seq![0u8, 0u8, 0u8, 0u8],
            IpAddr::V6(ip) => ip.segments@ == seq![
                0u16,
                0u16,
                0u16,
                0u16,
                0u16,
                0u16,
                0u16,
                0u16,
            ],
        }
    }

    /// Return whether this is the unspecified address: `0.0.0.0` or `::`.
    pub fn is_unspecified(&self) -> (b: bool)
        ensures
            b == self.unspecified(),
    {
        match self {
            IpAddr::V4(ip) => v4_is_unspecified(ip.octets),
            IpAddr::V6(ip) => v6_is_unspecified(ip.segments),
        }
    }
}

/// An IPv4 address and a port.
#[derive(Debug, Clone, Copy, PartialEq, Eq, Hash)]
pub struct SocketAddrV4 {
    pub ip: Ipv4Addr,
    pub port: u16,
}

impl SocketAddrV4 {
    /// Create a socket address.
    pub fn new(ip: Ipv4Addr, port: u16) -> (addr: SocketAddrV4)
        ensures
            addr == (SocketAddrV4 { ip, port }),
    {
        SocketAddrV4 { ip, port }
    }
}

/// An IPv6 address and a port.
#[derive(Debug, Clone, Copy, PartialEq, Eq, Hash)]
pub struct SocketAddrV6 {
    pub ip: Ipv6Addr,
    pub port: u16,
    pub flowinfo: u32,
    pub scope_id: u32,
}

impl SocketAddrV6 {
    /// Create a socket address.
    pub fn new(ip: Ipv6Addr, port: u16, flowinfo: u32, scope_id: u32) -> (addr: SocketAddrV6)
        ensures
            addr == (SocketAddrV6 { ip, port, flowinfo, scope_id }),
    {
        SocketAddrV6 { ip, port, flowinfo, scope_id }
    }
}

/// An internet socket address, either IPv4 or IPv6.
#[derive(Debug, Clone, Copy, PartialEq, Eq, Hash)]
pub enum SocketAddr {
    /// An IPv4 socket address.
    V4(SocketAddrV4),
    /// An IPv6 socket address.
    V6(SocketAddrV6),
}

impl SocketAddr {
    /// The port of this address.
    pub open spec fn port_number(self) -> u16 {
        match self {
            SocketAddr::V4(addr) => addr.port,
            SocketAddr::V6(addr) => addr.port,
        }
    }

    /// The IP address of this address.
    pub open spec fn ip_addr(self) -> IpAddr {
        match self {
            SocketAddr::V4(addr) => IpAddr::V4(addr.ip),
            SocketAddr::V6(addr) => IpAddr::V6(addr.ip),
        }
    }

    /// Whether a connection to this address can be attempted: its port is not zero, and its IP
    /// address is specified.
    pub open spec fn addressable(self) -> bool {
        self.port_number() != 0 && !self.ip_addr().unspecified()
    }

    /// Return the port of this address.
    pub fn port(&self) -> (port: u16)
        ensures
            port == self.port_number(),
    {
        match self {
            SocketAddr::V4(addr) => addr.port,
            SocketAddr::V6(addr) => addr.port,
        }
    }

    /// Return the IP address of this address.
    pub fn ip(&self) -> (ip: IpAddr)
        ensures
            ip == self.ip_addr(),
    {
        match self {
            SocketAddr::V4(addr) => IpAddr::V4(addr.ip),
            SocketAddr::V6(addr) => IpAddr::V6(addr.ip),
        }
    }
}

impl From<SocketAddrV4> for SocketAddr {
    fn from(addr: SocketAddrV4) -> (r: SocketAddr) {
        SocketAddr::V4(addr)
    }
}

impl vstd::std_specs::convert::FromSpecImpl<SocketAddrV4> for SocketAddr {
    open spec fn obeys_from_spec() -> bool {
        true
    }

    open spec fn from_spec(addr: SocketAddrV4) -> SocketAddr {
        SocketAddr::V4(addr)
    }
}

impl From<SocketAddrV6> for SocketAddr {
    fn from(addr: SocketAddrV6) -> (r: SocketAddr) {
        SocketAddr::V6(addr)
    }
}

impl vstd::std_specs::convert::FromSpecImpl<SocketAddrV6> for SocketAddr {
    open spec fn obeys_from_spec() -> bool {
        true
    }

    open spec fn from_spec(addr: SocketAddrV6) -> SocketAddr {
        SocketAddr::V6(addr)
    }
}

impl From<(Ipv4Addr, u16)> for SocketAddr {
    fn from(pair: (Ipv4Addr, u16)) -> (r: SocketAddr) {
        SocketAddr::V4(SocketAddrV4 { ip: pair.0, port: pair.1 })
    }
}

impl vstd::std_specs::convert::FromSpecImpl<(Ipv4Addr, u16)> for SocketAddr {
    open spec fn obeys_from_spec() -> bool {
        true
    }

    open spec fn from_spec(pair: (Ipv4Addr, u16)) -> SocketAddr {
        SocketAddr::V4(SocketAddrV4 { ip: pair.0, port: pair.1 })
    }
}

impl From<(Ipv6Addr, u16)> for SocketAddr {
    fn from(pair: (Ipv6Addr, u16)) -> (r: SocketAddr) {
        SocketAddr::V6(
            SocketAddrV6 { ip: pair.0, port: pair.1, flowinfo: 0, scope_id: 0 },
        )
    }
}

impl vstd::std_specs::convert::FromSpecImpl<(Ipv6Addr, u16)> for SocketAddr {
    open spec fn obeys_from_spec() -> bool {
        true
    }

    open spec fn from_spec(pair: (Ipv6Addr, u16)) -> SocketAddr {
        SocketAddr::V6(
            SocketAddrV6 { ip: pair.0, port: pair.1, flowinfo: 0, scope_id: 0 },
        )
    }
}

impl From<(IpAddr, u16)> for SocketAddr {
    fn from(pair: (IpAddr, u16)) -> (r: SocketAddr) {
        match pair.0 {
            IpAddr::V4(ip) => SocketAddr::from((ip, pair.1)),
            IpAddr::V6(ip) => SocketAddr::from((ip, pair.1)),
        }
    }
}

impl vstd::std_specs::convert::FromSpecImpl<(IpAddr, u16)> for SocketAddr {
    open spec fn obeys_from_spec() -> bool {
        true
    }

    open spec fn from_spec(pair: (IpAddr, u16)) -> SocketAddr {
        match pair.0 {
            IpAddr::V4(ip) => SocketAddr::V4(SocketAddrV4 { ip, port: pair.1 }),
            IpAddr::V6(ip) => SocketAddr::V6(
                SocketAddrV6 { ip, port: pair.1, flowinfo: 0, scope_id: 0 },
            ),
        }
    }
}

/// An address is unspecified exactly if all of its numbers are zero.
pub proof fn law_unspecified_is_all_zero(v4: Ipv4Addr, v6: Ipv6Addr)
    ensures
        IpAddr::V4(v4).unspecified() <==> forall|i: int| 0 <= i < 4 ==> #[trigger] v4.octets@[i] == 0,
        IpAddr::V6(v6).unspecified() <==> forall|i: int|
            0 <= i < 8 ==> #[trigger] v6.segments@[i] == 0,
{
    if forall|i: int| 0 <= i < 4 ==> #[trigger] v4.octets@[i] == 0 {
        assert(v4.octets@ =~= seq![0u8, 0u8, 0u8, 0u8]);
    }
    if forall|i: int| 0 <= i < 8 ==> #[trigger] v6.segments@[i] == 0 {
        assert(v6.segments@ =~= seq![0u16, 0u16, 0u16, 0u16, 0u16, 0u16, 0u16, 0u16]);
    }
}

/// A socket address holds the IP address and the port that it was made from, and is addressable
/// exactly if the port is not zero and the IP address is specified, of either kind.
pub proof fn law_address_holds_its_parts(v4: SocketAddrV4, v6: SocketAddrV6)
    ensures
        SocketAddr::V4(v4).port_number() == v4.port,
        SocketAddr::V6(v6).port_number() == v6.port,
        SocketAddr::V4(v4).ip_addr() == IpAddr::V4(v4.ip),
        SocketAddr::V6(v6).ip_addr() == IpAddr::V6(v6.ip),
        SocketAddr::V4(v4).addressable() <==> v4.port != 0 && !IpAddr::V4(v4.ip).unspecified(),
        SocketAddr::V6(v6).addressable() <==> v6.port != 0 && !IpAddr::V6(v6.ip).unspecified(),
{
}

/// Converting a pair of an IP address and a port keeps both, and converting an address of one kind
/// keeps it whole.
pub proof fn law_conversions_keep_the_parts(
    ip: IpAddr,
    ip4: Ipv4Addr,
    ip6: Ipv6Addr,
    port: u16,
    v4: SocketAddrV4,
    v6: SocketAddrV6,
)
    ensures
        <SocketAddr as FromSpec<(IpAddr, u16)>>::obeys_from_spec(),
        <SocketAddr as FromSpec<(IpAddr, u16)>>::from_spec((ip, port)).ip_addr() == ip,
        <SocketAddr as FromSpec<(IpAddr, u16)>>::from_spec((ip, port)).port_number() == port,
        <SocketAddr as FromSpec<(IpAddr, u16)>>::from_spec((ip, port)) matches SocketAddr::V6(made)
            ==> made.flowinfo == 0 && made.scope_id == 0,
        <SocketAddr as FromSpec<(Ipv4Addr, u16)>>::obeys_from_spec(),
        <SocketAddr as FromSpec<(Ipv4Addr, u16)>>::from_spec((ip4, port))
            == <SocketAddr as FromSpec<(IpAddr, u16)>>::from_spec((IpAddr::V4(ip4), port)),
        <SocketAddr as FromSpec<(Ipv6Addr, u16)>>::obeys_from_spec(),
        <SocketAddr as FromSpec<(Ipv6Addr, u16)>>::from_spec((ip6, port))
            == <SocketAddr as FromSpec<(IpAddr, u16)>>::from_spec((IpAddr::V6(ip6), port)),
        <SocketAddr as FromSpec<SocketAddrV4>>::obeys_from_spec(),
        <SocketAddr as FromSpec<SocketAddrV4>>::from_spec(v4) == SocketAddr::V4(v4),
        <SocketAddr as FromSpec<SocketAddrV6>>::obeys_from_spec(),
        <SocketAddr as FromSpec<SocketAddrV6>>::from_spec(v6) == SocketAddr::V6(v6),
{
}

} // verus!
