//! Addresses of peers, and the network that counts as local.
use vstd::arithmetic::div_mod::{lemma_fundamental_div_mod, lemma_fundamental_div_mod_converse};
use vstd::arithmetic::power2::{lemma_pow2_pos, pow2};
use vstd::prelude::*;

verus! {

/// An IP address, as a number.
#[derive(Clone, Copy, Debug, PartialEq, Eq, Structural)]
pub enum IpAddress {
    V4(u32),
    V6(u128),
}

/// A socket address. The flow label and the scope are part of an IPv6 address: two addresses that
/// differ there are different keys.
#[derive(Clone, Copy, Debug, PartialEq, Eq, Structural)]
#[allow(inconsistent_fields)]
pub enum SocketAddress {
    V4 { ip: u32, port: u16 },
    V6 { ip: u128, port: u16, flowinfo: u32, scope_id: u32 },
}

/// The IPv4 address that an IPv6 address carries: the low 32 bits, where the high 96 are those of
/// `::` or of `::ffff:0:0`.
pub open spec fn spec_embedded_v4(ip: u128) -> Option<u32> {
    let high = ip as int / 0x1_0000_0000;
    if high == 0 || high == 0xffff {
        Some((ip as int % 0x1_0000_0000) as u32)
    } else {
        None
    }
}

/// The IPv4 address inside an IPv4-compatible or IPv4-mapped IPv6 address.
pub fn embedded_v4(ip: u128) -> (r: Option<u32>)
    ensures
        r == spec_embedded_v4(ip),
{
    let high: u128 = ip / 0x1_0000_0000;
    if high == 0 || high == 0xffff {
        Some((ip % 0x1_0000_0000) as u32)
    } else {
        None
    }
}

impl IpAddress {
    /// `127.0.0.0/8`, and `::1`.
    pub open spec fn spec_is_loopback(self) -> bool {
        match self {
            IpAddress::V4(ip) => ip as int / 0x100_0000 == 127,
            IpAddress::V6(ip) => ip == 1,
        }
    }

    pub fn is_loopback(&self) -> (r: bool)
        ensures
            r == self.spec_is_loopback(),
    {
        match *self {
            IpAddress::V4(ip) => ip / 0x100_0000 == 127,
            IpAddress::V6(ip) => ip == 1,
        }
    }

    /// `0.0.0.0`, and `::`.
    pub open spec fn spec_is_unspecified(self) -> bool {
        match self {
            IpAddress::V4(ip) => ip == 0,
            IpAddress::V6(ip) => ip == 0,
        }
    }

    pub fn is_unspecified(&self) -> (r: bool)
        ensures
            r == self.spec_is_unspecified(),
    {
        match *self {
            IpAddress::V4(ip) => ip == 0,
            IpAddress::V6(ip) => ip == 0,
        }
    }
}

impl SocketAddress {
    pub open spec fn spec_ip(self) -> IpAddress {
        match self {
            SocketAddress::V4 { ip, .. } => IpAddress::V4(ip),
            SocketAddress::V6 { ip, .. } => IpAddress::V6(ip),
        }
    }

    pub open spec fn spec_port(self) -> u16 {
        match self {
            SocketAddress::V4 { port, .. } => port,
            SocketAddress::V6 { port, .. } => port,
        }
    }

    pub fn ip(&self) -> (r: IpAddress)
        ensures
            r == self.spec_ip(),
    {
        match *self {
            SocketAddress::V4 { ip, .. } => IpAddress::V4(ip),
            SocketAddress::V6 { ip, .. } => IpAddress::V6(ip),
        }
    }

    pub fn port(&self) -> (r: u16)
        ensures
            r == self.spec_port(),
    {
        match *self {
            SocketAddress::V4 { port, .. } => port,
            SocketAddress::V6 { port, .. } => port,
        }
    }

    /// The address with this IP and port, and no flow label or scope.
    pub open spec fn spec_new(ip: IpAddress, port: u16) -> SocketAddress {
        match ip {
            IpAddress::V4(ip) => SocketAddress::V4 { ip, port },
            IpAddress::V6(ip) => SocketAddress::V6 { ip, port, flowinfo: 0, scope_id: 0 },
        }
    }

    pub fn new(ip: IpAddress, port: u16) -> (r: SocketAddress)
        ensures
            r == SocketAddress::spec_new(ip, port),
    {
        match ip {
            IpAddress::V4(ip) => SocketAddress::V4 { ip, port },
            IpAddress::V6(ip) => SocketAddress::V6 { ip, port, flowinfo: 0, scope_id: 0 },
        }
    }
}

/// A remote address as the network layer reports it, together with what the network layer makes
/// of it: its normal form (an IPv4 address that arrived through an IPv6 socket is an IPv4 address
/// again), and the texts of both IPs.
#[derive(Debug)]
pub struct Endpoint {
    /// The address itself.
    pub addr: SocketAddress,
    /// Its normal form. Connections are registered under it.
    pub key: SocketAddress,
    /// The text of `addr`'s IP.
    pub ip_text: String,
    /// The text of `key`'s IP.
    pub key_ip_text: String,
}

/// What an [`Endpoint`] says.
#[verifier::ext_equal]
pub struct EndpointView {
    pub addr: SocketAddress,
    pub key: SocketAddress,
    pub ip_text: Seq<char>,
    pub key_ip_text: Seq<char>,
}

impl View for Endpoint {
    type V = EndpointView;

    open spec fn view(&self) -> EndpointView {
        EndpointView {
            addr: self.addr,
            key: self.key,
            ip_text: self.ip_text@,
            key_ip_text: self.key_ip_text@,
        }
    }
}

impl Endpoint {
    /// A copy.
    pub fn dup(&self) -> (r: Endpoint)
        ensures
            r@ == self@,
    {
        Endpoint {
            addr: self.addr,
            key: self.key,
            ip_text: self.ip_text.clone(),
            key_ip_text: self.key_ip_text.clone(),
        }
    }
}

/// An IPv4 network: the first `prefix` bits of `addr`.
#[derive(Clone, Copy, Debug, PartialEq, Eq, Structural)]
pub struct Network {
    pub addr: u32,
    pub prefix: u8,
}

/// The network that a text in CIDR notation denotes, as an address and a prefix length.
pub uninterp spec fn parsed_network(text: Seq<char>) -> Option<(u32, u8)>;

/// `ipnetwork`'s parser of `Ipv4Network`, a function of the text alone; a network that it accepts
/// has a prefix of at most 32 bits. What the notation is, is left to the crate.
#[verifier::external_body]
fn parse_ipv4_network(text: &str) -> (r: Option<(u32, u8)>)
    ensures
        r == parsed_network(text@),
        r matches Some(n) ==> n.1 <= 32,
{
    match text.parse::<ipnetwork::Ipv4Network>() {
        Ok(n) => Some((n.ip().into(), n.prefix())),
        Err(_) => None,
    }
}

/// `ipnetwork`'s `Ipv4Network::contains`: an address is in the network when its first `prefix`
/// bits are the network's.
#[verifier::external_body]
fn ipv4_network_contains(addr: u32, prefix: u8, ip: u32) -> (r: bool)
    requires
        prefix <= 32,
    ensures
        r == same_prefix(addr, ip, prefix),
{
    ipnetwork::Ipv4Network::new(addr.into(), prefix).unwrap().contains(ip.into())
}

/// The two addresses agree in their first `prefix` bits.
pub open spec fn same_prefix(a: u32, b: u32, prefix: u8) -> bool {
    a as int / pow2((32 - prefix) as nat) as int == b as int / pow2((32 - prefix) as nat) as int
}

impl Network {
    /// The prefix is one that an IPv4 address has.
    pub open spec fn wf(self) -> bool {
        self.prefix <= 32
    }

    /// The network of a `mask` option; `None` where the text is not one.
    pub fn parse(text: &str) -> (r: Option<Network>)
        ensures
            match parsed_network(text@) {
                Some(n) => r == Some(Network { addr: n.0, prefix: n.1 }),
                None => r is None,
            },
            r matches Some(n) ==> n.wf(),
    {
        match parse_ipv4_network(text) {
            Some((addr, prefix)) => Some(Network { addr, prefix }),
            None => None,
        }
    }

    /// The IPv4 address, or the one inside the IPv6 address, is in the network.
    pub open spec fn spec_contains(self, ip: IpAddress) -> bool {
        match ip {
            IpAddress::V4(ip) => same_prefix(self.addr, ip, self.prefix),
            IpAddress::V6(ip) => match spec_embedded_v4(ip) {
                Some(v4) => same_prefix(self.addr, v4, self.prefix),
                None => false,
            },
        }
    }

    pub fn contains(&self, ip: IpAddress) -> (r: bool)
        requires
            self.wf(),
        ensures
            r == self.spec_contains(ip),
    {
        match ip {
            IpAddress::V4(ip) => ipv4_network_contains(self.addr, self.prefix, ip),
            IpAddress::V6(ip) => match embedded_v4(ip) {
                Some(v4) => ipv4_network_contains(self.addr, self.prefix, v4),
                None => false,
            },
        }
    }
}

/// A network is a block of addresses: from its first one on, as many as the bits that the prefix
/// leaves free can tell apart.
pub proof fn law_network_is_a_block_of_addresses(n: Network, ip: u32)
    requires
        n.wf(),
    ensures
        ({
            let size = pow2((32 - n.prefix) as nat) as int;
            let first = n.addr - n.addr as int % size;
            n.spec_contains(IpAddress::V4(ip)) <==> first <= ip < first + size
        }),
{
    let size = pow2((32 - n.prefix) as nat) as int;
    lemma_pow2_pos((32 - n.prefix) as nat);
    let a = n.addr as int;
    let b = ip as int;
    let first = a - a % size;
    lemma_fundamental_div_mod(a, size);
    lemma_fundamental_div_mod(b, size);
    if first <= b < first + size {
        lemma_fundamental_div_mod_converse(b, size, a / size, b - first);
    }
}

/// An IPv6 address is in a network where the IPv4 address that it stands for is, be it written
/// `::a.b.c.d` or `::ffff:a.b.c.d`; and no other IPv6 address is.
pub proof fn law_network_holds_embedded_addresses(n: Network, v4: u32, ip: u128)
    ensures
        n.spec_contains(IpAddress::V6(v4 as u128)) == n.spec_contains(IpAddress::V4(v4)),
        n.spec_contains(IpAddress::V6((0xffff_0000_0000 + v4) as u128)) == n.spec_contains(
            IpAddress::V4(v4),
        ),
        ip > 0xffff_ffff && !(0xffff_0000_0000 <= ip <= 0xffff_ffff_ffff) ==> !n.spec_contains(
            IpAddress::V6(ip),
        ),
{
}

/// The loopback addresses are those of `127.0.0.0/8` and `::1`, and an address is unspecified where
/// all its bits are 0.
pub proof fn law_special_addresses(v4: u32, v6: u128)
    ensures
        IpAddress::V4(v4).spec_is_loopback() <==> 0x7f00_0000 <= v4 <= 0x7fff_ffff,
        IpAddress::V6(v6).spec_is_loopback() <==> v6 == 1,
        IpAddress::V4(v4).spec_is_unspecified() <==> v4 == 0,
        IpAddress::V6(v6).spec_is_unspecified() <==> v6 == 0,
{
}

/// A socket address that is put together from an IP and a port has that IP and that port.
pub proof fn law_socket_address_has_its_parts(ip: IpAddress, port: u16)
    ensures
        SocketAddress::spec_new(ip, port).spec_ip() == ip,
        SocketAddress::spec_new(ip, port).spec_port() == port,
        SocketAddress::spec_new(ip, port) matches SocketAddress::V6 { flowinfo, scope_id, .. }
            ==> flowinfo == 0 && scope_id == 0,
{
}

/// Socket addresses with different IPs or ports are different.
pub proof fn law_socket_addresses_are_told_apart(a: SocketAddress, b: SocketAddress)
    ensures
        a.spec_ip() != b.spec_ip() || a.spec_port() != b.spec_port() ==> a != b,
        a is V4 && b is V4 && a.spec_ip() == b.spec_ip() && a.spec_port() == b.spec_port() ==> a
            == b,
        a is V4 <==> a.spec_ip() is V4,
{
}

} // verus!
