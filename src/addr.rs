//! Addresses of an interface: their family, the addresses themselves, masks
//! and next hops, and how a record of the discovery layer maps onto them.
use vstd::prelude::*;

use crate::text::{decimal, push_decimal};

verus! {

/// The family of an address (the `sa_family` of a `sockaddr`).
#[derive(PartialEq, Eq, Structural, Debug, Clone, Copy)]
pub enum Kind {
    /// An IPv4 address.
    Ipv4,
    /// An IPv6 address.
    Ipv6,
    /// A link-layer address (`AF_LINK`).
    Link,
    /// A family this library does not know; the numeric family code is kept.
    Unknown(i32),
    /// A packet address (`AF_PACKET`, Linux only).
    Packet,
}

/// How a family is written out.
pub open spec fn kind_text(k: Kind) -> Seq<char> {
    match k {
        Kind::Ipv4 => "IPv4"@,
        Kind::Ipv6 => "IPv6"@,
        Kind::Link => "Link"@,
        Kind::Unknown(v) => "Unknown("@ + decimal(v as int) + ")"@,
        Kind::Packet => "Packet"@,
    }
}

impl Kind {
    /// The family's name: `IPv4`, `IPv6`, `Link`, `Packet`, or `Unknown(n)`
    /// with the numeric code `n` in decimal.
    pub fn as_string(&self) -> (r: String)
        ensures
            r@ == kind_text(*self),
    {
        let mut s = String::new();
        match *self {
            Kind::Ipv4 => s.append("IPv4"),
            Kind::Ipv6 => s.append("IPv6"),
            Kind::Link => s.append("Link"),
            Kind::Unknown(v) => {
                s.append("Unknown(");
                push_decimal(&mut s, v);
                s.append(")");
            },
            Kind::Packet => s.append("Packet"),
        }
        s
    }
}

/// An IP address: an IPv4 address as its 32 bits, an IPv6 address as its 128
/// bits, both in network order read as a big-endian number.
#[derive(PartialEq, Eq, Structural, Debug, Clone, Copy, Hash)]
pub enum IpAddr {
    V4(u32),
    V6(u128),
}

/// An IP address with a port number.
#[derive(PartialEq, Eq, Structural, Debug, Clone, Copy, Hash)]
pub struct SocketAddr {
    pub ip: IpAddr,
    pub port: u16,
}

/// The next hop for an address.
#[derive(PartialEq, Eq, Structural, Debug, Clone, Copy)]
pub enum NextHop {
    /// The broadcast address that goes with the interface's address.
    Broadcast(SocketAddr),
    /// The peer address of a point-to-point interface.
    Destination(SocketAddr),
}

/// One address of an interface.
#[derive(PartialEq, Eq, Structural, Debug, Clone, Copy)]
pub struct Address {
    /// The family of this address.
    pub kind: Kind,
    /// The address itself, if it applies.
    pub addr: Option<SocketAddr>,
    /// The netmask of this address, if it applies.
    pub mask: Option<SocketAddr>,
    /// The broadcast or destination address, if it applies.
    pub hop: Option<NextHop>,
}

/// One address record as the discovery layer reports it: the address, whose
/// variant is the record's family, and its netmask and broadcast address when
/// there are any.
#[derive(PartialEq, Eq, Structural, Debug, Clone, Copy)]
pub struct RawAddr {
    pub ip: IpAddr,
    pub netmask: Option<IpAddr>,
    pub broadcast: Option<IpAddr>,
}

/// The family of an IP address.
pub open spec fn kind_of(ip: IpAddr) -> Kind {
    match ip {
        IpAddr::V4(_) => Kind::Ipv4,
        IpAddr::V6(_) => Kind::Ipv6,
    }
}

/// An IP address carried in a socket address, with port 0.
pub open spec fn zero_port(ip: IpAddr) -> SocketAddr {
    SocketAddr { ip, port: 0 }
}

/// The address that a record of the discovery layer maps to.
pub open spec fn address_of(raw: RawAddr) -> Address {
    Address {
        kind: kind_of(raw.ip),
        addr: Some(zero_port(raw.ip)),
        mask: match raw.netmask {
            Some(m) => Some(zero_port(m)),
            None => None,
        },
        hop: match raw.broadcast {
            Some(b) => Some(NextHop::Broadcast(zero_port(b))),
            None => None,
        },
    }
}

fn with_zero_port(ip: IpAddr) -> (r: SocketAddr)
    ensures
        r == zero_port(ip),
{
    SocketAddr { ip, port: 0 }
}

/// Maps a record of the discovery layer to an address: the family follows the
/// record's address, the address and netmask get port 0, and a broadcast
/// address becomes the next hop.
pub fn to_address(raw: &RawAddr) -> (r: Address)
    ensures
        r == address_of(*raw),
{
    let kind = match raw.ip {
        IpAddr::V4(_) => Kind::Ipv4,
        IpAddr::V6(_) => Kind::Ipv6,
    };
    let mask = match raw.netmask {
        Some(m) => Some(with_zero_port(m)),
        None => None,
    };
    let hop = match raw.broadcast {
        Some(b) => Some(NextHop::Broadcast(with_zero_port(b))),
        None => None,
    };
    Address { kind, addr: Some(with_zero_port(raw.ip)), mask, hop }
}

/// A record with neither netmask nor broadcast address maps to an address
/// with neither mask nor next hop; one with both maps to an address with both,
/// the next hop being the broadcast address with port 0.
pub proof fn lemma_address_keeps_presence(raw: RawAddr)
    ensures
        raw.netmask is None && raw.broadcast is None ==> address_of(raw).mask is None
            && address_of(raw).hop is None,
        raw.netmask is Some && raw.broadcast is Some ==> address_of(raw).mask == Some(
            zero_port(raw.netmask->Some_0),
        ) && address_of(raw).hop == Some(NextHop::Broadcast(zero_port(raw.broadcast->Some_0))),
{
}

} // verus!
