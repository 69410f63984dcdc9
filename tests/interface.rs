use interfaces::{
    to_address, Address, InterfaceFlags, Interface, InterfacesError, IpAddr, Kind, NextHop,
    RawAddr, RawInterface, SocketAddr, IFF_UP,
};

fn v4(a: u8, b: u8, c: u8, d: u8) -> IpAddr {
    IpAddr::V4(u32::from_be_bytes([a, b, c, d]))
}

fn sock(ip: IpAddr) -> SocketAddr {
    SocketAddr { ip, port: 0 }
}

fn lo() -> RawInterface {
    RawInterface {
        name: "lo".to_string(),
        addrs: vec![
            RawAddr { ip: v4(127, 0, 0, 1), netmask: Some(v4(255, 0, 0, 0)), broadcast: None },
            RawAddr { ip: IpAddr::V6(1), netmask: None, broadcast: None },
        ],
    }
}

fn eth0() -> RawInterface {
    RawInterface {
        name: "eth0".to_string(),
        addrs: vec![RawAddr {
            ip: v4(192, 168, 1, 10),
            netmask: Some(v4(255, 255, 255, 0)),
            broadcast: Some(v4(192, 168, 1, 255)),
        }],
    }
}

#[test]
fn test_interface_is_comparable() {
    let ifs = Interface::get_all(Ok(vec![lo(), eth0()])).unwrap();
    assert!(ifs[0] == ifs[0]);
}

#[test]
fn interfaces_compare_by_name_only() {
    let ifs = Interface::get_all(Ok(vec![lo(), eth0()])).unwrap();
    let mut other = ifs[1].clone();
    other.addresses.clear();
    other.flags = InterfaceFlags { bits: 0 };
    assert!(other == ifs[1]);
    assert!(ifs[0] != ifs[1]);
    let mut renamed = ifs[1].clone();
    renamed.name = "eth1".to_string();
    assert!(renamed != ifs[1]);
}

#[test]
fn listing_keeps_order_names_and_addresses() {
    let ifs = Interface::get_all(Ok(vec![lo(), eth0()])).unwrap();
    assert_eq!(ifs.len(), 2);
    assert_eq!(ifs[0].name, "lo");
    assert_eq!(ifs[1].name, "eth0");
    assert_eq!(ifs[0].addresses.len(), 2);
    assert_eq!(ifs[0].addresses[0].kind, Kind::Ipv4);
    assert_eq!(ifs[0].addresses[1].kind, Kind::Ipv6);
    assert_eq!(ifs[0].addresses[1].addr, Some(sock(IpAddr::V6(1))));
    assert_eq!(ifs[0].flags, InterfaceFlags { bits: IFF_UP });
    assert_eq!(ifs[1].flags.bits, 1);
}

#[test]
fn no_interface_gives_an_empty_list() {
    let r = Interface::get_all(Ok(Vec::new()));
    assert!(matches!(r, Ok(ref v) if v.is_empty()));
}

#[test]
fn discovery_failure_is_an_error() {
    let r = Interface::get_all(Err("permission denied".to_string()));
    match r {
        Err(InterfacesError::DiscoveryFailed(m)) => assert_eq!(m, "permission denied"),
        Ok(_) => panic!("a failed discovery gave a list"),
    }
}

#[test]
fn record_without_mask_or_broadcast() {
    let a = to_address(&RawAddr { ip: v4(10, 0, 0, 1), netmask: None, broadcast: None });
    assert_eq!(
        a,
        Address { kind: Kind::Ipv4, addr: Some(sock(v4(10, 0, 0, 1))), mask: None, hop: None }
    );
}

#[test]
fn record_with_mask_and_broadcast() {
    let a = to_address(&eth0().addrs[0]);
    assert_eq!(a.kind, Kind::Ipv4);
    assert_eq!(a.addr, Some(sock(v4(192, 168, 1, 10))));
    assert_eq!(a.mask, Some(sock(v4(255, 255, 255, 0))));
    assert_eq!(a.hop, Some(NextHop::Broadcast(sock(v4(192, 168, 1, 255)))));
}

#[test]
fn ipv6_record_with_mask_only() {
    let ip = IpAddr::V6(0xfe80_0000_0000_0000_0000_0000_0000_0001);
    let mask = IpAddr::V6(0xffff_ffff_ffff_ffff_0000_0000_0000_0000);
    let a = to_address(&RawAddr { ip, netmask: Some(mask), broadcast: None });
    assert_eq!(a.kind, Kind::Ipv6);
    assert_eq!(a.addr, Some(sock(ip)));
    assert_eq!(a.mask, Some(sock(mask)));
    assert_eq!(a.hop, None);
}

#[test]
fn kinds_are_named() {
    assert_eq!(Kind::Ipv4.as_string(), "IPv4");
    assert_eq!(Kind::Ipv6.as_string(), "IPv6");
    assert_eq!(Kind::Link.as_string(), "Link");
    assert_eq!(Kind::Packet.as_string(), "Packet");
    assert_eq!(Kind::Unknown(17).as_string(), "Unknown(17)");
    assert_eq!(Kind::Unknown(0).as_string(), "Unknown(0)");
    assert_eq!(Kind::Unknown(-5).as_string(), "Unknown(-5)");
    assert_eq!(Kind::Unknown(i32::MIN).as_string(), "Unknown(-2147483648)");
    assert_eq!(Kind::Unknown(i32::MAX).as_string(), "Unknown(2147483647)");
}

#[test]
fn up_flag_is_the_platform_value() {
    assert_eq!(IFF_UP as i64, libc::IFF_UP as i64);
}
