use interfaces::{IpAddr, NextHop, SocketAddr};

fn hop_text(ip: IpAddr, port: u16) -> String {
    NextHop::Broadcast(SocketAddr { ip, port }).as_string()
}

#[test]
fn broadcast_ipv4_is_written_in_dotted_decimal() {
    let ip = IpAddr::V4(u32::from_be_bytes([192, 168, 1, 255]));
    assert_eq!(hop_text(ip, 0), "Broadcast(192.168.1.255:0)");
    let d = NextHop::Destination(SocketAddr { ip: IpAddr::V4(0), port: 8080 });
    assert_eq!(d.as_string(), "Destination(0.0.0.0:8080)");
}

#[test]
fn ipv6_is_written_in_canonical_form() {
    let cases: [(u128, &str); 7] = [
        (0, "Broadcast([::]:0)"),
        (1, "Broadcast([::1]:0)"),
        (0xfe80_0000_0000_0000_0000_0000_0000_0001, "Broadcast([fe80::1]:0)"),
        (0x2001_0db8_0000_0000_0001_0000_0000_0001, "Broadcast([2001:db8::1:0:0:1]:0)"),
        (0x2001_0db8_0000_0001_0001_0001_0001_0001, "Broadcast([2001:db8:0:1:1:1:1:1]:0)"),
        (0x0000_0000_0000_0000_0000_ffff_c000_0280, "Broadcast([::ffff:192.0.2.128]:0)"),
        (0xffff_ffff_ffff_ffff_ffff_ffff_ffff_ffff, "Broadcast([ffff:ffff:ffff:ffff:ffff:ffff:ffff:ffff]:0)"),
    ];
    for (v, text) in cases {
        assert_eq!(hop_text(IpAddr::V6(v), 0), text);
    }
}

#[test]
fn longest_zero_run_is_shortened() {
    let cases: [(u128, &str); 6] = [
        (0x0001_0000_0000_0001_0000_0000_0000_0001, "1:0:0:1::1"),
        (0x0001_0000_0000_0001_0000_0000_0001_0001, "1::1:0:0:1:1"),
        (0x0001_0000_0001_0001_0001_0001_0001_0001, "1:0:1:1:1:1:1:1"),
        (0x0001_0000_0000_0000_0000_0000_0000_0000, "1::"),
        (0x0000_0000_0000_0000_0000_0000_c000_0280, "::c000:280"),
        (0x0000_0000_0000_0000_0000_fffe_c000_0280, "::fffe:c000:280"),
    ];
    for (v, text) in cases {
        assert_eq!(hop_text(IpAddr::V6(v), 0), format!("Broadcast([{}]:0)", text));
    }
}

#[test]
fn port_is_written_in_decimal() {
    assert_eq!(hop_text(IpAddr::V6(1), 65535), "Broadcast([::1]:65535)");
    assert_eq!(hop_text(IpAddr::V4(0x7f00_0001), 53), "Broadcast(127.0.0.1:53)");
}
