use windows_wfp::condition::IpAddr;
use windows_wfp::{IpAddrMask, Protocol};
use windows_wfp::ip_format::{push_ipv4_text, push_ipv6_text};

fn ip(s: &str) -> IpAddr {
    IpAddr::parse(s).unwrap()
}

#[test]
fn test_ip_addr_mask_new() {
    let mask = IpAddrMask::new(ip("10.0.0.1"), 24);
    assert_eq!(mask.prefix_len, 24);
    assert!(!mask.is_ipv6());
}

#[test]
fn test_ip_addr_mask_from_cidr_v4() {
    let mask = IpAddrMask::from_cidr("192.168.1.0/24").unwrap();
    assert_eq!(mask.addr, ip("192.168.1.0"));
    assert_eq!(mask.prefix_len, 24);
}

#[test]
fn test_ip_addr_mask_from_cidr_v6() {
    let mask = IpAddrMask::from_cidr("fe80::1/64").unwrap();
    assert!(mask.is_ipv6());
    assert_eq!(mask.prefix_len, 64);
}

#[test]
fn test_ip_addr_mask_invalid_cidr() {
    assert!(IpAddrMask::from_cidr("not-an-ip/24").is_err());
    assert!(IpAddrMask::from_cidr("192.168.1.0").is_err());
    assert!(IpAddrMask::from_cidr("192.168.1.0/33").is_err());
    assert!(IpAddrMask::from_cidr("::1/129").is_err());
}

#[test]
fn test_protocol_values() {
    assert_eq!(Protocol::Hopopt.as_u8(), 0);
    assert_eq!(Protocol::Icmp.as_u8(), 1);
    assert_eq!(Protocol::Igmp.as_u8(), 2);
    assert_eq!(Protocol::Tcp.as_u8(), 6);
    assert_eq!(Protocol::Udp.as_u8(), 17);
    assert_eq!(Protocol::Gre.as_u8(), 47);
    assert_eq!(Protocol::Esp.as_u8(), 50);
    assert_eq!(Protocol::Ah.as_u8(), 51);
    assert_eq!(Protocol::Icmpv6.as_u8(), 58);
}

#[test]
fn test_ip_addr_mask_boundary_prefixes_v4() {
    let zero = IpAddrMask::from_cidr("0.0.0.0/0").unwrap();
    assert_eq!(zero.prefix_len, 0);

    let host = IpAddrMask::from_cidr("10.0.0.1/32").unwrap();
    assert_eq!(host.prefix_len, 32);
}

#[test]
fn test_ip_addr_mask_boundary_prefixes_v6() {
    let zero = IpAddrMask::from_cidr("::/0").unwrap();
    assert_eq!(zero.prefix_len, 0);
    assert!(zero.is_ipv6());

    let host = IpAddrMask::from_cidr("::1/128").unwrap();
    assert_eq!(host.prefix_len, 128);
}

#[test]
fn test_ip_addr_mask_equality() {
    let a = IpAddrMask::new(ip("10.0.0.1"), 24);
    let b = IpAddrMask::new(ip("10.0.0.1"), 24);
    assert_eq!(a, b);

    let c = IpAddrMask::new(ip("10.0.0.1"), 16);
    assert_ne!(a, c);
}

#[test]
fn test_ip_addr_mask_multiple_slashes() {
    assert!(IpAddrMask::from_cidr("10.0.0.1/24/8").is_err());
}

#[test]
fn test_ip_addr_mask_empty_string() {
    assert!(IpAddrMask::from_cidr("").is_err());
}

#[test]
fn test_ip_addr_mask_v4_is_not_ipv6() {
    let mask = IpAddrMask::new(ip("192.168.0.1"), 24);
    assert!(!mask.is_ipv6());
}

#[test]
fn test_ip_addr_mask_v6_is_ipv6() {
    let mask = IpAddrMask::new(ip("::1"), 128);
    assert!(mask.is_ipv6());
}

#[test]
fn test_protocol_copy() {
    let p = Protocol::Tcp;
    let p2 = p; // Copy
    assert_eq!(p, p2);
}

#[test]
fn test_protocol_display() {
    assert_eq!(Protocol::Tcp.to_string(), "TCP");
    assert_eq!(Protocol::Udp.to_string(), "UDP");
    assert_eq!(Protocol::Icmp.to_string(), "ICMP");
    assert_eq!(Protocol::Icmpv6.to_string(), "ICMPv6");
    assert_eq!(Protocol::Gre.to_string(), "GRE");
    assert_eq!(Protocol::Esp.to_string(), "ESP");
    assert_eq!(Protocol::Ah.to_string(), "AH");
    assert_eq!(Protocol::Igmp.to_string(), "IGMP");
    assert_eq!(Protocol::Hopopt.to_string(), "HOPOPT");
}

// Reading addresses.

#[test]
fn ipv4_values_have_first_field_most_significant() {
    assert_eq!(ip("192.168.1.0"), IpAddr::V4(0xC0A8_0100));
    assert_eq!(ip("0.0.0.0"), IpAddr::V4(0));
    assert_eq!(ip("255.255.255.255"), IpAddr::V4(0xFFFF_FFFF));
    assert_eq!(ip("1.2.3.4"), IpAddr::V4(0x0102_0304));
}

#[test]
fn ipv4_fields_are_checked() {
    assert_eq!(IpAddr::parse("256.0.0.1"), None);
    assert_eq!(IpAddr::parse("01.0.0.1"), None);
    assert_eq!(IpAddr::parse("1.2.3"), None);
    assert_eq!(IpAddr::parse("1.2.3.4.5"), None);
    assert_eq!(IpAddr::parse("1..3.4"), None);
    assert_eq!(IpAddr::parse("1.2.3.4 "), None);
    assert_eq!(IpAddr::parse("+1.2.3.4"), None);
    assert_eq!(IpAddr::parse("1000.2.3.4"), None);
    assert_eq!(IpAddr::parse(""), None);
}

#[test]
fn ipv6_forms_are_read() {
    assert_eq!(ip("::"), IpAddr::V6(0));
    assert_eq!(ip("::1"), IpAddr::V6(1));
    assert_eq!(ip("fe80::1"), IpAddr::V6(0xfe80_0000_0000_0000_0000_0000_0000_0001));
    assert_eq!(ip("FE80::1"), IpAddr::V6(0xfe80_0000_0000_0000_0000_0000_0000_0001));
    assert_eq!(ip("1::"), IpAddr::V6(0x0001_0000_0000_0000_0000_0000_0000_0000));
    assert_eq!(
        ip("1:2:3:4:5:6:7:8"),
        IpAddr::V6(0x0001_0002_0003_0004_0005_0006_0007_0008)
    );
    assert_eq!(
        ip("2001:db8::ff00:42:8329"),
        IpAddr::V6(0x2001_0db8_0000_0000_0000_ff00_0042_8329)
    );
    assert_eq!(
        ip("::ffff:192.168.1.1"),
        IpAddr::V6(0x0000_0000_0000_0000_0000_ffff_c0a8_0101)
    );
    assert_eq!(
        ip("1:2:3:4:5:6:1.2.3.4"),
        IpAddr::V6(0x0001_0002_0003_0004_0005_0006_0102_0304)
    );
    assert_eq!(
        ip("1:2:3:4:5:6:7::"),
        IpAddr::V6(0x0001_0002_0003_0004_0005_0006_0007_0000)
    );
    assert_eq!(ip("0000:0000::0000"), IpAddr::V6(0));
    assert_eq!(IpAddr::parse("0000:0000::00001"), None);
}

#[test]
fn ipv6_malformed_forms_are_refused() {
    for s in [
        ":::",
        "1::2::3",
        "1:2:3:4:5:6:7:8:9",
        "1:2:3:4:5:6:7",
        "1:2:3:4:5:6:7:8::",
        "1::2:3:4:5:6:7:8",
        "12345::",
        "1.2.3.4::",
        "::1.2.3.4:5",
        ":1:2:3:4:5:6:7",
        "1:2:3:4:5:6:7:1.2.3.4",
        "g::",
        "1:2:3:4:5:6:7:8:",
    ] {
        assert_eq!(IpAddr::parse(s), None, "{}", s);
    }
}

// Error messages of CIDR reading.

#[test]
fn cidr_errors_have_their_messages() {
    assert_eq!(
        IpAddrMask::from_cidr("192.168.1.0").unwrap_err(),
        "Invalid CIDR notation: 192.168.1.0"
    );
    assert_eq!(
        IpAddrMask::from_cidr("10.0.0.1/24/8").unwrap_err(),
        "Invalid CIDR notation: 10.0.0.1/24/8"
    );
    assert_eq!(
        IpAddrMask::from_cidr("not-an-ip/24").unwrap_err(),
        "Invalid IP address: invalid IP address syntax"
    );
    assert_eq!(
        IpAddrMask::from_cidr("10.0.0.1/").unwrap_err(),
        "Invalid prefix length: cannot parse integer from empty string"
    );
    assert_eq!(
        IpAddrMask::from_cidr("10.0.0.1/x").unwrap_err(),
        "Invalid prefix length: invalid digit found in string"
    );
    assert_eq!(
        IpAddrMask::from_cidr("10.0.0.1/-1").unwrap_err(),
        "Invalid prefix length: invalid digit found in string"
    );
    assert_eq!(
        IpAddrMask::from_cidr("10.0.0.1/256").unwrap_err(),
        "Invalid prefix length: number too large to fit in target type"
    );
    assert_eq!(
        IpAddrMask::from_cidr("10.0.0.1/999x").unwrap_err(),
        "Invalid prefix length: number too large to fit in target type"
    );
    assert_eq!(
        IpAddrMask::from_cidr("192.168.1.0/33").unwrap_err(),
        "Prefix length 33 exceeds maximum 32 for V4(192.168.1.0)"
    );
    assert_eq!(
        IpAddrMask::from_cidr("::1/129").unwrap_err(),
        "Prefix length 129 exceeds maximum 128 for V6(::1)"
    );
    assert_eq!(
        IpAddrMask::from_cidr("2001:0db8:0:0:1:0:0:1/200").unwrap_err(),
        "Prefix length 200 exceeds maximum 128 for V6(2001:db8::1:0:0:1)"
    );
    assert_eq!(
        IpAddrMask::from_cidr("::ffff:1.2.3.4/130").unwrap_err(),
        "Prefix length 130 exceeds maximum 128 for V6(::ffff:1.2.3.4)"
    );
    assert_eq!(
        IpAddrMask::from_cidr("1:0:0:2::/129").unwrap_err(),
        "Prefix length 129 exceeds maximum 128 for V6(1:0:0:2::)"
    );
    assert_eq!(
        IpAddrMask::from_cidr("1:0:2:3:4:5:6:7/129").unwrap_err(),
        "Prefix length 129 exceeds maximum 128 for V6(1:0:2:3:4:5:6:7)"
    );
}

#[test]
fn cidr_prefix_may_have_plus_and_leading_zeros() {
    let m = IpAddrMask::from_cidr("10.0.0.0/+08").unwrap();
    assert_eq!(m.prefix_len, 8);
    assert_eq!(m.addr, IpAddr::V4(0x0A00_0000));
}

#[test]
fn debug_text_of_addresses() {
    let mut s = String::new();
    IpAddr::V4(0x7F00_0001).push_debug_text(&mut s);
    assert_eq!(s, "V4(127.0.0.1)");
    let mut s = String::new();
    IpAddr::V6(0).push_debug_text(&mut s);
    assert_eq!(s, "V6(::)");
}

#[test]
fn cidr_text_reads_back_as_itself() {
    let cases = [
        IpAddrMask::new(IpAddr::V4(0xC0A8_014D), 24),
        IpAddrMask::new(IpAddr::V4(0), 0),
        IpAddrMask::new(IpAddr::V4(0xFFFF_FFFF), 32),
        IpAddrMask::new(IpAddr::V6(1), 128),
        IpAddrMask::new(IpAddr::V6(0x2001_0db8_0000_0000_0000_ff00_0042_8329), 64),
        IpAddrMask::new(IpAddr::V6(0x0000_0000_0000_0000_0000_ffff_c0a8_0101), 96),
        IpAddrMask::new(IpAddr::V6(0x0001_0002_0003_0004_0005_0006_0007_0008), 7),
        IpAddrMask::new(IpAddr::V6(0x0001_0000_0002_0000_0000_0003_0000_0000), 0),
    ];
    for m in cases {
        let mut text = String::new();
        match m.addr {
            IpAddr::V4(v) => push_ipv4_text(&mut text, v),
            IpAddr::V6(v) => push_ipv6_text(&mut text, v),
        }
        text.push('/');
        text.push_str(&m.prefix_len.to_string());
        assert_eq!(IpAddrMask::from_cidr(&text), Ok(m), "{}", text);
    }
}
