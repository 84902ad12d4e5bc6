use rudder::addr::IpAddress;
use rudder::addr::ip_to_string;
use rudder::addr::parse_ip_literal;
use rudder::addr::parse_ipv4;
use rudder::addr::parse_ipv6;

#[test]
fn parses_dotted_quad() {
    assert_eq!(
        parse_ip_literal("203.0.113.5"),
        Some(IpAddress::V4(203, 0, 113, 5))
    );
    assert_eq!(parse_ip_literal("0.0.0.0"), Some(IpAddress::V4(0, 0, 0, 0)));
    assert_eq!(
        parse_ip_literal("255.255.255.255"),
        Some(IpAddress::V4(255, 255, 255, 255))
    );
}

#[test]
fn rejects_bad_ipv4() {
    assert_eq!(parse_ipv4("256.0.0.1"), None);
    assert_eq!(parse_ipv4("01.2.3.4"), None);
    assert_eq!(parse_ipv4("1.2.3"), None);
    assert_eq!(parse_ipv4("1.2.3.4.5"), None);
    assert_eq!(parse_ipv4(""), None);
    assert_eq!(parse_ipv4("1.2.3."), None);
    assert_eq!(parse_ipv4("a.b.c.d"), None);
}

#[test]
fn parses_full_ipv6() {
    assert_eq!(
        parse_ip_literal("2001:db8:0:0:0:0:0:1"),
        Some(IpAddress::V6(0x2001, 0xdb8, 0, 0, 0, 0, 0, 1))
    );
}

#[test]
fn parses_ipv6_ellipsis() {
    assert_eq!(
        parse_ip_literal("::1"),
        Some(IpAddress::V6(0, 0, 0, 0, 0, 0, 0, 1))
    );
    assert_eq!(
        parse_ip_literal("::"),
        Some(IpAddress::V6(0, 0, 0, 0, 0, 0, 0, 0))
    );
    assert_eq!(
        parse_ip_literal("2001:db8::1"),
        Some(IpAddress::V6(0x2001, 0xdb8, 0, 0, 0, 0, 0, 1))
    );
    assert_eq!(
        parse_ip_literal("fe80::"),
        Some(IpAddress::V6(0xfe80, 0, 0, 0, 0, 0, 0, 0))
    );
}

#[test]
fn parses_ipv6_embedded_ipv4() {
    assert_eq!(
        parse_ip_literal("::ffff:192.0.2.128"),
        Some(IpAddress::V6(0, 0, 0, 0, 0, 0xffff, 0xc000, 0x0280))
    );
}

#[test]
fn rejects_bad_ipv6() {
    assert_eq!(parse_ipv6(":"), None);
    assert_eq!(parse_ipv6(":::"), None);
    assert_eq!(parse_ipv6("1::2::3"), None);
    assert_eq!(parse_ipv6("1:2:3:4:5:6:7"), None);
    assert_eq!(parse_ipv6("1:2:3:4:5:6:7:8:9"), None);
    assert_eq!(parse_ipv6(":1:2:3:4:5:6:7"), None);
    assert_eq!(parse_ipv6("1:2:3:4:5:6:7:"), None);
    assert_eq!(parse_ipv6("12345::"), None);
    assert_eq!(parse_ipv6("g::1"), None);
}

#[test]
fn renders_ipv4() {
    assert_eq!(ip_to_string(&IpAddress::V4(203, 0, 113, 5)), "203.0.113.5");
    assert_eq!(ip_to_string(&IpAddress::V4(0, 0, 0, 0)), "0.0.0.0");
}

#[test]
fn renders_ipv6_compressed() {
    assert_eq!(
        ip_to_string(&IpAddress::V6(0x2001, 0xdb8, 0, 0, 0, 0, 0, 1)),
        "2001:db8::1"
    );
    assert_eq!(ip_to_string(&IpAddress::V6(0, 0, 0, 0, 0, 0, 0, 1)), "::1");
    assert_eq!(ip_to_string(&IpAddress::V6(0, 0, 0, 0, 0, 0, 0, 0)), "::");
    assert_eq!(ip_to_string(&IpAddress::V6(0xfe80, 0, 0, 0, 0, 0, 0, 0)), "fe80::");
    // A single zero group is not compressed.
    assert_eq!(
        ip_to_string(&IpAddress::V6(1, 0, 2, 3, 4, 5, 6, 7)),
        "1:0:2:3:4:5:6:7"
    );
    // The leftmost longest run wins.
    assert_eq!(
        ip_to_string(&IpAddress::V6(1, 0, 0, 2, 0, 0, 0, 3)),
        "1:0:0:2::3"
    );
    assert_eq!(
        ip_to_string(&IpAddress::V6(0, 0, 1, 0, 0, 2, 3, 4)),
        "::1:0:0:2:3:4"
    );
}

#[test]
fn renders_ipv4_mapped_in_dotted_form() {
    assert_eq!(
        ip_to_string(&IpAddress::V6(0, 0, 0, 0, 0, 0xffff, 0xc000, 0x0280)),
        "::ffff:192.0.2.128"
    );
}

#[test]
fn ip_text_round_trips() {
    let addrs = vec![
        IpAddress::V4(198, 51, 100, 9),
        IpAddress::V6(0x2001, 0xdb8, 0xdead, 0xbeef, 0, 1, 2, 3),
        IpAddress::V6(0, 0, 0, 0, 0, 0, 0, 0),
    ];
    for a in addrs {
        let text = ip_to_string(&a);
        assert_eq!(parse_ip_literal(text.as_str()), Some(a));
    }
}
