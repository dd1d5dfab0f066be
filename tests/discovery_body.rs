use hueclient::address::{parse_ip, parse_ipv4, parse_ipv6, IpAddress};
use hueclient::disco::{bridge_from_n_upnp_body, n_upnp_error, NUpnpError};
use hueclient::error::HueError;

#[test]
fn n_upnp_answer_gives_address_and_id() {
    let body = r#"[{"id":"001788fffe100491","internalipaddress":"192.168.2.23","port":443}]"#;
    let b = bridge_from_n_upnp_body(body).unwrap();
    assert_eq!(b.ip, IpAddress::V4([192, 168, 2, 23]));
    assert_eq!(b.id.as_deref(), Some("001788fffe100491"));
}

#[test]
fn n_upnp_takes_the_first_bridge() {
    let body = r#"[{"id":"a","internalipaddress":"10.0.0.1"},{"id":"b","internalipaddress":"10.0.0.2"}]"#;
    assert_eq!(bridge_from_n_upnp_body(body).unwrap().ip, IpAddress::V4([10, 0, 0, 1]));
}

#[test]
fn n_upnp_failures() {
    let disc = |m: &str| Err::<(), HueError>(HueError::DiscoveryError { msg: m.to_string() });
    let err = |body: &str| bridge_from_n_upnp_body(body).map(|_| ());
    assert_eq!(err("[]"), disc("expected non-empty array"));
    assert_eq!(err(r#"[{"id":"a"}]"#), disc("Expected internalipaddress"));
    assert_eq!(err(r#"[{"id":"a","internalipaddress":7}]"#), disc("expect a string in internalipaddress"));
    assert_eq!(err(r#"[{"id":"a","internalipaddress":"300.1.1.1"}]"#), disc("expect an IP address in internalipaddress"));
    assert_eq!(err(r#"[{"internalipaddress":"10.0.0.1"}]"#), disc("Expected id"));
    assert_eq!(err(r#"[{"id":5,"internalipaddress":"10.0.0.1"}]"#), disc("expect a string in id"));
    assert_eq!(err(r#"{"id":"a"}"#), disc("expected an array of objects"));
    assert_eq!(err(r#"[{"id":"a","internalipaddress":"10.0.0.1"}, 3]"#), disc("expected an array of objects"));
    assert!(matches!(bridge_from_n_upnp_body("<html>"), Err(HueError::DecodeError { .. })));
    assert!(matches!(n_upnp_error(NUpnpError::Empty), HueError::DiscoveryError { .. }));
}

#[test]
fn dotted_quads() {
    assert_eq!(parse_ipv4("192.168.1.149"), Some([192, 168, 1, 149]));
    assert_eq!(parse_ipv4("0.0.0.0"), Some([0, 0, 0, 0]));
    assert_eq!(parse_ipv4("255.255.255.255"), Some([255, 255, 255, 255]));
    assert_eq!(parse_ipv4("256.1.1.1"), None);
    assert_eq!(parse_ipv4("01.2.3.4"), None);
    assert_eq!(parse_ipv4("1.2.3"), None);
    assert_eq!(parse_ipv4("1.2.3.4.5"), None);
    assert_eq!(parse_ipv4("1.2.3.4."), None);
    assert_eq!(parse_ipv4("1..3.4"), None);
    assert_eq!(parse_ipv4(""), None);
    assert_eq!(parse_ipv4("1.2.3.x"), None);
    assert_eq!(parse_ipv4("1234.1.1.1"), None);
    assert_eq!(parse_ipv4("fe80::1"), None);
}

#[test]
fn n_upnp_accepts_ipv6() {
    let body = r#"[{"id":"001788fffe100491","internalipaddress":"fe80::17:88ff:fe10:491"}]"#;
    let b = bridge_from_n_upnp_body(body).unwrap();
    assert_eq!(b.ip, IpAddress::V6([0xfe80, 0, 0, 0, 0x17, 0x88ff, 0xfe10, 0x491]));
    let loopback = bridge_from_n_upnp_body(r#"[{"id":"a","internalipaddress":"::1"}]"#).unwrap();
    assert_eq!(loopback.ip, IpAddress::V6([0, 0, 0, 0, 0, 0, 0, 1]));
}

#[test]
fn ipv6_texts() {
    assert_eq!(parse_ipv6("::1"), Some([0, 0, 0, 0, 0, 0, 0, 1]));
    assert_eq!(parse_ipv6("::"), Some([0; 8]));
    assert_eq!(parse_ipv6("fe80::1"), Some([0xfe80, 0, 0, 0, 0, 0, 0, 1]));
    assert_eq!(parse_ipv6("2001:db8:0:0:0:0:2:1"), Some([0x2001, 0xdb8, 0, 0, 0, 0, 2, 1]));
    assert_eq!(parse_ipv6("2001:DB8::ff00:42:8329"), Some([0x2001, 0xdb8, 0, 0, 0, 0xff00, 0x42, 0x8329]));
    assert_eq!(parse_ipv6("::ffff:192.168.1.1"), Some([0, 0, 0, 0, 0, 0xffff, 0xc0a8, 0x0101]));
    assert_eq!(parse_ipv6("1:2:3:4:5:6:1.2.3.4"), Some([1, 2, 3, 4, 5, 6, 0x0102, 0x0304]));
    assert_eq!(parse_ipv6("1:2:3:4:5:6:7::"), Some([1, 2, 3, 4, 5, 6, 7, 0]));
    assert_eq!(parse_ipv6("::2:3:4:5:6:7:8"), Some([0, 2, 3, 4, 5, 6, 7, 8]));
    assert_eq!(parse_ipv6("0001:02:3::"), Some([1, 2, 3, 0, 0, 0, 0, 0]));
    for bad in [
        "", ":", ":::", "1::2::3", "12345::", "1:2:3:4:5:6:7:8:9", "1:2:3:4:5:6:7", "1.2.3.4::",
        "1:2:3:4:5:6:7:8::", "g::", "::1:", ":1::", "1:2:3:4:5:6:7:1.2.3.4", "::1.2.3.04",
        "1:2:3:4:5:6:7::8", "::1.2.3.4:5", "1::2:", "192.168.1.1",
    ] {
        assert_eq!(parse_ipv6(bad), None, "{}", bad);
    }
}

#[test]
fn either_family() {
    assert_eq!(parse_ip("192.168.1.1"), Some(IpAddress::V4([192, 168, 1, 1])));
    assert_eq!(parse_ip("::1"), Some(IpAddress::V6([0, 0, 0, 0, 0, 0, 0, 1])));
    assert_eq!(parse_ip("bridge.local"), None);
}
