use simple_hyper_client::connector::http::normalize_host;
use simple_hyper_client::ipv6::is_ipv6_addr;

fn accepts(s: &str) -> bool {
    let chars: Vec<char> = s.chars().collect();
    is_ipv6_addr(&chars)
}

#[test]
fn ipv6_full_form() {
    assert!(accepts("1:2:3:4:5:6:7:8"));
    assert!(accepts("fe80:0:0:0:0:0:0:1"));
    assert!(accepts("ABCD:ef01:2345:6789:abcd:EF01:2345:6789"));
    assert!(!accepts("1:2:3:4:5:6:7"));
    assert!(!accepts("1:2:3:4:5:6:7:8:9"));
    assert!(!accepts("1:2:3:4:5:6:7:12345"));
}

#[test]
fn ipv6_compressed_form() {
    assert!(accepts("::"));
    assert!(accepts("::1"));
    assert!(accepts("1::"));
    assert!(accepts("1::2"));
    assert!(accepts("1:2:3:4:5:6:7::"));
    assert!(accepts("::1:2:3:4:5:6:7"));
    assert!(!accepts("1:2:3:4:5:6:7:8::"));
    assert!(!accepts("::1:2:3:4:5:6:7:8"));
    assert!(!accepts("1::2::3"));
    assert!(!accepts(":::"));
    assert!(!accepts(":1::2"));
    assert!(!accepts("1::2:"));
}

#[test]
fn ipv6_with_embedded_ipv4() {
    assert!(accepts("::1.2.3.4"));
    assert!(accepts("::ffff:192.0.2.128"));
    assert!(accepts("1:2:3:4:5:6:1.2.3.4"));
    assert!(!accepts("1:2:3:4:5:6:7:1.2.3.4"));
    assert!(!accepts("::256.1.1.1"));
    assert!(!accepts("::01.2.3.4"));
    assert!(!accepts("1.2.3.4"));
    assert!(!accepts("::1.2.3"));
    assert!(!accepts("::1.2.3.4.5"));
}

#[test]
fn ipv6_rejects_plain_names() {
    assert!(!accepts("test.com"));
    assert!(!accepts(""));
    assert!(!accepts("localhost"));
    assert!(!accepts("1:2:g::"));
}

#[test]
fn normalize_host_cases() {
    assert_eq!(normalize_host("example.com"), "example.com");
    assert_eq!(normalize_host("[::1]"), "::1");
    assert_eq!(normalize_host("[::ffff:1.2.3.4]"), "::ffff:1.2.3.4");
    assert_eq!(normalize_host("[test.com]"), "[test.com]");
    assert_eq!(normalize_host("[]"), "[]");
    assert_eq!(normalize_host(""), "");
    assert_eq!(normalize_host("[münchen]"), "[münchen]");
}
