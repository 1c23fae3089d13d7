use ruxy::ip::check_ipv4;
use ruxy::ip::check_ipv6;

fn v4(s: &str) -> bool {
    check_ipv4(&s.as_bytes().to_vec())
}

fn v6(s: &str) -> bool {
    check_ipv6(&s.as_bytes().to_vec())
}

#[test]
fn ipv4_accepts_dotted_quads() {
    assert!(v4("127.0.0.1"));
    assert!(v4("0.0.0.0"));
    assert!(v4("255.255.255.255"));
    assert!(v4("192.168.1.42"));
}

#[test]
fn ipv4_rejects_out_of_range_octets() {
    assert!(!v4("256.0.0.1"));
    assert!(!v4("1.2.3.999"));
}

#[test]
fn ipv4_rejects_leading_zeros() {
    assert!(!v4("01.2.3.4"));
    assert!(!v4("1.2.3.04"));
}

#[test]
fn ipv4_rejects_wrong_shapes() {
    assert!(!v4("1.2.3"));
    assert!(!v4("1.2.3.4.5"));
    assert!(!v4("1..2.3"));
    assert!(!v4("a.b.c.d"));
    assert!(!v4(""));
    assert!(!v4("1.2.3.4 "));
}

#[test]
fn ipv6_accepts_full_and_compressed_forms() {
    assert!(v6("::"));
    assert!(v6("::1"));
    assert!(v6("1:2:3:4:5:6:7:8"));
    assert!(v6("2001:db8::1"));
    assert!(v6("fe80::"));
    assert!(v6("1:2:3:4:5:6:7::"));
    assert!(v6("::ffff:192.0.2.1"));
    assert!(v6("1:2:3:4:5:6:192.0.2.1"));
}

#[test]
fn ipv6_rejects_bad_forms() {
    assert!(!v6(""));
    assert!(!v6(":"));
    assert!(!v6(":::"));
    assert!(!v6("1::2::3"));
    assert!(!v6("1:2:3:4:5:6:7:8:9"));
    assert!(!v6("::1:2:3:4:5:6:7:8"));
    assert!(!v6("12345::"));
    assert!(!v6("g::1"));
    assert!(!v6("1.2.3.4"));
    assert!(!v6("example.com"));
}
