use tundra::server::acl::{is_private_ip, is_upstream_allowed, IpAddress};

fn v4(a: u8, b: u8, c: u8, d: u8) -> Option<IpAddress> {
    Some(IpAddress::V4([a, b, c, d]))
}

fn v6(s: [u16; 8]) -> Option<IpAddress> {
    Some(IpAddress::V6(s))
}

#[test]
fn blocks_loopback() {
    assert!(!is_upstream_allowed(v4(127, 0, 0, 1), 80));
}

#[test]
fn blocks_private_10() {
    assert!(!is_upstream_allowed(v4(10, 0, 0, 1), 443));
}

#[test]
fn blocks_private_192_168() {
    assert!(!is_upstream_allowed(v4(192, 168, 1, 1), 80));
}

#[test]
fn blocks_link_local() {
    assert!(!is_upstream_allowed(v4(169, 254, 1, 1), 80));
}

#[test]
fn allows_public() {
    assert!(is_upstream_allowed(v4(1, 1, 1, 1), 443));
}

#[test]
fn allows_domain() {
    // "example.com" is not an address literal.
    assert!(is_upstream_allowed(None, 443));
}

#[test]
fn blocks_port_zero() {
    assert!(!is_upstream_allowed(v4(1, 1, 1, 1), 0));
}

#[test]
fn blocks_ipv6_loopback() {
    assert!(!is_upstream_allowed(v6([0, 0, 0, 0, 0, 0, 0, 1]), 80));
}

#[test]
fn blocks_ipv4_mapped_loopback() {
    assert!(!is_upstream_allowed(v6([0, 0, 0, 0, 0, 0xffff, 0x7f00, 0x0001]), 80));
}

#[test]
fn blocks_ipv4_mapped_private() {
    assert!(!is_upstream_allowed(v6([0, 0, 0, 0, 0, 0xffff, 0xc0a8, 0x0101]), 80));
}

#[test]
fn allows_ipv4_mapped_public() {
    assert!(is_upstream_allowed(v6([0, 0, 0, 0, 0, 0xffff, 0x0101, 0x0101]), 443));
}

#[test]
fn private_ranges_edges() {
    assert!(is_private_ip(&IpAddress::V4([172, 16, 0, 1])));
    assert!(is_private_ip(&IpAddress::V4([172, 31, 255, 255])));
    assert!(!is_private_ip(&IpAddress::V4([172, 32, 0, 1])));
    assert!(!is_private_ip(&IpAddress::V4([172, 15, 0, 1])));
    assert!(is_private_ip(&IpAddress::V4([0, 1, 2, 3])));
    assert!(!is_private_ip(&IpAddress::V4([8, 8, 8, 8])));
}

#[test]
fn ipv6_unique_and_link_local_are_private() {
    assert!(is_private_ip(&IpAddress::V6([0xfc00, 0, 0, 0, 0, 0, 0, 1])));
    assert!(is_private_ip(&IpAddress::V6([0xfd12, 0, 0, 0, 0, 0, 0, 1])));
    assert!(is_private_ip(&IpAddress::V6([0xfe80, 0, 0, 0, 0, 0, 0, 1])));
    assert!(!is_private_ip(&IpAddress::V6([0x2001, 0xdb8, 0, 0, 0, 0, 0, 1])));
}

#[test]
fn blocks_whole_ipv6_link_local_range() {
    assert!(!is_upstream_allowed(v6([0xfe80, 0, 0, 0, 0, 0, 0, 1]), 80));
    assert!(!is_upstream_allowed(v6([0xfe90, 0, 0, 0, 0, 0, 0, 1]), 80));
    assert!(!is_upstream_allowed(v6([0xfebf, 0, 0, 0, 0, 0, 0, 1]), 80));
    assert!(is_upstream_allowed(v6([0xfec0, 0, 0, 0, 0, 0, 0, 1]), 80));
    assert!(is_upstream_allowed(v6([0xfe7f, 0, 0, 0, 0, 0, 0, 1]), 80));
}
