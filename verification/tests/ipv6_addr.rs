//! IPv6 addresses.

use dpdk_udp::addr::Ipv6Addr;
use dpdk_udp::ipv6_addr::{
    ipv6_multicast_mac, is_link_local, parse_scoped_address, solicited_node_multicast_addr,
    solicited_node_multicast_mac,
};
use dpdk_udp::parse::parse_ipv6;

// --- is_link_local ---

#[test]
fn link_local_basic() {
    assert!(is_link_local(&parse_ipv6("fe80::1").unwrap()));
    assert!(is_link_local(&parse_ipv6("fe80::dead:beef:cafe:1234").unwrap()));
    assert!(is_link_local(&parse_ipv6("fe80::").unwrap()));
}

#[test]
fn link_local_full_range() {
    // fe80::/10 covers fe80:: through febf::ffff:...
    assert!(is_link_local(&parse_ipv6("fe80::1").unwrap()));
    assert!(is_link_local(&parse_ipv6("fe9f::1").unwrap()));
    assert!(is_link_local(&parse_ipv6("fea0::1").unwrap()));
    assert!(is_link_local(&parse_ipv6("febf::1").unwrap()));
}

#[test]
fn not_link_local() {
    // Global unicast
    assert!(!is_link_local(&parse_ipv6("2001:db8::1").unwrap()));
    // Loopback
    assert!(!is_link_local(&parse_ipv6("::1").unwrap()));
    // Unspecified
    assert!(!is_link_local(&parse_ipv6("::").unwrap()));
    // Multicast
    assert!(!is_link_local(&parse_ipv6("ff02::1").unwrap()));
    // Site-local (deprecated, fec0::/10)
    assert!(!is_link_local(&parse_ipv6("fec0::1").unwrap()));
    // ULA (fc00::/7)
    assert!(!is_link_local(&parse_ipv6("fd00::1").unwrap()));
}

#[test]
fn link_local_boundary() {
    // 0xFE80 = 1111 1110 1000 0000 — first valid
    assert!(is_link_local(&parse_ipv6("fe80::").unwrap()));
    // 0xFEBF = 1111 1110 1011 1111 — last valid
    assert!(is_link_local(&parse_ipv6("febf:ffff:ffff:ffff:ffff:ffff:ffff:ffff").unwrap()));
    // 0xFEC0 = 1111 1110 1100 0000 — first invalid (site-local)
    assert!(!is_link_local(&parse_ipv6("fec0::").unwrap()));
    // 0xFE7F = 1111 1110 0111 1111 — invalid (top 2 bits of byte 1 are 01)
    assert!(!is_link_local(&parse_ipv6("fe7f::").unwrap()));
}

// --- parse_scoped_address ---

#[test]
fn parse_with_interface_name() {
    let result = parse_scoped_address("fe80::1%eth0").unwrap();
    assert_eq!(result.addr, parse_ipv6("fe80::1").unwrap());
    assert_eq!(result.scope_id, Some("eth0".to_string()));
}

#[test]
fn parse_with_numeric_scope() {
    let result = parse_scoped_address("fe80::1%2").unwrap();
    assert_eq!(result.addr, parse_ipv6("fe80::1").unwrap());
    assert_eq!(result.scope_id, Some("2".to_string()));
}

#[test]
fn parse_without_scope() {
    let result = parse_scoped_address("2001:db8::1").unwrap();
    assert_eq!(result.addr, parse_ipv6("2001:db8::1").unwrap());
    assert_eq!(result.scope_id, None);
}

#[test]
fn parse_loopback() {
    let result = parse_scoped_address("::1").unwrap();
    assert_eq!(result.addr, Ipv6Addr::localhost());
    assert_eq!(result.scope_id, None);
}

#[test]
fn parse_empty_scope_is_invalid() {
    // "fe80::1%" has an empty scope — invalid
    assert!(parse_scoped_address("fe80::1%").is_none());
}

#[test]
fn parse_invalid_address() {
    assert!(parse_scoped_address("not-an-address").is_none());
    assert!(parse_scoped_address("not-an-address%eth0").is_none());
}

#[test]
fn parse_complex_interface_name() {
    // Interface names can contain dots, dashes, numbers
    let result = parse_scoped_address("fe80::1%ens192.100").unwrap();
    assert_eq!(result.scope_id, Some("ens192.100".to_string()));
}

// --- solicited_node_multicast_addr ---

#[test]
fn solicited_node_basic() {
    // fe80::1 → low 24 bits are 00:00:01
    let addr: Ipv6Addr = parse_ipv6("fe80::1").unwrap();
    let snm = solicited_node_multicast_addr(&addr);
    assert_eq!(snm, parse_ipv6("ff02::1:ff00:1").unwrap());
}

#[test]
fn solicited_node_full_low_bits() {
    // 2001:db8::dead:beef → low 24 bits are ad:beef
    let addr: Ipv6Addr = parse_ipv6("2001:db8::dead:beef").unwrap();
    let snm = solicited_node_multicast_addr(&addr);
    assert_eq!(snm, parse_ipv6("ff02::1:ffad:beef").unwrap());
}

#[test]
fn solicited_node_all_ones() {
    let addr: Ipv6Addr = parse_ipv6("ffff:ffff:ffff:ffff:ffff:ffff:ffff:ffff").unwrap();
    let snm = solicited_node_multicast_addr(&addr);
    assert_eq!(snm, parse_ipv6("ff02::1:ffff:ffff").unwrap());
}

#[test]
fn solicited_node_all_zeros() {
    let addr = Ipv6Addr::unspecified();
    let snm = solicited_node_multicast_addr(&addr);
    assert_eq!(snm, parse_ipv6("ff02::1:ff00:0").unwrap());
}

#[test]
fn solicited_node_rfc_example() {
    // RFC 4861 example: 4037:01:02:03:04:05:06 → ff02::1:ff05:0006
    // Using a more standard example: fe80::2aa:ff:fe28:9c5a
    // Low 24 bits: 28:9c5a → ff02::1:ff28:9c5a
    let addr: Ipv6Addr = parse_ipv6("fe80::2aa:ff:fe28:9c5a").unwrap();
    let snm = solicited_node_multicast_addr(&addr);
    assert_eq!(snm, parse_ipv6("ff02::1:ff28:9c5a").unwrap());
}

// --- solicited_node_multicast_mac ---

#[test]
fn solicited_node_mac_basic() {
    // fe80::1 → low 24 bits 00:00:01 → 33:33:ff:00:00:01
    let addr: Ipv6Addr = parse_ipv6("fe80::1").unwrap();
    let mac = solicited_node_multicast_mac(&addr);
    assert_eq!(mac, [0x33, 0x33, 0xFF, 0x00, 0x00, 0x01]);
}

#[test]
fn solicited_node_mac_complex() {
    // 2001:db8::dead:beef → low 24 bits ad:be:ef → 33:33:ff:ad:be:ef
    let addr: Ipv6Addr = parse_ipv6("2001:db8::dead:beef").unwrap();
    let mac = solicited_node_multicast_mac(&addr);
    assert_eq!(mac, [0x33, 0x33, 0xFF, 0xAD, 0xBE, 0xEF]);
}

#[test]
fn solicited_node_mac_all_ones() {
    let addr: Ipv6Addr = parse_ipv6("ffff:ffff:ffff:ffff:ffff:ffff:ffff:ffff").unwrap();
    let mac = solicited_node_multicast_mac(&addr);
    assert_eq!(mac, [0x33, 0x33, 0xFF, 0xFF, 0xFF, 0xFF]);
}

// --- ipv6_multicast_mac ---

#[test]
fn multicast_mac_all_nodes() {
    // ff02::1 (all-nodes) → low 32 bits = 00:00:00:01 → 33:33:00:00:00:01
    let addr: Ipv6Addr = parse_ipv6("ff02::1").unwrap();
    let mac = ipv6_multicast_mac(&addr);
    assert_eq!(mac, [0x33, 0x33, 0x00, 0x00, 0x00, 0x01]);
}

#[test]
fn multicast_mac_all_routers() {
    // ff02::2 (all-routers) → 33:33:00:00:00:02
    let addr: Ipv6Addr = parse_ipv6("ff02::2").unwrap();
    let mac = ipv6_multicast_mac(&addr);
    assert_eq!(mac, [0x33, 0x33, 0x00, 0x00, 0x00, 0x02]);
}

#[test]
fn multicast_mac_solicited_node() {
    // ff02::1:ff28:9c5a → low 32 bits = ff:28:9c:5a → 33:33:ff:28:9c:5a
    let addr: Ipv6Addr = parse_ipv6("ff02::1:ff28:9c5a").unwrap();
    let mac = ipv6_multicast_mac(&addr);
    assert_eq!(mac, [0x33, 0x33, 0xFF, 0x28, 0x9C, 0x5A]);
}

#[test]
fn multicast_mac_mld() {
    // ff02::16 (MLDv2) → 33:33:00:00:00:16
    let addr: Ipv6Addr = parse_ipv6("ff02::16").unwrap();
    let mac = ipv6_multicast_mac(&addr);
    assert_eq!(mac, [0x33, 0x33, 0x00, 0x00, 0x00, 0x16]);
}

// --- Speed ---

#[test]
fn perf_solicited_node_derivation() {
    let iterations = 100_000;
    let addr: Ipv6Addr = parse_ipv6("2001:db8::dead:beef:cafe:1234").unwrap();

    let start = std::time::Instant::now();
    for _ in 0..iterations {
        let _ = std::hint::black_box(solicited_node_multicast_addr(std::hint::black_box(&addr)));
        let _ = std::hint::black_box(solicited_node_multicast_mac(std::hint::black_box(&addr)));
    }
    let elapsed = start.elapsed();
    let ns_per_op = elapsed.as_nanos() / iterations as u128;
    println!("[PERF] solicited-node addr+mac: {} iterations in {:?} ({} ns/op)", iterations, elapsed, ns_per_op);
    assert!(ns_per_op < 1_000, "solicited-node derivation too slow: {} ns/op", ns_per_op);
}

#[test]
fn perf_scope_parsing() {
    let iterations = 100_000;
    let input = "fe80::dead:beef:cafe:1234%ens192";

    let start = std::time::Instant::now();
    for _ in 0..iterations {
        let _ = std::hint::black_box(parse_scoped_address(std::hint::black_box(input)));
    }
    let elapsed = start.elapsed();
    let ns_per_op = elapsed.as_nanos() / iterations as u128;
    println!("[PERF] scope parsing: {} iterations in {:?} ({} ns/op)", iterations, elapsed, ns_per_op);
    assert!(ns_per_op < 5_000, "scope parsing too slow: {} ns/op", ns_per_op);
}
