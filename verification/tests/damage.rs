//! Damage to frames and messages is noticed.

use dpdk_udp::addr::{Ipv4Addr, Ipv6Addr};
use dpdk_udp::icmp::{build_echo_request, icmp_checksum};
use dpdk_udp::icmpv6::{build_echo6_request, icmpv6_checksum};
use dpdk_udp::ipv6::{build_udp6_frame, verify_udp6_checksum};
use dpdk_udp::udp::{
    build_udp_frame, build_udp_frame_into_vlan, verify_ipv4_checksum, verify_udp_checksum,
};
use dpdk_udp::vlan::VlanConfig;

const MAC: [u8; 6] = [2, 0, 0, 0, 0, 1];

fn ip4() -> (Ipv4Addr, Ipv4Addr) {
    (Ipv4Addr::new(10, 0, 0, 1), Ipv4Addr::new(192, 168, 1, 1))
}

fn ip6() -> (Ipv6Addr, Ipv6Addr) {
    (Ipv6Addr::new(0xfe80, 0, 0, 0, 0, 0, 0, 1), Ipv6Addr::new(0xfe80, 0, 0, 0, 0, 0, 0, 2))
}

fn plain(payload: &[u8]) -> Vec<u8> {
    let (src, dst) = ip4();
    build_udp_frame(&MAC, &MAC, src, dst, 1000, 2000, payload, 64).unwrap()
}

fn tagged(payload: &[u8]) -> Vec<u8> {
    let (src, dst) = ip4();
    let vlan = VlanConfig::new(100);
    let mut out = Vec::new();
    build_udp_frame_into_vlan(&mut out, &MAC, &MAC, src, dst, 1000, 2000, payload, 64, &vlan)
        .unwrap();
    out
}

#[test]
fn damage_to_a_datagram_is_noticed() {
    for (frame, l3) in [(plain(b"damage"), 14), (tagged(b"damage"), 18)] {
        assert!(verify_udp_checksum(&frame));
        for i in (12..24).chain(26..frame.len() - l3) {
            for change in [1, 0x80, 0xFF] {
                let mut damaged = frame.clone();
                damaged[l3 + i] ^= change;
                assert!(!verify_udp_checksum(&damaged), "byte {} by {}", i, change);
            }
        }
        let mut blank = frame.clone();
        blank[l3 + 26] = 0;
        blank[l3 + 27] = 0;
        assert!(verify_udp_checksum(&blank));
    }
}

#[test]
fn damage_to_an_ipv4_header_is_noticed() {
    for (frame, l3) in [(plain(b"damage"), 14), (tagged(b"damage"), 18)] {
        assert!(verify_ipv4_checksum(&frame));
        for i in 0..20 {
            let mut damaged = frame.clone();
            damaged[l3 + i] ^= 0x10;
            assert!(!verify_ipv4_checksum(&damaged), "byte {}", i);
        }
    }
}

#[test]
fn a_damaged_length_may_pass() {
    let mut frame = plain(&[0xFF, 0xFB]);
    assert!(verify_udp_checksum(&frame));
    frame[39] = 8;
    assert!(verify_udp_checksum(&frame));
}

#[test]
fn damage_to_a_datagram_over_ipv6_is_noticed() {
    let (src, dst) = ip6();
    let frame = build_udp6_frame(&MAC, &MAC, src, dst, 1000, 2000, b"damage", 64).unwrap();
    assert!(verify_udp6_checksum(&frame));
    for i in (22..58).chain(60..frame.len()) {
        for change in [1, 0x80, 0xFF] {
            let mut damaged = frame.clone();
            damaged[i] ^= change;
            assert!(!verify_udp6_checksum(&damaged), "byte {} by {}", i, change);
        }
    }
    let mut blank = frame.clone();
    blank[60] = 0;
    blank[61] = 0;
    assert!(!verify_udp6_checksum(&blank));
    let mut with_tag = frame.clone();
    with_tag.splice(12..12, [0x81, 0, 0, 100]);
    assert!(verify_udp6_checksum(&with_tag));
    with_tag[70] ^= 1;
    assert!(!verify_udp6_checksum(&with_tag));
}

#[test]
fn damage_to_an_icmp_message_is_noticed() {
    let (src, dst) = ip4();
    let message = build_echo_request(MAC, MAC, src, dst, 1, 2, b"damage")[34..].to_vec();
    assert_eq!(icmp_checksum(&message), 0);
    for i in 0..message.len() {
        let mut damaged = message.clone();
        damaged[i] ^= 0xFF;
        assert_ne!(icmp_checksum(&damaged), 0, "byte {}", i);
    }
}

#[test]
fn damage_to_an_icmpv6_message_is_noticed() {
    let (src, dst) = ip6();
    let message = build_echo6_request(MAC, MAC, src, dst, 1, 2, b"damage")[54..].to_vec();
    let field = |m: &[u8]| u16::from_be_bytes([m[2], m[3]]);
    assert_eq!(icmpv6_checksum(&src, &dst, &message), field(&message));
    for i in 0..message.len() {
        let mut damaged = message.clone();
        damaged[i] ^= 0xFF;
        assert_ne!(icmpv6_checksum(&src, &dst, &damaged), field(&damaged), "byte {}", i);
    }
    let stranger = Ipv6Addr::new(0xfe80, 0, 0, 0, 0, 0, 0, 3);
    assert_ne!(icmpv6_checksum(&stranger, &dst, &message), field(&message));
    assert_ne!(icmpv6_checksum(&src, &stranger, &message), field(&message));
}
