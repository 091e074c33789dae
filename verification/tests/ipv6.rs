//! UDP over IPv6.

use dpdk_udp::addr::{read_ipv6, Ipv6Addr};
use dpdk_udp::constants::{
    ETH_HEADER_LEN, ETH_TYPE_VLAN, IP_PROTO_UDP, UDP_HEADER_LEN, VLAN_TAG_LEN,
};
use dpdk_udp::error::UdpError;
use dpdk_udp::ipv6::{
    ETH_TYPE_IPV6, IPV6_HEADER_LEN, IP_PROTO_DSTOPTS, IP_PROTO_FRAGMENT, IP_PROTO_HOPOPT,
    IP_PROTO_ICMPV6, IP_PROTO_NONE, IP_PROTO_ROUTING, MAX_UDP_PAYLOAD_V6, TOTAL_HEADER_LEN_V6,
    TOTAL_HEADER_LEN_V6_VLAN, build_udp6_frame, build_udp6_frame_into, parse_udp6_packet,
    parse_udp6_packet_ref, udp6_checksum, udp6_pseudo_header_checksum, verify_udp6_checksum,
    walk_extension_headers,
};
use dpdk_udp::parse::{parse_ipv4, parse_ipv6};
use dpdk_udp::udp::ipv4_checksum;

const SRC_MAC: [u8; 6] = [0x02, 0x00, 0x00, 0x00, 0x00, 0x01];
const DST_MAC: [u8; 6] = [0x02, 0x00, 0x00, 0x00, 0x00, 0x02];

fn src_ip() -> Ipv6Addr {
    parse_ipv6("2001:db8::1").unwrap()
}
fn dst_ip() -> Ipv6Addr {
    parse_ipv6("2001:db8::2").unwrap()
}

// --- Constants ---

#[test]
fn ipv6_constants_are_correct() {
    assert_eq!(IPV6_HEADER_LEN, 40);
    assert_eq!(ETH_TYPE_IPV6, 0x86DD);
    assert_eq!(TOTAL_HEADER_LEN_V6, 14 + 40 + 8); // 62
    assert_eq!(TOTAL_HEADER_LEN_V6_VLAN, 14 + 4 + 40 + 8); // 66
    assert_eq!(MAX_UDP_PAYLOAD_V6, 1500 - 40 - 8); // 1452
}

// --- Extension header walking ---

#[test]
fn walk_no_extension_headers() {
    // Minimal IPv6 header: next_header = UDP (17), no extensions
    let mut data = vec![0u8; IPV6_HEADER_LEN + 8]; // + UDP header
    data[0] = 0x60; // version 6
    data[6] = IP_PROTO_UDP; // next header
    let nh = walk_extension_headers(&data).unwrap();
    assert_eq!(nh.protocol, IP_PROTO_UDP);
    assert_eq!(nh.payload_offset, IPV6_HEADER_LEN);
}

#[test]
fn walk_hop_by_hop_then_udp() {
    // IPv6 fixed header → Hop-by-Hop (8 bytes) → UDP
    let mut data = vec![0u8; IPV6_HEADER_LEN + 8 + 8];
    data[0] = 0x60;
    data[6] = IP_PROTO_HOPOPT; // next header = Hop-by-Hop
    // Hop-by-Hop ext header at offset 40
    data[40] = IP_PROTO_UDP; // next header
    data[41] = 0; // length = (0+1)*8 = 8 bytes
    let nh = walk_extension_headers(&data).unwrap();
    assert_eq!(nh.protocol, IP_PROTO_UDP);
    assert_eq!(nh.payload_offset, IPV6_HEADER_LEN + 8);
}

#[test]
fn walk_routing_then_dstopts_then_udp() {
    // IPv6 → Routing (16 bytes) → Dest Options (8 bytes) → UDP
    let mut data = vec![0u8; IPV6_HEADER_LEN + 16 + 8 + 8];
    data[0] = 0x60;
    data[6] = IP_PROTO_ROUTING;
    // Routing header at offset 40: 16 bytes
    data[40] = IP_PROTO_DSTOPTS; // next = Dest Options
    data[41] = 1; // length = (1+1)*8 = 16 bytes
    // Dest Options at offset 56: 8 bytes
    data[56] = IP_PROTO_UDP;
    data[57] = 0; // length = (0+1)*8 = 8 bytes
    let nh = walk_extension_headers(&data).unwrap();
    assert_eq!(nh.protocol, IP_PROTO_UDP);
    assert_eq!(nh.payload_offset, IPV6_HEADER_LEN + 16 + 8);
}

#[test]
fn walk_fragment_header() {
    // IPv6 → Fragment (always 8 bytes) → UDP
    let mut data = vec![0u8; IPV6_HEADER_LEN + 8 + 8];
    data[0] = 0x60;
    data[6] = IP_PROTO_FRAGMENT;
    data[40] = IP_PROTO_UDP; // next header in fragment header
    let nh = walk_extension_headers(&data).unwrap();
    assert_eq!(nh.protocol, IP_PROTO_UDP);
    assert_eq!(nh.payload_offset, IPV6_HEADER_LEN + 8);
}

#[test]
fn walk_truncated_returns_none() {
    // Too short for even the fixed header
    let data = vec![0u8; 20];
    assert!(walk_extension_headers(&data).is_none());
}

#[test]
fn walk_truncated_extension_returns_none() {
    // Fixed header says Hop-by-Hop, but data is too short
    let mut data = vec![0u8; IPV6_HEADER_LEN + 1]; // only 1 byte of ext
    data[0] = 0x60;
    data[6] = IP_PROTO_HOPOPT;
    assert!(walk_extension_headers(&data).is_none());
}

#[test]
fn walk_no_next_header() {
    let mut data = vec![0u8; IPV6_HEADER_LEN];
    data[0] = 0x60;
    data[6] = IP_PROTO_NONE; // No Next Header
    let nh = walk_extension_headers(&data).unwrap();
    assert_eq!(nh.protocol, IP_PROTO_NONE);
    assert_eq!(nh.payload_offset, IPV6_HEADER_LEN);
}

#[test]
fn walk_icmpv6() {
    let mut data = vec![0u8; IPV6_HEADER_LEN + 8];
    data[0] = 0x60;
    data[6] = IP_PROTO_ICMPV6;
    let nh = walk_extension_headers(&data).unwrap();
    assert_eq!(nh.protocol, IP_PROTO_ICMPV6);
    assert_eq!(nh.payload_offset, IPV6_HEADER_LEN);
}

// --- Build + Parse roundtrip ---

#[test]
fn build_and_parse_roundtrip() {
    let payload = b"hello ipv6";
    let frame = build_udp6_frame(
        &SRC_MAC, &DST_MAC, src_ip(), dst_ip(), 12345, 9000, payload, 64,
    )
    .unwrap();

    assert_eq!(frame.len(), TOTAL_HEADER_LEN_V6 + payload.len());

    let parsed = parse_udp6_packet(&frame).unwrap();
    assert_eq!(parsed.src_mac, SRC_MAC);
    assert_eq!(parsed.dst_mac, DST_MAC);
    assert_eq!(parsed.src_ip, src_ip());
    assert_eq!(parsed.dst_ip, dst_ip());
    assert_eq!(parsed.src_port, 12345);
    assert_eq!(parsed.dst_port, 9000);
    assert_eq!(parsed.payload, payload);
    assert_eq!(parsed.vlan_id, None);
}

#[test]
fn build_and_parse_ref_roundtrip() {
    let payload = b"zero-copy ipv6";
    let frame = build_udp6_frame(
        &SRC_MAC, &DST_MAC, src_ip(), dst_ip(), 5000, 6000, payload, 128,
    )
    .unwrap();

    let parsed = parse_udp6_packet_ref(&frame).unwrap();
    assert_eq!(parsed.src_mac, SRC_MAC);
    assert_eq!(parsed.src_ip, src_ip());
    assert_eq!(parsed.dst_ip, dst_ip());
    assert_eq!(parsed.src_port, 5000);
    assert_eq!(parsed.dst_port, 6000);
    assert_eq!(parsed.payload, payload);
    assert_eq!(parsed.vlan_id, None);
}

#[test]
fn build_into_and_parse_roundtrip() {
    let payload = b"frame_into test";
    let mut buf = Vec::new();
    let len = build_udp6_frame_into(
        &mut buf, &SRC_MAC, &DST_MAC, src_ip(), dst_ip(), 1111, 2222, payload, 255,
    )
    .unwrap();

    assert_eq!(len, TOTAL_HEADER_LEN_V6 + payload.len());
    assert_eq!(buf.len(), len);

    let parsed = parse_udp6_packet(&buf).unwrap();
    assert_eq!(parsed.src_port, 1111);
    assert_eq!(parsed.dst_port, 2222);
    assert_eq!(parsed.payload, payload);
}

#[test]
fn build_into_reuses_buffer() {
    let mut buf = Vec::with_capacity(1500);
    let ptr1 = buf.as_ptr();
    build_udp6_frame_into(
        &mut buf, &SRC_MAC, &DST_MAC, src_ip(), dst_ip(), 1, 2, b"a", 64,
    )
    .unwrap();
    let ptr2 = buf.as_ptr();
    // Same allocation reused (no realloc for small payloads)
    assert_eq!(ptr1, ptr2);
}

#[test]
fn empty_payload() {
    let frame = build_udp6_frame(
        &SRC_MAC, &DST_MAC, src_ip(), dst_ip(), 100, 200, b"", 64,
    )
    .unwrap();
    assert_eq!(frame.len(), TOTAL_HEADER_LEN_V6);

    let parsed = parse_udp6_packet(&frame).unwrap();
    assert!(parsed.payload.is_empty());
}

#[test]
fn max_standard_payload() {
    let payload = vec![0xAB; MAX_UDP_PAYLOAD_V6];
    let frame = build_udp6_frame(
        &SRC_MAC, &DST_MAC, src_ip(), dst_ip(), 100, 200, &payload, 64,
    )
    .unwrap();
    let parsed = parse_udp6_packet(&frame).unwrap();
    assert_eq!(parsed.payload.len(), MAX_UDP_PAYLOAD_V6);
}

#[test]
fn oversized_payload_rejected() {
    let max = ETH_HEADER_LEN + 9001 - TOTAL_HEADER_LEN_V6;
    let payload = vec![0u8; max + 1];
    let err = build_udp6_frame(
        &SRC_MAC, &DST_MAC, src_ip(), dst_ip(), 1, 2, &payload, 64,
    )
    .unwrap_err();
    match err {
        UdpError::PayloadTooLarge { .. } => {}
        other => panic!("expected PayloadTooLarge, got {:?}", other),
    }
}

// --- Checksum ---

#[test]
fn udp6_checksum_is_valid_on_built_frame() {
    let frame = build_udp6_frame(
        &SRC_MAC, &DST_MAC, src_ip(), dst_ip(), 4000, 5000, b"checksum test", 64,
    )
    .unwrap();
    assert!(verify_udp6_checksum(&frame));
}

#[test]
fn udp6_checksum_detects_corruption() {
    let mut frame = build_udp6_frame(
        &SRC_MAC, &DST_MAC, src_ip(), dst_ip(), 4000, 5000, b"corrupt me", 64,
    )
    .unwrap();
    // Flip a payload byte
    let last = frame.len() - 1;
    frame[last] ^= 0xFF;
    assert!(!verify_udp6_checksum(&frame));
}

#[test]
fn udp6_checksum_zero_is_invalid() {
    // Build a valid frame, then zero out the checksum field
    let mut frame = build_udp6_frame(
        &SRC_MAC, &DST_MAC, src_ip(), dst_ip(), 1, 2, b"x", 64,
    )
    .unwrap();
    let udp_off = ETH_HEADER_LEN + IPV6_HEADER_LEN;
    frame[udp_off + 6] = 0;
    frame[udp_off + 7] = 0;
    // IPv6 mandates non-zero UDP checksum
    assert!(!verify_udp6_checksum(&frame));
}

#[test]
fn udp6_pseudo_header_checksum_basic() {
    let phc = udp6_pseudo_header_checksum(&src_ip(), &dst_ip(), 16);
    // Just verify it's non-zero and deterministic
    assert_ne!(phc, 0);
    assert_eq!(phc, udp6_pseudo_header_checksum(&src_ip(), &dst_ip(), 16));
}

// --- Wire format ---

#[test]
fn wire_format_ethertype() {
    let frame = build_udp6_frame(
        &SRC_MAC, &DST_MAC, src_ip(), dst_ip(), 1, 2, b"", 64,
    )
    .unwrap();
    let ethertype = u16::from_be_bytes([frame[12], frame[13]]);
    assert_eq!(ethertype, ETH_TYPE_IPV6);
}

#[test]
fn ipv6_wire_format_ipv6_version() {
    let frame = build_udp6_frame(
        &SRC_MAC, &DST_MAC, src_ip(), dst_ip(), 1, 2, b"", 64,
    )
    .unwrap();
    let version = frame[ETH_HEADER_LEN] >> 4;
    assert_eq!(version, 6);
}

#[test]
fn ipv6_wire_format_hop_limit() {
    let frame = build_udp6_frame(
        &SRC_MAC, &DST_MAC, src_ip(), dst_ip(), 1, 2, b"", 42,
    )
    .unwrap();
    assert_eq!(frame[ETH_HEADER_LEN + 7], 42);
}

#[test]
fn ipv6_wire_format_next_header_is_udp() {
    let frame = build_udp6_frame(
        &SRC_MAC, &DST_MAC, src_ip(), dst_ip(), 1, 2, b"", 64,
    )
    .unwrap();
    assert_eq!(frame[ETH_HEADER_LEN + 6], IP_PROTO_UDP);
}

#[test]
fn wire_format_payload_length() {
    let payload = b"twelve bytes";
    let frame = build_udp6_frame(
        &SRC_MAC, &DST_MAC, src_ip(), dst_ip(), 1, 2, payload, 64,
    )
    .unwrap();
    let ip = ETH_HEADER_LEN;
    let payload_len = u16::from_be_bytes([frame[ip + 4], frame[ip + 5]]);
    assert_eq!(payload_len as usize, UDP_HEADER_LEN + payload.len());
}

#[test]
fn wire_format_addresses() {
    let frame = build_udp6_frame(
        &SRC_MAC, &DST_MAC, src_ip(), dst_ip(), 1, 2, b"", 64,
    )
    .unwrap();
    let ip = ETH_HEADER_LEN;
    let src: [u8; 16] = frame[ip + 8..ip + 24].try_into().unwrap();
    let dst: [u8; 16] = frame[ip + 24..ip + 40].try_into().unwrap();
    assert_eq!(read_ipv6(&src, 0), src_ip());
    assert_eq!(read_ipv6(&dst, 0), dst_ip());
}

// --- Parse edge cases ---

#[test]
fn ipv6_parse_rejects_ipv4_frame() {
    // Build an IPv4 frame and try to parse as IPv6
    let frame = dpdk_udp::build_udp_frame(
        &SRC_MAC, &DST_MAC,
        parse_ipv4("10.0.0.1").unwrap(),
        parse_ipv4("10.0.0.2").unwrap(),
        1000, 2000, b"ipv4", 64,
    )
    .unwrap();
    assert!(parse_udp6_packet(&frame).is_none());
    assert!(parse_udp6_packet_ref(&frame).is_none());
}

#[test]
fn ipv6_parse_rejects_truncated_frame() {
    let frame = build_udp6_frame(
        &SRC_MAC, &DST_MAC, src_ip(), dst_ip(), 1, 2, b"data", 64,
    )
    .unwrap();
    // Truncate to just the Ethernet + partial IPv6 header
    assert!(parse_udp6_packet(&frame[..30]).is_none());
}

#[test]
fn parse_rejects_wrong_version() {
    let mut frame = build_udp6_frame(
        &SRC_MAC, &DST_MAC, src_ip(), dst_ip(), 1, 2, b"x", 64,
    )
    .unwrap();
    // Change version nibble from 6 to 4
    frame[ETH_HEADER_LEN] = (frame[ETH_HEADER_LEN] & 0x0F) | 0x40;
    assert!(parse_udp6_packet(&frame).is_none());
}

#[test]
fn parse_rejects_non_udp_protocol() {
    let mut frame = build_udp6_frame(
        &SRC_MAC, &DST_MAC, src_ip(), dst_ip(), 1, 2, b"x", 64,
    )
    .unwrap();
    // Change next header from UDP (17) to ICMPv6 (58)
    frame[ETH_HEADER_LEN + 6] = IP_PROTO_ICMPV6;
    assert!(parse_udp6_packet(&frame).is_none());
}

// --- VLAN ---

#[test]
fn parse_vlan_tagged_frame() {
    // Manually construct a VLAN-tagged IPv6/UDP frame
    let payload = b"vlan6";
    let inner_len = IPV6_HEADER_LEN + UDP_HEADER_LEN + payload.len();
    let total = ETH_HEADER_LEN + VLAN_TAG_LEN + inner_len;
    let mut frame = vec![0u8; total];

    // Ethernet
    frame[0..6].copy_from_slice(&DST_MAC);
    frame[6..12].copy_from_slice(&SRC_MAC);
    frame[12..14].copy_from_slice(&ETH_TYPE_VLAN.to_be_bytes());
    // VLAN TCI: VID=100
    frame[14..16].copy_from_slice(&100u16.to_be_bytes());
    frame[16..18].copy_from_slice(&ETH_TYPE_IPV6.to_be_bytes());

    let l3 = ETH_HEADER_LEN + VLAN_TAG_LEN;
    // IPv6 header
    frame[l3] = 0x60;
    let udp_len = (UDP_HEADER_LEN + payload.len()) as u16;
    frame[l3 + 4..l3 + 6].copy_from_slice(&udp_len.to_be_bytes());
    frame[l3 + 6] = IP_PROTO_UDP;
    frame[l3 + 7] = 64;
    frame[l3 + 8..l3 + 24].copy_from_slice(&src_ip().octets());
    frame[l3 + 24..l3 + 40].copy_from_slice(&dst_ip().octets());

    // UDP header
    let udp_off = l3 + IPV6_HEADER_LEN;
    frame[udp_off..udp_off + 2].copy_from_slice(&3000u16.to_be_bytes());
    frame[udp_off + 2..udp_off + 4].copy_from_slice(&4000u16.to_be_bytes());
    frame[udp_off + 4..udp_off + 6].copy_from_slice(&udp_len.to_be_bytes());
    // Payload
    frame[udp_off + UDP_HEADER_LEN..].copy_from_slice(payload);
    // Checksum
    let cksum = udp6_checksum(
        &src_ip(), &dst_ip(),
        &frame[udp_off..udp_off + UDP_HEADER_LEN],
        payload,
    );
    frame[udp_off + 6..udp_off + 8].copy_from_slice(&cksum.to_be_bytes());

    let parsed = parse_udp6_packet(&frame).unwrap();
    assert_eq!(parsed.vlan_id, Some(100));
    assert_eq!(parsed.src_port, 3000);
    assert_eq!(parsed.dst_port, 4000);
    assert_eq!(parsed.payload, payload);
}

// --- Loopback and special addresses ---

#[test]
fn loopback_address() {
    let lo = Ipv6Addr::localhost();
    let frame = build_udp6_frame(
        &SRC_MAC, &DST_MAC, lo, lo, 1, 2, b"lo", 64,
    )
    .unwrap();
    let parsed = parse_udp6_packet(&frame).unwrap();
    assert_eq!(parsed.src_ip, lo);
    assert_eq!(parsed.dst_ip, lo);
}

#[test]
fn link_local_address() {
    let ll: Ipv6Addr = parse_ipv6("fe80::1").unwrap();
    let frame = build_udp6_frame(
        &SRC_MAC, &DST_MAC, ll, ll, 1, 2, b"ll", 64,
    )
    .unwrap();
    let parsed = parse_udp6_packet(&frame).unwrap();
    assert_eq!(parsed.src_ip, ll);
}

// --- UDP6 checksum: VLAN-tagged frames ---

#[test]
fn udp6_checksum_valid_on_vlan_tagged_frame() {
    // Manually construct a VLAN-tagged IPv6/UDP frame with valid checksum
    let payload = b"vlan-cksum";
    let inner_len = IPV6_HEADER_LEN + UDP_HEADER_LEN + payload.len();
    let total = ETH_HEADER_LEN + VLAN_TAG_LEN + inner_len;
    let mut frame = vec![0u8; total];

    frame[0..6].copy_from_slice(&DST_MAC);
    frame[6..12].copy_from_slice(&SRC_MAC);
    frame[12..14].copy_from_slice(&ETH_TYPE_VLAN.to_be_bytes());
    frame[14..16].copy_from_slice(&200u16.to_be_bytes());
    frame[16..18].copy_from_slice(&ETH_TYPE_IPV6.to_be_bytes());

    let l3 = ETH_HEADER_LEN + VLAN_TAG_LEN;
    frame[l3] = 0x60;
    let udp_len = (UDP_HEADER_LEN + payload.len()) as u16;
    frame[l3 + 4..l3 + 6].copy_from_slice(&udp_len.to_be_bytes());
    frame[l3 + 6] = IP_PROTO_UDP;
    frame[l3 + 7] = 64;
    frame[l3 + 8..l3 + 24].copy_from_slice(&src_ip().octets());
    frame[l3 + 24..l3 + 40].copy_from_slice(&dst_ip().octets());

    let udp_off = l3 + IPV6_HEADER_LEN;
    frame[udp_off..udp_off + 2].copy_from_slice(&5000u16.to_be_bytes());
    frame[udp_off + 2..udp_off + 4].copy_from_slice(&6000u16.to_be_bytes());
    frame[udp_off + 4..udp_off + 6].copy_from_slice(&udp_len.to_be_bytes());
    frame[udp_off + UDP_HEADER_LEN..].copy_from_slice(payload);

    let cksum = udp6_checksum(
        &src_ip(), &dst_ip(),
        &frame[udp_off..udp_off + UDP_HEADER_LEN],
        payload,
    );
    frame[udp_off + 6..udp_off + 8].copy_from_slice(&cksum.to_be_bytes());

    assert!(verify_udp6_checksum(&frame));
}

#[test]
fn udp6_checksum_detects_corruption_in_vlan_frame() {
    let payload = b"vlan-corrupt";
    let inner_len = IPV6_HEADER_LEN + UDP_HEADER_LEN + payload.len();
    let total = ETH_HEADER_LEN + VLAN_TAG_LEN + inner_len;
    let mut frame = vec![0u8; total];

    frame[0..6].copy_from_slice(&DST_MAC);
    frame[6..12].copy_from_slice(&SRC_MAC);
    frame[12..14].copy_from_slice(&ETH_TYPE_VLAN.to_be_bytes());
    frame[14..16].copy_from_slice(&100u16.to_be_bytes());
    frame[16..18].copy_from_slice(&ETH_TYPE_IPV6.to_be_bytes());

    let l3 = ETH_HEADER_LEN + VLAN_TAG_LEN;
    frame[l3] = 0x60;
    let udp_len = (UDP_HEADER_LEN + payload.len()) as u16;
    frame[l3 + 4..l3 + 6].copy_from_slice(&udp_len.to_be_bytes());
    frame[l3 + 6] = IP_PROTO_UDP;
    frame[l3 + 7] = 64;
    frame[l3 + 8..l3 + 24].copy_from_slice(&src_ip().octets());
    frame[l3 + 24..l3 + 40].copy_from_slice(&dst_ip().octets());

    let udp_off = l3 + IPV6_HEADER_LEN;
    frame[udp_off..udp_off + 2].copy_from_slice(&5000u16.to_be_bytes());
    frame[udp_off + 2..udp_off + 4].copy_from_slice(&6000u16.to_be_bytes());
    frame[udp_off + 4..udp_off + 6].copy_from_slice(&udp_len.to_be_bytes());
    frame[udp_off + UDP_HEADER_LEN..].copy_from_slice(payload);

    let cksum = udp6_checksum(
        &src_ip(), &dst_ip(),
        &frame[udp_off..udp_off + UDP_HEADER_LEN],
        payload,
    );
    frame[udp_off + 6..udp_off + 8].copy_from_slice(&cksum.to_be_bytes());

    // Corrupt a payload byte
    let last = frame.len() - 1;
    frame[last] ^= 0xFF;
    assert!(!verify_udp6_checksum(&frame));
}

// --- UDP6 checksum: extension headers ---

#[test]
fn udp6_checksum_with_hop_by_hop_extension() {
    // Build frame with Hop-by-Hop extension header before UDP
    let payload = b"ext-hdr";
    let ext_len = 8; // minimum extension header size
    let inner_len = IPV6_HEADER_LEN + ext_len + UDP_HEADER_LEN + payload.len();
    let total = ETH_HEADER_LEN + inner_len;
    let mut frame = vec![0u8; total];

    frame[0..6].copy_from_slice(&DST_MAC);
    frame[6..12].copy_from_slice(&SRC_MAC);
    frame[12..14].copy_from_slice(&ETH_TYPE_IPV6.to_be_bytes());

    let l3 = ETH_HEADER_LEN;
    frame[l3] = 0x60;
    let ipv6_payload_len = (ext_len + UDP_HEADER_LEN + payload.len()) as u16;
    frame[l3 + 4..l3 + 6].copy_from_slice(&ipv6_payload_len.to_be_bytes());
    frame[l3 + 6] = IP_PROTO_HOPOPT; // Next Header = Hop-by-Hop
    frame[l3 + 7] = 64;
    frame[l3 + 8..l3 + 24].copy_from_slice(&src_ip().octets());
    frame[l3 + 24..l3 + 40].copy_from_slice(&dst_ip().octets());

    // Hop-by-Hop extension header (8 bytes)
    let ext_off = l3 + IPV6_HEADER_LEN;
    frame[ext_off] = IP_PROTO_UDP; // Next Header = UDP
    frame[ext_off + 1] = 0; // Length = (0+1)*8 = 8 bytes

    // UDP header
    let udp_off = ext_off + ext_len;
    let udp_len = (UDP_HEADER_LEN + payload.len()) as u16;
    frame[udp_off..udp_off + 2].copy_from_slice(&7000u16.to_be_bytes());
    frame[udp_off + 2..udp_off + 4].copy_from_slice(&8000u16.to_be_bytes());
    frame[udp_off + 4..udp_off + 6].copy_from_slice(&udp_len.to_be_bytes());
    frame[udp_off + UDP_HEADER_LEN..].copy_from_slice(payload);

    // Compute checksum (pseudo-header uses the IPv6 addresses, not extension headers)
    let cksum = udp6_checksum(
        &src_ip(), &dst_ip(),
        &frame[udp_off..udp_off + UDP_HEADER_LEN],
        payload,
    );
    frame[udp_off + 6..udp_off + 8].copy_from_slice(&cksum.to_be_bytes());

    assert!(verify_udp6_checksum(&frame));
}

// --- UDP6 checksum: various payload sizes ---

#[test]
fn udp6_checksum_empty_payload() {
    let frame = build_udp6_frame(
        &SRC_MAC, &DST_MAC, src_ip(), dst_ip(), 1, 2, b"", 64,
    ).unwrap();
    assert!(verify_udp6_checksum(&frame));
}

#[test]
fn udp6_checksum_single_byte_payload() {
    let frame = build_udp6_frame(
        &SRC_MAC, &DST_MAC, src_ip(), dst_ip(), 1, 2, b"x", 64,
    ).unwrap();
    assert!(verify_udp6_checksum(&frame));
}

#[test]
fn udp6_checksum_odd_length_payload() {
    // Odd-length payload exercises the padding logic in checksum_add
    let frame = build_udp6_frame(
        &SRC_MAC, &DST_MAC, src_ip(), dst_ip(), 1, 2, b"odd", 64,
    ).unwrap();
    assert!(verify_udp6_checksum(&frame));
}

#[test]
fn udp6_checksum_max_standard_payload() {
    let payload = vec![0xAB; MAX_UDP_PAYLOAD_V6];
    let frame = build_udp6_frame(
        &SRC_MAC, &DST_MAC, src_ip(), dst_ip(), 1, 2, &payload, 64,
    ).unwrap();
    assert!(verify_udp6_checksum(&frame));
}

// --- UDP6 checksum: corruption in different fields ---

#[test]
fn udp6_checksum_detects_src_ip_corruption() {
    let mut frame = build_udp6_frame(
        &SRC_MAC, &DST_MAC, src_ip(), dst_ip(), 1, 2, b"data", 64,
    ).unwrap();
    // Corrupt source IP (byte 8 of IPv6 header)
    frame[ETH_HEADER_LEN + 8] ^= 0x01;
    assert!(!verify_udp6_checksum(&frame));
}

#[test]
fn udp6_checksum_detects_dst_ip_corruption() {
    let mut frame = build_udp6_frame(
        &SRC_MAC, &DST_MAC, src_ip(), dst_ip(), 1, 2, b"data", 64,
    ).unwrap();
    // Corrupt destination IP (byte 24 of IPv6 header)
    frame[ETH_HEADER_LEN + 24] ^= 0x01;
    assert!(!verify_udp6_checksum(&frame));
}

#[test]
fn udp6_checksum_detects_src_port_corruption() {
    let mut frame = build_udp6_frame(
        &SRC_MAC, &DST_MAC, src_ip(), dst_ip(), 1000, 2000, b"data", 64,
    ).unwrap();
    let udp_off = ETH_HEADER_LEN + IPV6_HEADER_LEN;
    frame[udp_off] ^= 0x01; // corrupt src port high byte
    assert!(!verify_udp6_checksum(&frame));
}

#[test]
fn udp6_checksum_detects_dst_port_corruption() {
    let mut frame = build_udp6_frame(
        &SRC_MAC, &DST_MAC, src_ip(), dst_ip(), 1000, 2000, b"data", 64,
    ).unwrap();
    let udp_off = ETH_HEADER_LEN + IPV6_HEADER_LEN;
    frame[udp_off + 2] ^= 0x01; // corrupt dst port high byte
    assert!(!verify_udp6_checksum(&frame));
}

// --- UDP6 checksum: edge cases ---

#[test]
fn udp6_checksum_rejects_truncated_frame() {
    let frame = build_udp6_frame(
        &SRC_MAC, &DST_MAC, src_ip(), dst_ip(), 1, 2, b"data", 64,
    ).unwrap();
    // Truncate to just past the UDP header (missing payload)
    let truncated = &frame[..ETH_HEADER_LEN + IPV6_HEADER_LEN + UDP_HEADER_LEN];
    // The UDP length field says there's payload, but it's missing
    assert!(!verify_udp6_checksum(truncated));
}

#[test]
fn udp6_checksum_rejects_non_ipv6_frame() {
    // Build an IPv4 frame
    let frame = dpdk_udp::build_udp_frame(
        &SRC_MAC, &DST_MAC,
        parse_ipv4("10.0.0.1").unwrap(),
        parse_ipv4("10.0.0.2").unwrap(),
        1000, 2000, b"ipv4", 64,
    ).unwrap();
    assert!(!verify_udp6_checksum(&frame));
}

#[test]
fn udp6_checksum_rejects_too_short_frame() {
    // Frame too short to contain even Ethernet + IPv6 header
    let frame = vec![0u8; 20];
    assert!(!verify_udp6_checksum(&frame));
}

// --- UDP6 pseudo-header checksum properties ---

#[test]
fn udp6_pseudo_header_checksum_different_lengths() {
    let a = udp6_pseudo_header_checksum(&src_ip(), &dst_ip(), 8);
    let b = udp6_pseudo_header_checksum(&src_ip(), &dst_ip(), 100);
    assert_ne!(a, b);
}

#[test]
fn udp6_pseudo_header_checksum_different_src() {
    let other_src: Ipv6Addr = parse_ipv6("2001:db8::ff").unwrap();
    let a = udp6_pseudo_header_checksum(&src_ip(), &dst_ip(), 16);
    let b = udp6_pseudo_header_checksum(&other_src, &dst_ip(), 16);
    assert_ne!(a, b);
}

#[test]
fn udp6_pseudo_header_checksum_different_dst() {
    let other_dst: Ipv6Addr = parse_ipv6("2001:db8::ff").unwrap();
    let a = udp6_pseudo_header_checksum(&src_ip(), &dst_ip(), 16);
    let b = udp6_pseudo_header_checksum(&src_ip(), &other_dst, 16);
    assert_ne!(a, b);
}

#[test]
fn udp6_pseudo_header_checksum_large_length() {
    // Test with a length > 65535 (uses the 32-bit upper-layer length field)
    let phc = udp6_pseudo_header_checksum(&src_ip(), &dst_ip(), 70000);
    assert_ne!(phc, 0);
}

// --- UDP6 checksum: computed value of 0 becomes 0xFFFF ---

#[test]
fn udp6_checksum_zero_becomes_ffff() {
    // RFC 8200 §8.1: if the computed checksum is zero, it is transmitted as 0xFFFF
    // We can't easily construct a payload that produces exactly zero, but we can
    // verify the function's contract: the return value is never 0.
    // Test with many different payloads to increase confidence.
    for i in 0..256u16 {
        let payload = [i as u8; 1];
        let cksum = udp6_checksum(
            &src_ip(), &dst_ip(),
            &[0x00, 0x01, 0x00, 0x02, 0x00, 0x09, 0x00, 0x00], // ports 1,2 len 9
            &payload,
        );
        assert_ne!(cksum, 0, "checksum must never be 0 for IPv6");
    }
}

// --- Speed ---

#[test]
fn ipv6_perf_build_parse_cycle() {
    let payload = vec![0xAA; 64];
    let mut buf = Vec::with_capacity(1500);
    let iterations = 10_000;

    let start = std::time::Instant::now();
    for _ in 0..iterations {
        build_udp6_frame_into(
            &mut buf, &SRC_MAC, &DST_MAC, src_ip(), dst_ip(),
            12345, 9000, &payload, 64,
        )
        .unwrap();
        let _ = parse_udp6_packet_ref(&buf).unwrap();
    }
    let elapsed = start.elapsed();
    let ns_per_op = elapsed.as_nanos() / iterations as u128;
    println!("[PERF] IPv6 build+parse: {} iterations in {:?} ({} ns/op)", iterations, elapsed, ns_per_op);
    assert!(ns_per_op < 10_000, "build+parse too slow: {} ns/op", ns_per_op);
}

#[test]
fn pseudo_header_checksum_is_completed_by_the_datagram() {
    let frame = build_udp6_frame(
        &SRC_MAC, &DST_MAC, src_ip(), dst_ip(), 4000, 5000, b"offload", 64,
    ).unwrap();
    let mut datagram = frame[54..].to_vec();
    let start = udp6_pseudo_header_checksum(&src_ip(), &dst_ip(), datagram.len() as u32);
    datagram[6..8].copy_from_slice(&start.to_be_bytes());
    let completed = ipv4_checksum(&datagram);
    assert_eq!(completed.to_be_bytes(), frame[60..62]);
}
