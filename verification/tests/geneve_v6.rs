//! GENEVE tunnels over IPv6.

use dpdk_udp::addr::{Ipv4Addr, Ipv6Addr};
use dpdk_udp::constants::ETH_HEADER_LEN;
use dpdk_udp::geneve::{
    GENEVE_DEFAULT_PORT, GENEVE_ENCAP_OVERHEAD_V6, GENEVE_INNER_ETYPE_ETH, GENEVE_VERSION,
    GENEVE_VNI_MAX, GeneveConfig6, GeneveHeader, GeneveTlvOption, build_geneve_frame_into_v6,
    try_decap_geneve_v6,
};
use dpdk_udp::ipv6::ETH_TYPE_IPV6;
use dpdk_udp::parse::parse_ipv6;

fn outer_src_ip() -> Ipv4Addr { Ipv4Addr::new(10, 0, 0, 1) }
fn inner_src_ip() -> Ipv4Addr { Ipv4Addr::new(192, 168, 1, 10) }
fn inner_dst_ip() -> Ipv4Addr { Ipv4Addr::new(192, 168, 1, 20) }

const OUTER_SRC_MAC: [u8; 6] = [0x02, 0x00, 0x00, 0x00, 0x00, 0x01];
const OUTER_DST_MAC: [u8; 6] = [0x02, 0x00, 0x00, 0x00, 0x00, 0x02];
const INNER_SRC_MAC: [u8; 6] = [0x02, 0x00, 0x00, 0x00, 0x01, 0x01];
const INNER_DST_MAC: [u8; 6] = [0x02, 0x00, 0x00, 0x00, 0x01, 0x02];

fn outer_src() -> Ipv6Addr { parse_ipv6("2001:db8::1").unwrap() }
fn outer_dst() -> Ipv6Addr { parse_ipv6("2001:db8::2").unwrap() }
fn inner_src() -> Ipv4Addr { Ipv4Addr::new(192, 168, 1, 10) }
fn inner_dst() -> Ipv4Addr { Ipv4Addr::new(192, 168, 1, 20) }

#[test]
fn geneve_config6_defaults() {
    let cfg = GeneveConfig6::new(outer_dst(), 100);
    assert_eq!(cfg.remote_ip, outer_dst());
    assert_eq!(cfg.vni, 100);
    assert_eq!(cfg.remote_port, GENEVE_DEFAULT_PORT);
    assert_eq!(cfg.local_port, GENEVE_DEFAULT_PORT);
}

#[test]
fn geneve_config6_builder() {
    let cfg = GeneveConfig6::new(outer_dst(), 200)
        .with_remote_port(5000)
        .with_local_port(5001)
        .with_inner_src_mac([0xAA; 6])
        .with_inner_dst_mac([0xBB; 6]);
    assert_eq!(cfg.remote_port, 5000);
    assert_eq!(cfg.local_port, 5001);
    assert_eq!(cfg.inner_src_mac, [0xAA; 6]);
    assert_eq!(cfg.inner_dst_mac, [0xBB; 6]);
}

#[test]
fn geneve_build_and_decap_roundtrip_v6() {
    let payload = b"hello GENEVE IPv6 tunnel";
    let hdr = GeneveHeader::new(100);
    let mut frame = Vec::new();
    let len = build_geneve_frame_into_v6(
        &mut frame,
        &OUTER_SRC_MAC, &OUTER_DST_MAC,
        outer_src(), outer_dst(),
        6081, 6081, &hdr,
        &INNER_SRC_MAC, &INNER_DST_MAC,
        inner_src(), inner_dst(),
        9000, 9001, payload, 64,
    ).unwrap();

    assert_eq!(frame.len(), len);
    // 14 (eth) + 40 (IPv6) + 8 (UDP) + 8 (GENEVE) + 14 (inner eth) + 20 (inner IPv4) + 8 (inner UDP) + payload
    let expected = 14 + 40 + 8 + 8 + 14 + 20 + 8 + payload.len();
    assert_eq!(len, expected);

    let decap = try_decap_geneve_v6(&frame, ETH_HEADER_LEN, 6081, Some(100)).unwrap();
    assert_eq!(decap.inner_src_ip, inner_src());
    assert_eq!(decap.inner_dst_ip, inner_dst());
    assert_eq!(decap.inner_src_port, 9000);
    assert_eq!(decap.inner_dst_port, 9001);
    assert_eq!(decap.payload, payload);
    assert_eq!(decap.outer_src_ip, outer_src());
    assert_eq!(decap.geneve_header.vni, 100);
    assert_eq!(decap.inner_src_mac, INNER_SRC_MAC);
    assert_eq!(decap.inner_dst_mac, INNER_DST_MAC);
}

#[test]
fn geneve_build_and_decap_with_options_v6() {
    let options = vec![
        GeneveTlvOption { class: 0x0102, option_type: 1, data: vec![0xAA, 0xBB, 0xCC, 0xDD] },
    ];
    let opt_len = 4 + options[0].data.len(); // 4-byte TLV header + data
    let hdr = GeneveHeader {
        version: GENEVE_VERSION,
        options_len: opt_len,
        oam: false,
        critical: false,
        protocol_type: GENEVE_INNER_ETYPE_ETH,
        vni: 100,
        options: options.clone(),
    };
    let payload = b"with opts";
    let mut frame = Vec::new();
    build_geneve_frame_into_v6(
        &mut frame,
        &OUTER_SRC_MAC, &OUTER_DST_MAC,
        outer_src(), outer_dst(),
        6081, 6081, &hdr,
        &INNER_SRC_MAC, &INNER_DST_MAC,
        inner_src(), inner_dst(),
        9000, 9001, payload, 64,
    ).unwrap();

    let decap = try_decap_geneve_v6(&frame, ETH_HEADER_LEN, 6081, Some(100)).unwrap();
    assert_eq!(decap.payload, payload);
    assert_eq!(decap.geneve_header.options.len(), 1);
    assert_eq!(decap.geneve_header.options[0].class, 0x0102);
    assert_eq!(decap.geneve_header.options[0].data, vec![0xAA, 0xBB, 0xCC, 0xDD]);
}

#[test]
fn geneve_wire_format_ethertype_is_ipv6() {
    let hdr = GeneveHeader::new(100);
    let mut frame = Vec::new();
    build_geneve_frame_into_v6(
        &mut frame, &OUTER_SRC_MAC, &OUTER_DST_MAC,
        outer_src(), outer_dst(), 6081, 6081, &hdr,
        &INNER_SRC_MAC, &INNER_DST_MAC,
        inner_src(), inner_dst(), 1, 2, b"x", 64,
    ).unwrap();
    let ethertype = u16::from_be_bytes([frame[12], frame[13]]);
    assert_eq!(ethertype, ETH_TYPE_IPV6);
}

#[test]
fn geneve_wire_format_ipv6_version() {
    let hdr = GeneveHeader::new(100);
    let mut frame = Vec::new();
    build_geneve_frame_into_v6(
        &mut frame, &OUTER_SRC_MAC, &OUTER_DST_MAC,
        outer_src(), outer_dst(), 6081, 6081, &hdr,
        &INNER_SRC_MAC, &INNER_DST_MAC,
        inner_src(), inner_dst(), 1, 2, b"x", 64,
    ).unwrap();
    assert_eq!(frame[ETH_HEADER_LEN] >> 4, 6);
}

#[test]
fn geneve_wire_format_outer_udp_checksum_valid() {
    let hdr = GeneveHeader::new(100);
    let mut frame = Vec::new();
    build_geneve_frame_into_v6(
        &mut frame, &OUTER_SRC_MAC, &OUTER_DST_MAC,
        outer_src(), outer_dst(), 6081, 6081, &hdr,
        &INNER_SRC_MAC, &INNER_DST_MAC,
        inner_src(), inner_dst(), 9000, 9001, b"checksum test", 64,
    ).unwrap();
    assert!(dpdk_udp::verify_udp6_checksum(&frame));
}

#[test]
fn geneve_decap_rejects_wrong_port_v6() {
    let hdr = GeneveHeader::new(100);
    let mut frame = Vec::new();
    build_geneve_frame_into_v6(
        &mut frame, &OUTER_SRC_MAC, &OUTER_DST_MAC,
        outer_src(), outer_dst(), 6081, 6081, &hdr,
        &INNER_SRC_MAC, &INNER_DST_MAC,
        inner_src(), inner_dst(), 9000, 9001, b"x", 64,
    ).unwrap();
    assert!(try_decap_geneve_v6(&frame, ETH_HEADER_LEN, 7000, Some(100)).is_none());
}

#[test]
fn geneve_decap_rejects_wrong_vni_v6() {
    let hdr = GeneveHeader::new(100);
    let mut frame = Vec::new();
    build_geneve_frame_into_v6(
        &mut frame, &OUTER_SRC_MAC, &OUTER_DST_MAC,
        outer_src(), outer_dst(), 6081, 6081, &hdr,
        &INNER_SRC_MAC, &INNER_DST_MAC,
        inner_src(), inner_dst(), 9000, 9001, b"x", 64,
    ).unwrap();
    assert!(try_decap_geneve_v6(&frame, ETH_HEADER_LEN, 6081, Some(200)).is_none());
}

#[test]
fn geneve_decap_accepts_any_vni_when_none_v6() {
    let hdr = GeneveHeader::new(999);
    let mut frame = Vec::new();
    build_geneve_frame_into_v6(
        &mut frame, &OUTER_SRC_MAC, &OUTER_DST_MAC,
        outer_src(), outer_dst(), 6081, 6081, &hdr,
        &INNER_SRC_MAC, &INNER_DST_MAC,
        inner_src(), inner_dst(), 9000, 9001, b"x", 64,
    ).unwrap();
    let decap = try_decap_geneve_v6(&frame, ETH_HEADER_LEN, 6081, None).unwrap();
    assert_eq!(decap.geneve_header.vni, 999);
}

#[test]
fn geneve_build_empty_payload_v6() {
    let hdr = GeneveHeader::new(100);
    let mut frame = Vec::new();
    let len = build_geneve_frame_into_v6(
        &mut frame, &OUTER_SRC_MAC, &OUTER_DST_MAC,
        outer_src(), outer_dst(), 6081, 6081, &hdr,
        &INNER_SRC_MAC, &INNER_DST_MAC,
        inner_src(), inner_dst(), 9000, 9001, &[], 64,
    ).unwrap();
    // 14 + 40 + 8 + 8 + 14 + 20 + 8 = 112
    assert_eq!(len, 112);
    let decap = try_decap_geneve_v6(&frame, ETH_HEADER_LEN, 6081, Some(100)).unwrap();
    assert!(decap.payload.is_empty());
}

#[test]
fn geneve_encap_overhead_v6_is_correct() {
    // outer IPv6(40) + outer UDP(8) + GENEVE base(8) + inner Eth(14) = 70
    assert_eq!(GENEVE_ENCAP_OVERHEAD_V6, 70);
}

#[test]
fn geneve_perf_build_decap_cycle_v6() {
    let payload = vec![0xAA; 64];
    let hdr = GeneveHeader::new(100);
    let mut buf = Vec::with_capacity(1500);
    let iterations = 10_000;

    let start = std::time::Instant::now();
    for _ in 0..iterations {
        build_geneve_frame_into_v6(
            &mut buf, &OUTER_SRC_MAC, &OUTER_DST_MAC,
            outer_src(), outer_dst(), 6081, 6081, &hdr,
            &INNER_SRC_MAC, &INNER_DST_MAC,
            inner_src(), inner_dst(), 12345, 9000, &payload, 64,
        ).unwrap();
        let _ = try_decap_geneve_v6(&buf, ETH_HEADER_LEN, 6081, Some(100)).unwrap();
    }
    let elapsed = start.elapsed();
    let ns_per_op = elapsed.as_nanos() / iterations as u128;
    println!("[PERF] GENEVE IPv6-outer build+decap: {} iterations in {:?} ({} ns/op)", iterations, elapsed, ns_per_op);
    assert!(ns_per_op < 10_000, "build+decap too slow: {} ns/op", ns_per_op);
}
