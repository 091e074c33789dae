//! GENEVE headers and tunnels over IPv4.

use dpdk_udp::addr::Ipv4Addr;
use dpdk_udp::constants::{
    ETH_HEADER_LEN, ETH_TYPE_IPV4, IPV4_HEADER_LEN, IP_PROTO_UDP, UDP_HEADER_LEN,
};
use dpdk_udp::geneve::{
    GENEVE_BASE_HEADER_LEN, GENEVE_DEFAULT_PORT, GENEVE_ENCAP_OVERHEAD, GENEVE_INNER_ETYPE_ETH,
    GENEVE_MAX_OPTIONS_LEN, GENEVE_VNI_MAX, GeneveConfig, GeneveHeader, GeneveTlvOption,
    build_geneve_frame_into, try_decap_geneve,
};

const OUTER_SRC_MAC: [u8; 6] = [0x02, 0x00, 0x00, 0x00, 0x00, 0x01];
const OUTER_DST_MAC: [u8; 6] = [0x02, 0x00, 0x00, 0x00, 0x00, 0x02];
const INNER_SRC_MAC: [u8; 6] = [0x02, 0x00, 0x00, 0x00, 0x01, 0x01];
const INNER_DST_MAC: [u8; 6] = [0x02, 0x00, 0x00, 0x00, 0x01, 0x02];

fn outer_src_ip() -> Ipv4Addr { Ipv4Addr::new(10, 0, 0, 1) }
fn outer_dst_ip() -> Ipv4Addr { Ipv4Addr::new(10, 0, 0, 2) }
fn inner_src_ip() -> Ipv4Addr { Ipv4Addr::new(192, 168, 1, 10) }
fn inner_dst_ip() -> Ipv4Addr { Ipv4Addr::new(192, 168, 1, 20) }

fn build_test_frame(payload: &[u8], vni: u32) -> Vec<u8> {
    let hdr = GeneveHeader::new(vni);
    let mut frame = Vec::new();
    build_geneve_frame_into(
        &mut frame,
        &OUTER_SRC_MAC, &OUTER_DST_MAC,
        outer_src_ip(), outer_dst_ip(),
        6081, 6081, &hdr,
        &INNER_SRC_MAC, &INNER_DST_MAC,
        inner_src_ip(), inner_dst_ip(),
        9000, 9001, payload, 64,
    ).unwrap();
    frame
}

// --- Constants ---

#[test]
fn geneve_constants_are_correct() {
    assert_eq!(GENEVE_BASE_HEADER_LEN, 8);
    assert_eq!(GENEVE_DEFAULT_PORT, 6081);
    // overhead = 20 (outer IP) + 8 (outer UDP) + 8 (GENEVE base) + 14 (inner Eth) = 50
    assert_eq!(GENEVE_ENCAP_OVERHEAD, 50);
    assert_eq!(GENEVE_VNI_MAX, 0x00FF_FFFF);
    assert_eq!(GENEVE_INNER_ETYPE_ETH, 0x6558);
    assert_eq!(GENEVE_MAX_OPTIONS_LEN, 252);
}

// --- GeneveConfig ---

#[test]
fn config_defaults() {
    let cfg = GeneveConfig::new(Ipv4Addr::new(10, 0, 0, 2), 100);
    assert_eq!(cfg.remote_ip, Ipv4Addr::new(10, 0, 0, 2));
    assert_eq!(cfg.vni, 100);
    assert_eq!(cfg.remote_port, GENEVE_DEFAULT_PORT);
    assert_eq!(cfg.local_port, GENEVE_DEFAULT_PORT);
}

#[test]
fn config_builder() {
    let cfg = GeneveConfig::new(Ipv4Addr::new(10, 0, 0, 2), 200)
        .with_remote_port(5000)
        .with_local_port(5001)
        .with_inner_src_mac([0xAA; 6])
        .with_inner_dst_mac([0xBB; 6]);
    assert_eq!(cfg.remote_port, 5000);
    assert_eq!(cfg.local_port, 5001);
    assert_eq!(cfg.inner_src_mac, [0xAA; 6]);
    assert_eq!(cfg.inner_dst_mac, [0xBB; 6]);
}

#[test]
fn config_accepts_max_vni() {
    let cfg = GeneveConfig::new(Ipv4Addr::new(10, 0, 0, 1), GENEVE_VNI_MAX);
    assert_eq!(cfg.vni, GENEVE_VNI_MAX);
}

// --- GeneveHeader encode/parse ---

#[test]
fn header_encode_decode_roundtrip() {
    let hdr = GeneveHeader::new(0x123456);
    let mut buf = [0u8; 8];
    hdr.encode(&mut buf);

    // Byte 0: Ver=0 (top 2 bits), Opt Len=0 (bottom 6 bits)
    assert_eq!(buf[0], 0x00);
    // Byte 1: O=0, C=0, Rsvd=0
    assert_eq!(buf[1], 0x00);
    // Bytes 2-3: Protocol Type = 0x6558
    assert_eq!(u16::from_be_bytes([buf[2], buf[3]]), GENEVE_INNER_ETYPE_ETH);
    // Bytes 4-6: VNI
    assert_eq!(buf[4], 0x12);
    assert_eq!(buf[5], 0x34);
    assert_eq!(buf[6], 0x56);
    assert_eq!(buf[7], 0x00);

    let parsed = GeneveHeader::parse(&buf).unwrap();
    assert_eq!(parsed.version, 0);
    assert_eq!(parsed.vni, 0x123456);
    assert!(!parsed.oam);
    assert!(!parsed.critical);
    assert_eq!(parsed.protocol_type, GENEVE_INNER_ETYPE_ETH);
    assert!(parsed.options.is_empty());
}

#[test]
fn header_vni_zero() {
    let hdr = GeneveHeader::new(0);
    let mut buf = [0u8; 8];
    hdr.encode(&mut buf);
    let parsed = GeneveHeader::parse(&buf).unwrap();
    assert_eq!(parsed.vni, 0);
}

#[test]
fn header_vni_max() {
    let hdr = GeneveHeader::new(GENEVE_VNI_MAX);
    let mut buf = [0u8; 8];
    hdr.encode(&mut buf);
    let parsed = GeneveHeader::parse(&buf).unwrap();
    assert_eq!(parsed.vni, GENEVE_VNI_MAX);
}

#[test]
fn header_oam_and_critical_flags() {
    let mut hdr = GeneveHeader::new(100);
    hdr.oam = true;
    hdr.critical = true;
    let mut buf = [0u8; 8];
    hdr.encode(&mut buf);
    assert_eq!(buf[1] & 0x80, 0x80); // OAM
    assert_eq!(buf[1] & 0x40, 0x40); // Critical

    let parsed = GeneveHeader::parse(&buf).unwrap();
    assert!(parsed.oam);
    assert!(parsed.critical);
}

#[test]
fn header_with_tlv_option() {
    let mut hdr = GeneveHeader::new(42);
    hdr.options.push(GeneveTlvOption {
        class: 0x0102,
        option_type: 0x03,
        data: vec![0xAA, 0xBB, 0xCC, 0xDD],
    });
    hdr.options_len = 8; // 4-byte TLV header + 4-byte data
    let mut buf = [0u8; 16]; // 8 base + 8 option
    hdr.encode(&mut buf);

    // Opt Len should be 2 (8 bytes / 4)
    assert_eq!(buf[0] & 0x3F, 2);

    let parsed = GeneveHeader::parse(&buf).unwrap();
    assert_eq!(parsed.options.len(), 1);
    assert_eq!(parsed.options[0].class, 0x0102);
    assert_eq!(parsed.options[0].option_type, 0x03);
    assert_eq!(parsed.options[0].data, vec![0xAA, 0xBB, 0xCC, 0xDD]);
}

#[test]
fn header_rejects_wrong_version() {
    let mut buf = [0u8; 8];
    GeneveHeader::new(1).encode(&mut buf);
    buf[0] = 0x40; // version = 1
    assert!(GeneveHeader::parse(&buf).is_none());
}

#[test]
fn header_rejects_wrong_protocol_type() {
    let mut buf = [0u8; 8];
    GeneveHeader::new(1).encode(&mut buf);
    buf[2] = 0x08; // protocol type = 0x0800 (IPv4, not Ethernet)
    buf[3] = 0x00;
    assert!(GeneveHeader::parse(&buf).is_none());
}

#[test]
fn header_rejects_too_short() {
    let buf = [0u8; 7];
    assert!(GeneveHeader::parse(&buf).is_none());
}

#[test]
fn header_rejects_truncated_options() {
    let mut buf = [0u8; 8];
    GeneveHeader::new(1).encode(&mut buf);
    buf[0] = 0x01; // opt_len = 1 word = 4 bytes, but buf is only 8 bytes total
    assert!(GeneveHeader::parse(&buf).is_none());
}

// --- Build + Decap roundtrip ---

#[test]
fn geneve_build_and_decap_roundtrip() {
    let payload = b"hello GENEVE tunnel";
    let frame = build_test_frame(payload, 100);

    // 14 (outer eth) + 20 (outer ip) + 8 (outer udp) + 8 (geneve)
    // + 14 (inner eth) + 20 (inner ip) + 8 (inner udp) + 19 (payload) = 111
    assert_eq!(frame.len(), 14 + 20 + 8 + 8 + 14 + 20 + 8 + payload.len());

    let decap = try_decap_geneve(&frame, ETH_HEADER_LEN, 6081, Some(100)).unwrap();
    assert_eq!(decap.inner_src_ip, inner_src_ip());
    assert_eq!(decap.inner_dst_ip, inner_dst_ip());
    assert_eq!(decap.inner_src_port, 9000);
    assert_eq!(decap.inner_dst_port, 9001);
    assert_eq!(decap.payload, payload);
    assert_eq!(decap.outer_src_ip, outer_src_ip());
    assert_eq!(decap.geneve_header.vni, 100);
    assert_eq!(decap.inner_src_mac, INNER_SRC_MAC);
    assert_eq!(decap.inner_dst_mac, INNER_DST_MAC);
}

#[test]
fn geneve_decap_accepts_any_vni_when_none() {
    let frame = build_test_frame(b"any vni", 999);
    let decap = try_decap_geneve(&frame, ETH_HEADER_LEN, 6081, None).unwrap();
    assert_eq!(decap.geneve_header.vni, 999);
    assert_eq!(decap.payload, b"any vni");
}

#[test]
fn geneve_decap_rejects_wrong_vni() {
    let frame = build_test_frame(b"wrong vni", 100);
    assert!(try_decap_geneve(&frame, ETH_HEADER_LEN, 6081, Some(200)).is_none());
}

#[test]
fn geneve_decap_rejects_wrong_port() {
    let frame = build_test_frame(b"wrong port", 100);
    assert!(try_decap_geneve(&frame, ETH_HEADER_LEN, 5000, Some(100)).is_none());
}

#[test]
fn geneve_build_empty_payload() {
    let frame = build_test_frame(b"", 100);
    // 14 + 20 + 8 + 8 + 14 + 20 + 8 + 0 = 92
    assert_eq!(frame.len(), 92);
    let decap = try_decap_geneve(&frame, ETH_HEADER_LEN, 6081, Some(100)).unwrap();
    assert!(decap.payload.is_empty());
}

#[test]
fn geneve_build_large_payload() {
    let payload = vec![0xAB; 1400];
    let frame = build_test_frame(&payload, 100);
    assert_eq!(frame.len(), 92 + 1400);
    let decap = try_decap_geneve(&frame, ETH_HEADER_LEN, 6081, Some(100)).unwrap();
    assert_eq!(decap.payload.len(), 1400);
    assert!(decap.payload.iter().all(|&b| b == 0xAB));
}

// --- Wire format verification ---

#[test]
fn wire_format_outer_ethertype() {
    let frame = build_test_frame(b"x", 100);
    assert_eq!(u16::from_be_bytes([frame[12], frame[13]]), ETH_TYPE_IPV4);
}

#[test]
fn wire_format_outer_ipv4_version() {
    let frame = build_test_frame(b"x", 100);
    assert_eq!(frame[ETH_HEADER_LEN] >> 4, 4);
}

#[test]
fn wire_format_outer_protocol_is_udp() {
    let frame = build_test_frame(b"x", 100);
    assert_eq!(frame[ETH_HEADER_LEN + 9], IP_PROTO_UDP);
}

#[test]
fn wire_format_outer_udp_port() {
    let frame = build_test_frame(b"x", 100);
    let oudp = ETH_HEADER_LEN + IPV4_HEADER_LEN;
    let dst_port = u16::from_be_bytes([frame[oudp + 2], frame[oudp + 3]]);
    assert_eq!(dst_port, 6081);
}

#[test]
fn wire_format_geneve_version() {
    let frame = build_test_frame(b"x", 100);
    let geneve_off = ETH_HEADER_LEN + IPV4_HEADER_LEN + UDP_HEADER_LEN;
    assert_eq!((frame[geneve_off] >> 6) & 0x03, 0);
}

#[test]
fn wire_format_geneve_protocol_type() {
    let frame = build_test_frame(b"x", 100);
    let geneve_off = ETH_HEADER_LEN + IPV4_HEADER_LEN + UDP_HEADER_LEN;
    let proto = u16::from_be_bytes([frame[geneve_off + 2], frame[geneve_off + 3]]);
    assert_eq!(proto, GENEVE_INNER_ETYPE_ETH);
}

#[test]
fn wire_format_geneve_vni() {
    let frame = build_test_frame(b"x", 0x0A0B0C);
    let geneve_off = ETH_HEADER_LEN + IPV4_HEADER_LEN + UDP_HEADER_LEN;
    assert_eq!(frame[geneve_off + 4], 0x0A);
    assert_eq!(frame[geneve_off + 5], 0x0B);
    assert_eq!(frame[geneve_off + 6], 0x0C);
}

#[test]
fn wire_format_inner_ethernet() {
    let frame = build_test_frame(b"x", 100);
    let ieth = ETH_HEADER_LEN + IPV4_HEADER_LEN + UDP_HEADER_LEN + GENEVE_BASE_HEADER_LEN;
    assert_eq!(&frame[ieth..ieth + 6], &INNER_DST_MAC);
    assert_eq!(&frame[ieth + 6..ieth + 12], &INNER_SRC_MAC);
    assert_eq!(u16::from_be_bytes([frame[ieth + 12], frame[ieth + 13]]), ETH_TYPE_IPV4);
}

#[test]
fn wire_format_checksums_valid() {
    let frame = build_test_frame(b"checksum test", 100);
    assert!(dpdk_udp::verify_ipv4_checksum(&frame));
}

// --- Decap edge cases ---

#[test]
fn decap_rejects_truncated_frame() {
    let frame = build_test_frame(b"data", 100);
    assert!(try_decap_geneve(&frame[..40], ETH_HEADER_LEN, 6081, Some(100)).is_none());
}

#[test]
fn decap_rejects_non_udp_outer() {
    let mut frame = build_test_frame(b"data", 100);
    frame[ETH_HEADER_LEN + 9] = 6; // TCP
    assert!(try_decap_geneve(&frame, ETH_HEADER_LEN, 6081, Some(100)).is_none());
}

#[test]
fn decap_rejects_wrong_geneve_version() {
    let mut frame = build_test_frame(b"data", 100);
    let geneve_off = ETH_HEADER_LEN + IPV4_HEADER_LEN + UDP_HEADER_LEN;
    frame[geneve_off] = 0x40; // version = 1
    assert!(try_decap_geneve(&frame, ETH_HEADER_LEN, 6081, Some(100)).is_none());
}

// --- Custom ports ---

#[test]
fn custom_ports() {
    let hdr = GeneveHeader::new(42);
    let mut frame = Vec::new();
    build_geneve_frame_into(
        &mut frame,
        &OUTER_SRC_MAC, &OUTER_DST_MAC,
        outer_src_ip(), outer_dst_ip(),
        5555, 6666, &hdr,
        &INNER_SRC_MAC, &INNER_DST_MAC,
        inner_src_ip(), inner_dst_ip(),
        8000, 8001, b"custom", 128,
    ).unwrap();

    assert!(try_decap_geneve(&frame, ETH_HEADER_LEN, 6081, Some(42)).is_none());
    let decap = try_decap_geneve(&frame, ETH_HEADER_LEN, 6666, Some(42)).unwrap();
    assert_eq!(decap.inner_src_port, 8000);
    assert_eq!(decap.inner_dst_port, 8001);
    assert_eq!(decap.payload, b"custom");
}

// --- TLV options roundtrip ---

#[test]
fn geneve_build_and_decap_with_options() {
    let mut hdr = GeneveHeader::new(500);
    hdr.options.push(GeneveTlvOption {
        class: 0x0100,
        option_type: 0x01,
        data: vec![0x11, 0x22, 0x33, 0x44],
    });
    hdr.options_len = 8;

    let mut frame = Vec::new();
    build_geneve_frame_into(
        &mut frame,
        &OUTER_SRC_MAC, &OUTER_DST_MAC,
        outer_src_ip(), outer_dst_ip(),
        6081, 6081, &hdr,
        &INNER_SRC_MAC, &INNER_DST_MAC,
        inner_src_ip(), inner_dst_ip(),
        9000, 9001, b"with opts", 64,
    ).unwrap();

    // Frame should be 8 bytes longer than no-options frame
    let no_opts_frame = build_test_frame(b"with opts", 500);
    assert_eq!(frame.len(), no_opts_frame.len() + 8);

    let decap = try_decap_geneve(&frame, ETH_HEADER_LEN, 6081, Some(500)).unwrap();
    assert_eq!(decap.payload, b"with opts");
    assert_eq!(decap.geneve_header.options.len(), 1);
    assert_eq!(decap.geneve_header.options[0].class, 0x0100);
    assert_eq!(decap.geneve_header.options[0].data, vec![0x11, 0x22, 0x33, 0x44]);
}

// --- Encap overhead constant ---

#[test]
fn encap_overhead_matches_frame_size() {
    let frame = build_test_frame(b"", 100);
    let base_frame = ETH_HEADER_LEN + IPV4_HEADER_LEN + UDP_HEADER_LEN;
    assert_eq!(frame.len(), base_frame + GENEVE_ENCAP_OVERHEAD);
}

// --- Speed ---

#[test]
fn perf_build_decap_cycle() {
    let payload = vec![0xAA; 64];
    let hdr = GeneveHeader::new(100);
    let mut buf = Vec::with_capacity(1500);
    let iterations = 10_000;

    let start = std::time::Instant::now();
    for _ in 0..iterations {
        build_geneve_frame_into(
            &mut buf,
            &OUTER_SRC_MAC, &OUTER_DST_MAC,
            outer_src_ip(), outer_dst_ip(),
            6081, 6081, &hdr,
            &INNER_SRC_MAC, &INNER_DST_MAC,
            inner_src_ip(), inner_dst_ip(),
            12345, 9000, &payload, 64,
        ).unwrap();
        let _ = try_decap_geneve(&buf, ETH_HEADER_LEN, 6081, Some(100)).unwrap();
    }
    let elapsed = start.elapsed();
    let ns_per_op = elapsed.as_nanos() / iterations as u128;
    println!("[PERF] GENEVE build+decap: {} iterations in {:?} ({} ns/op)", iterations, elapsed, ns_per_op);
    assert!(ns_per_op < 10_000, "build+decap too slow: {} ns/op", ns_per_op);
}
