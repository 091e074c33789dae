//! Checksums, building and parsing of UDP over IPv4.

use dpdk_udp::addr::Ipv4Addr;
use dpdk_udp::constants::{
    ETH_HEADER_LEN, ETH_TYPE_IPV4, IPV4_HEADER_LEN, IP_PROTO_UDP, MAX_FRAME_SIZE, MAX_UDP_PAYLOAD,
    TOTAL_HEADER_LEN, UDP_HEADER_LEN,
};
use dpdk_udp::error::UdpError;
use dpdk_udp::udp::{
    build_udp_frame, ipv4_checksum, parse_udp_packet, udp_checksum, udp_pseudo_header_checksum,
    verify_ipv4_checksum, verify_udp_checksum,
};

#[test]
fn test_ipv4_checksum() {
    // Example IP header (without checksum)
    let mut header = [
        0x45, 0x00, // Version, IHL, DSCP, ECN
        0x00, 0x3c, // Total Length
        0x1c, 0x46, // Identification
        0x40, 0x00, // Flags, Fragment Offset
        0x40, 0x06, // TTL, Protocol
        0x00, 0x00, // Checksum (placeholder)
        0xac, 0x10, 0x0a, 0x63, // Source IP (172.16.10.99)
        0xac, 0x10, 0x0a, 0x0c, // Destination IP (172.16.10.12)
    ];

    let checksum = ipv4_checksum(&header);
    header[10..12].copy_from_slice(&checksum.to_be_bytes());

    // Verify checksum is valid (recalculating should give 0)
    let verify = ipv4_checksum(&header);
    assert_eq!(verify, 0);
}

#[test]
fn test_udp_checksum() {
    let src_ip = [192, 168, 1, 1];
    let dst_ip = [192, 168, 1, 2];
    let udp_header = [
        0x30, 0x39, // Source port (12345)
        0x23, 0x28, // Dest port (9000)
        0x00, 0x0c, // Length (12 = 8 header + 4 payload)
        0x00, 0x00, // Checksum (placeholder)
    ];
    let payload = b"test";

    let checksum = udp_checksum(&src_ip, &dst_ip, &udp_header, payload);
    // Just verify it's non-zero and computable
    assert_ne!(checksum, 0);
}

#[test]
fn test_verify_ipv4_checksum_valid_frame() {
    // Build a frame with valid checksums using build_udp_frame
    let frame = build_udp_frame(
        &[0x02, 0x00, 0x00, 0x00, 0x00, 0x01],
        &[0xff, 0xff, 0xff, 0xff, 0xff, 0xff],
        Ipv4Addr::new(192, 168, 1, 1),
        Ipv4Addr::new(192, 168, 1, 2),
        12345, 9000,
        b"hello",
        64,
    ).unwrap();

    assert!(verify_ipv4_checksum(&frame));
}

#[test]
fn test_verify_ipv4_checksum_corrupted() {
    let mut frame = build_udp_frame(
        &[0x02, 0x00, 0x00, 0x00, 0x00, 0x01],
        &[0xff, 0xff, 0xff, 0xff, 0xff, 0xff],
        Ipv4Addr::new(192, 168, 1, 1),
        Ipv4Addr::new(192, 168, 1, 2),
        12345, 9000,
        b"hello",
        64,
    ).unwrap();

    // Corrupt the IP TTL field (byte 22 = ETH_HEADER_LEN + 8)
    frame[ETH_HEADER_LEN + 8] ^= 0xFF;
    assert!(!verify_ipv4_checksum(&frame));
}

#[test]
fn test_verify_ipv4_checksum_too_short() {
    assert!(!verify_ipv4_checksum(&[0u8; 20])); // Less than ETH + IP header
}

#[test]
fn test_verify_udp_checksum_valid_frame() {
    let frame = build_udp_frame(
        &[0x02, 0x00, 0x00, 0x00, 0x00, 0x01],
        &[0xff, 0xff, 0xff, 0xff, 0xff, 0xff],
        Ipv4Addr::new(10, 0, 1, 10),
        Ipv4Addr::new(10, 0, 1, 20),
        5000, 6000,
        b"test payload data",
        64,
    ).unwrap();

    assert!(verify_udp_checksum(&frame));
}

#[test]
fn test_verify_udp_checksum_corrupted_payload() {
    let mut frame = build_udp_frame(
        &[0x02, 0x00, 0x00, 0x00, 0x00, 0x01],
        &[0xff, 0xff, 0xff, 0xff, 0xff, 0xff],
        Ipv4Addr::new(10, 0, 1, 10),
        Ipv4Addr::new(10, 0, 1, 20),
        5000, 6000,
        b"test payload",
        64,
    ).unwrap();

    // Corrupt the payload
    let last = frame.len() - 1;
    frame[last] ^= 0xFF;
    assert!(!verify_udp_checksum(&frame));
}

#[test]
fn test_verify_udp_checksum_zero_means_disabled() {
    let mut frame = build_udp_frame(
        &[0x02, 0x00, 0x00, 0x00, 0x00, 0x01],
        &[0xff, 0xff, 0xff, 0xff, 0xff, 0xff],
        Ipv4Addr::new(10, 0, 1, 10),
        Ipv4Addr::new(10, 0, 1, 20),
        5000, 6000,
        b"test",
        64,
    ).unwrap();

    // Set UDP checksum to 0 (disabled per RFC 768)
    let udp_off = ETH_HEADER_LEN + IPV4_HEADER_LEN;
    frame[udp_off + 6] = 0;
    frame[udp_off + 7] = 0;
    assert!(verify_udp_checksum(&frame));
}

#[test]
fn test_verify_udp_checksum_too_short() {
    assert!(!verify_udp_checksum(&[0u8; 30])); // Less than TOTAL_HEADER_LEN
}

#[test]
fn test_verify_both_checksums_roundtrip() {
    // Build a frame and verify both checksums pass
    for payload in &[b"" as &[u8], b"a", b"hello world", &[0xAB; 100]] {
        let frame = build_udp_frame(
            &[0x02, 0x00, 0x00, 0x00, 0x00, 0x01],
            &[0xff, 0xff, 0xff, 0xff, 0xff, 0xff],
            Ipv4Addr::new(172, 16, 0, 1),
            Ipv4Addr::new(172, 16, 0, 2),
            1234, 5678,
            payload,
            128,
        ).unwrap();

        assert!(verify_ipv4_checksum(&frame), "IPv4 checksum failed for payload len {}", payload.len());
        assert!(verify_udp_checksum(&frame), "UDP checksum failed for payload len {}", payload.len());
    }
}

#[test]
fn test_udp_pseudo_header_checksum() {
    let src_ip = [192, 168, 1, 1];
    let dst_ip = [192, 168, 1, 2];
    let udp_len: u16 = 12; // 8 header + 4 payload

    let phdr_cksum = udp_pseudo_header_checksum(&src_ip, &dst_ip, udp_len);

    // The pseudo-header checksum should be non-zero for real addresses
    assert_ne!(phdr_cksum, 0);

    // Verify it's the correct partial sum: add the rest of the UDP data
    // and it should match the full checksum
    let udp_header = [
        0x30, 0x39, // Source port (12345)
        0x23, 0x28, // Dest port (9000)
        0x00, 0x0c, // Length (12)
        0x00, 0x00, // Checksum placeholder
    ];
    let payload = b"test";

    let full_cksum = udp_checksum(&src_ip, &dst_ip, &udp_header, payload);

    // The pseudo-header checksum is the starting point for the full calculation.
    // Verify both produce valid non-zero results.
    assert_ne!(phdr_cksum, 0);
    assert_ne!(full_cksum, 0);
}

#[test]
fn test_constants() {
    assert_eq!(ETH_HEADER_LEN, 14);
    assert_eq!(IPV4_HEADER_LEN, 20);
    assert_eq!(UDP_HEADER_LEN, 8);
    assert_eq!(TOTAL_HEADER_LEN, 42);
    assert_eq!(MAX_UDP_PAYLOAD, 1472);
}

#[test]
fn test_payload_too_large() {
    let large_payload = vec![0u8; MAX_UDP_PAYLOAD + 1];
    // This would fail in build_udp_packet, but we can test the error type exists
    let err = UdpError::PayloadTooLarge { max: MAX_UDP_PAYLOAD, actual: large_payload.len() };
    assert!(err.message().contains("too large"));
}

/// Helper to build a valid UDP packet for testing
fn build_test_udp_frame(
    src_ip: [u8; 4],
    dst_ip: [u8; 4],
    src_port: u16,
    dst_port: u16,
    payload: &[u8],
) -> Vec<u8> {
    let total_len = TOTAL_HEADER_LEN + payload.len();
    let mut frame = vec![0u8; total_len];

    // Ethernet header
    frame[0..6].copy_from_slice(&[0x11, 0x22, 0x33, 0x44, 0x55, 0x66]); // dst mac
    frame[6..12].copy_from_slice(&[0xaa, 0xbb, 0xcc, 0xdd, 0xee, 0xff]); // src mac
    frame[12..14].copy_from_slice(&ETH_TYPE_IPV4.to_be_bytes());

    // IP header
    let ip_start = ETH_HEADER_LEN;
    frame[ip_start] = 0x45; // version 4, IHL 5
    frame[ip_start + 1] = 0x00; // DSCP/ECN
    let ip_total_len = (IPV4_HEADER_LEN + UDP_HEADER_LEN + payload.len()) as u16;
    frame[ip_start + 2..ip_start + 4].copy_from_slice(&ip_total_len.to_be_bytes());
    frame[ip_start + 8] = 64; // TTL
    frame[ip_start + 9] = IP_PROTO_UDP;
    frame[ip_start + 12..ip_start + 16].copy_from_slice(&src_ip);
    frame[ip_start + 16..ip_start + 20].copy_from_slice(&dst_ip);

    // UDP header
    let udp_start = ETH_HEADER_LEN + IPV4_HEADER_LEN;
    frame[udp_start..udp_start + 2].copy_from_slice(&src_port.to_be_bytes());
    frame[udp_start + 2..udp_start + 4].copy_from_slice(&dst_port.to_be_bytes());
    let udp_len = (UDP_HEADER_LEN + payload.len()) as u16;
    frame[udp_start + 4..udp_start + 6].copy_from_slice(&udp_len.to_be_bytes());

    // Payload
    frame[TOTAL_HEADER_LEN..].copy_from_slice(payload);

    frame
}

#[test]
fn test_parse_udp_packet_valid() {
    let frame = build_test_udp_frame(
        [192, 168, 1, 100],
        [192, 168, 1, 1],
        12345,
        9000,
        b"hello world",
    );

    let parsed = parse_udp_packet(&frame);
    assert!(parsed.is_some());

    let p = parsed.unwrap();
    assert_eq!(p.src_ip, Ipv4Addr::new(192, 168, 1, 100));
    assert_eq!(p.dst_ip, Ipv4Addr::new(192, 168, 1, 1));
    assert_eq!(p.src_port, 12345);
    assert_eq!(p.dst_port, 9000);
    assert_eq!(p.payload, b"hello world");
}

#[test]
fn test_parse_udp_packet_empty_payload() {
    let frame = build_test_udp_frame(
        [10, 0, 0, 1],
        [10, 0, 0, 2],
        8080,
        80,
        b"",
    );

    let parsed = parse_udp_packet(&frame);
    assert!(parsed.is_some());

    let p = parsed.unwrap();
    assert_eq!(p.src_port, 8080);
    assert_eq!(p.dst_port, 80);
    assert!(p.payload.is_empty());
}

#[test]
fn test_parse_udp_packet_too_short() {
    let frame = vec![0u8; 10]; // Way too short
    let parsed = parse_udp_packet(&frame);
    assert!(parsed.is_none());
}

#[test]
fn test_parse_udp_packet_wrong_ethertype() {
    let mut frame = build_test_udp_frame(
        [192, 168, 1, 1],
        [192, 168, 1, 2],
        1234,
        5678,
        b"test",
    );
    // Change ethertype to ARP
    frame[12..14].copy_from_slice(&0x0806u16.to_be_bytes());

    let parsed = parse_udp_packet(&frame);
    assert!(parsed.is_none());
}

#[test]
fn test_parse_udp_packet_not_udp() {
    let mut frame = build_test_udp_frame(
        [192, 168, 1, 1],
        [192, 168, 1, 2],
        1234,
        5678,
        b"test",
    );
    // Change protocol to TCP (6)
    frame[ETH_HEADER_LEN + 9] = 6;

    let parsed = parse_udp_packet(&frame);
    assert!(parsed.is_none());
}

#[test]
fn test_parse_udp_packet_extracts_macs() {
    let frame = build_test_udp_frame(
        [10, 0, 0, 1],
        [10, 0, 0, 2],
        1000,
        2000,
        b"x",
    );

    let parsed = parse_udp_packet(&frame).unwrap();
    assert_eq!(parsed.src_mac, [0xaa, 0xbb, 0xcc, 0xdd, 0xee, 0xff]);
    assert_eq!(parsed.dst_mac, [0x11, 0x22, 0x33, 0x44, 0x55, 0x66]);
}

#[test]
fn test_parsed_udp_packet_debug() {
    let frame = build_test_udp_frame([1, 2, 3, 4], [5, 6, 7, 8], 100, 200, b"x");
    let parsed = parse_udp_packet(&frame).unwrap();
    // Just ensure Debug is implemented and doesn't panic
    let _ = format!("{:?}", parsed);
}

#[test]
fn test_build_udp_frame_basic() {
    let src_mac = [0x11, 0x22, 0x33, 0x44, 0x55, 0x66];
    let dst_mac = [0xaa, 0xbb, 0xcc, 0xdd, 0xee, 0xff];
    let src_ip = Ipv4Addr::new(192, 168, 1, 1);
    let dst_ip = Ipv4Addr::new(192, 168, 1, 2);

    let frame = build_udp_frame(
        &src_mac, &dst_mac,
        src_ip, dst_ip,
        12345, 9000,
        b"hello world",
        64,
    );
    assert!(frame.is_ok());

    let frame = frame.unwrap();
    assert_eq!(frame.len(), TOTAL_HEADER_LEN + 11); // 42 + "hello world"

    // Parse it back
    let parsed = parse_udp_packet(&frame);
    assert!(parsed.is_some());

    let p = parsed.unwrap();
    assert_eq!(p.src_mac, src_mac);
    assert_eq!(p.dst_mac, dst_mac);
    assert_eq!(p.src_ip, src_ip);
    assert_eq!(p.dst_ip, dst_ip);
    assert_eq!(p.src_port, 12345);
    assert_eq!(p.dst_port, 9000);
    assert_eq!(p.payload, b"hello world");
}

#[test]
fn test_build_udp_frame_empty_payload() {
    let frame = build_udp_frame(
        &[0; 6], &[0xff; 6],
        Ipv4Addr::new(10, 0, 0, 1),
        Ipv4Addr::new(10, 0, 0, 2),
        8080, 80,
        b"",
        128,
    ).unwrap();

    assert_eq!(frame.len(), TOTAL_HEADER_LEN);
    let parsed = parse_udp_packet(&frame).unwrap();
    assert!(parsed.payload.is_empty());
}

#[test]
fn test_build_udp_frame_payload_too_large() {
    let max_payload = MAX_FRAME_SIZE - TOTAL_HEADER_LEN;
    let large_payload = vec![0u8; max_payload + 1];
    let result = build_udp_frame(
        &[0; 6], &[0; 6],
        Ipv4Addr::unspecified(), Ipv4Addr::unspecified(),
        0, 0,
        &large_payload,
        64,
    );
    assert!(result.is_err());
}

#[test]
fn test_build_udp_frame_checksums_valid() {
    let frame = build_udp_frame(
        &[0x11, 0x22, 0x33, 0x44, 0x55, 0x66],
        &[0xaa, 0xbb, 0xcc, 0xdd, 0xee, 0xff],
        Ipv4Addr::new(172, 16, 0, 1),
        Ipv4Addr::new(172, 16, 0, 2),
        5000, 6000,
        b"checksum test data",
        64,
    ).unwrap();

    // Verify IP checksum (should be valid when recalculated)
    let ip_start = ETH_HEADER_LEN;
    let ip_verify = ipv4_checksum(&frame[ip_start..ip_start + IPV4_HEADER_LEN]);
    assert_eq!(ip_verify, 0, "IP checksum should verify to 0");
}

#[test]
fn test_build_udp_frame_roundtrip() {
    // Build and parse various frame sizes
    for payload_size in [0, 1, 100, 500, 1000, MAX_UDP_PAYLOAD] {
        let payload = vec![0xAB; payload_size];
        let frame = build_udp_frame(
            &[1, 2, 3, 4, 5, 6],
            &[7, 8, 9, 10, 11, 12],
            Ipv4Addr::new(1, 2, 3, 4),
            Ipv4Addr::new(5, 6, 7, 8),
            1111, 2222,
            &payload,
            255,
        ).unwrap();

        let parsed = parse_udp_packet(&frame).unwrap();
        assert_eq!(parsed.payload.len(), payload_size);
        assert_eq!(parsed.payload, payload);
    }
}
