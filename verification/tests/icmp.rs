//! ICMP packets, errors and the handler.

use dpdk_udp::addr::Ipv4Addr;
use dpdk_udp::constants::{ETH_HEADER_LEN, ETH_TYPE_IPV4, IPV4_HEADER_LEN, IP_PROTO_UDP};
use dpdk_udp::error::ErrorKind;
use dpdk_udp::icmp::{
    ICMP_CODE_ADMIN_PROHIBITED, ICMP_CODE_ECHO, ICMP_CODE_FRAG_NEEDED, ICMP_CODE_HOST_UNREACHABLE,
    ICMP_CODE_PORT_UNREACHABLE, ICMP_CODE_TTL_EXCEEDED, ICMP_HEADER_LEN, ICMP_TYPE_DEST_UNREACHABLE,
    ICMP_TYPE_ECHO_REPLY, ICMP_TYPE_ECHO_REQUEST, ICMP_TYPE_PARAMETER_PROBLEM,
    ICMP_TYPE_TIME_EXCEEDED, IP_PROTO_ICMP, IcmpAction, IcmpErrorInfo, IcmpHandler, IcmpPacket,
    MIN_ICMP_PACKET_LEN, build_echo_request, icmp_checksum, parse_icmp_error, parse_icmp_packet,
};

fn build_test_icmp_frame(
    src_mac: [u8; 6],
    dst_mac: [u8; 6],
    src_ip: Ipv4Addr,
    dst_ip: Ipv4Addr,
    icmp_type: u8,
    icmp_code: u8,
    identifier: u16,
    sequence: u16,
    payload: &[u8],
) -> Vec<u8> {
    let total_len = MIN_ICMP_PACKET_LEN + payload.len();
    let mut frame = vec![0u8; total_len];

    // Ethernet
    frame[0..6].copy_from_slice(&dst_mac);
    frame[6..12].copy_from_slice(&src_mac);
    frame[12..14].copy_from_slice(&ETH_TYPE_IPV4.to_be_bytes());

    // IP
    let ip_start = ETH_HEADER_LEN;
    let ip_total_len = (IPV4_HEADER_LEN + ICMP_HEADER_LEN + payload.len()) as u16;
    frame[ip_start] = 0x45;
    frame[ip_start + 2..ip_start + 4].copy_from_slice(&ip_total_len.to_be_bytes());
    frame[ip_start + 8] = 64; // TTL
    frame[ip_start + 9] = IP_PROTO_ICMP;
    frame[ip_start + 12..ip_start + 16].copy_from_slice(&src_ip.octets());
    frame[ip_start + 16..ip_start + 20].copy_from_slice(&dst_ip.octets());

    // ICMP
    let icmp_start = ETH_HEADER_LEN + IPV4_HEADER_LEN;
    frame[icmp_start] = icmp_type;
    frame[icmp_start + 1] = icmp_code;
    frame[icmp_start + 4..icmp_start + 6].copy_from_slice(&identifier.to_be_bytes());
    frame[icmp_start + 6..icmp_start + 8].copy_from_slice(&sequence.to_be_bytes());

    // Payload
    if !payload.is_empty() {
        frame[icmp_start + ICMP_HEADER_LEN..].copy_from_slice(payload);
    }

    // Calculate ICMP checksum
    let icmp_cksum = icmp_checksum(&frame[icmp_start..]);
    frame[icmp_start + 2..icmp_start + 4].copy_from_slice(&icmp_cksum.to_be_bytes());

    frame
}

#[test]
fn test_icmp_constants() {
    assert_eq!(IP_PROTO_ICMP, 1);
    assert_eq!(ICMP_TYPE_ECHO_REPLY, 0);
    assert_eq!(ICMP_TYPE_ECHO_REQUEST, 8);
    assert_eq!(ICMP_HEADER_LEN, 8);
}

#[test]
fn test_parse_echo_request() {
    let src_mac = [0xaa, 0xbb, 0xcc, 0xdd, 0xee, 0xff];
    let dst_mac = [0x11, 0x22, 0x33, 0x44, 0x55, 0x66];
    let src_ip = Ipv4Addr::new(192, 168, 1, 100);
    let dst_ip = Ipv4Addr::new(192, 168, 1, 1);

    let frame = build_test_icmp_frame(
        src_mac,
        dst_mac,
        src_ip,
        dst_ip,
        ICMP_TYPE_ECHO_REQUEST,
        ICMP_CODE_ECHO,
        0x1234,
        0x0001,
        b"ping payload",
    );

    let parsed = parse_icmp_packet(&frame);
    assert!(parsed.is_some());

    let p = parsed.unwrap();
    assert!(p.is_echo_request());
    assert!(!p.is_echo_reply());
    assert_eq!(p.src_ip, src_ip);
    assert_eq!(p.dst_ip, dst_ip);
    assert_eq!(p.identifier, 0x1234);
    assert_eq!(p.sequence, 0x0001);
    assert_eq!(p.payload, b"ping payload");
}

#[test]
fn test_parse_echo_reply() {
    let src_mac = [0x11, 0x22, 0x33, 0x44, 0x55, 0x66];
    let dst_mac = [0xaa, 0xbb, 0xcc, 0xdd, 0xee, 0xff];
    let src_ip = Ipv4Addr::new(192, 168, 1, 1);
    let dst_ip = Ipv4Addr::new(192, 168, 1, 100);

    let frame = build_test_icmp_frame(
        src_mac,
        dst_mac,
        src_ip,
        dst_ip,
        ICMP_TYPE_ECHO_REPLY,
        ICMP_CODE_ECHO,
        0x1234,
        0x0001,
        b"pong",
    );

    let parsed = parse_icmp_packet(&frame);
    assert!(parsed.is_some());

    let p = parsed.unwrap();
    assert!(!p.is_echo_request());
    assert!(p.is_echo_reply());
}

#[test]
fn icmp_test_parse_invalid_frame() {
    // Too short
    let short = [0u8; 10];
    assert!(parse_icmp_packet(&short).is_none());

    // Wrong protocol
    let mut frame = build_test_icmp_frame(
        [1; 6], [2; 6],
        Ipv4Addr::new(1, 2, 3, 4),
        Ipv4Addr::new(5, 6, 7, 8),
        ICMP_TYPE_ECHO_REQUEST,
        0,
        0,
        0,
        b"",
    );
    frame[ETH_HEADER_LEN + 9] = 17; // Change to UDP
    assert!(parse_icmp_packet(&frame).is_none());
}

#[test]
fn test_make_echo_reply() {
    let src_mac = [0xaa, 0xbb, 0xcc, 0xdd, 0xee, 0xff];
    let dst_mac = [0x11, 0x22, 0x33, 0x44, 0x55, 0x66];
    let src_ip = Ipv4Addr::new(192, 168, 1, 100);
    let dst_ip = Ipv4Addr::new(192, 168, 1, 1);

    let request = IcmpPacket {
        src_mac,
        dst_mac,
        src_ip,
        dst_ip,
        ttl: 64,
        icmp_type: ICMP_TYPE_ECHO_REQUEST,
        icmp_code: ICMP_CODE_ECHO,
        checksum: 0,
        identifier: 0x1234,
        sequence: 42,
        payload: b"test data".to_vec(),
    };

    let reply_mac = [0x11, 0x22, 0x33, 0x44, 0x55, 0x66];
    let reply = request.make_echo_reply(reply_mac);
    assert!(reply.is_some());

    let r = reply.unwrap();
    assert!(r.is_echo_reply());
    assert_eq!(r.src_mac, reply_mac);
    assert_eq!(r.dst_mac, src_mac); // Reply goes back to requester
    assert_eq!(r.src_ip, dst_ip); // Our IP
    assert_eq!(r.dst_ip, src_ip); // Requester's IP
    assert_eq!(r.identifier, 0x1234); // Same identifier
    assert_eq!(r.sequence, 42); // Same sequence
    assert_eq!(r.payload, b"test data"); // Same payload
}

#[test]
fn test_make_echo_reply_not_request() {
    let reply_packet = IcmpPacket {
        src_mac: [1; 6],
        dst_mac: [2; 6],
        src_ip: Ipv4Addr::new(1, 2, 3, 4),
        dst_ip: Ipv4Addr::new(5, 6, 7, 8),
        ttl: 64,
        icmp_type: ICMP_TYPE_ECHO_REPLY, // Already a reply
        icmp_code: ICMP_CODE_ECHO,
        checksum: 0,
        identifier: 0,
        sequence: 0,
        payload: vec![],
    };

    // Can't make a reply from a reply
    assert!(reply_packet.make_echo_reply([3; 6]).is_none());
}

#[test]
fn test_build_and_parse_roundtrip() {
    let src_mac = [0x11, 0x22, 0x33, 0x44, 0x55, 0x66];
    let dst_mac = [0xaa, 0xbb, 0xcc, 0xdd, 0xee, 0xff];
    let src_ip = Ipv4Addr::new(10, 0, 0, 1);
    let dst_ip = Ipv4Addr::new(10, 0, 0, 2);
    let payload = b"roundtrip test payload";

    let frame = build_echo_request(
        src_mac,
        dst_mac,
        src_ip,
        dst_ip,
        0xABCD,
        0x0042,
        payload,
    );

    let parsed = parse_icmp_packet(&frame);
    assert!(parsed.is_some());

    let p = parsed.unwrap();
    assert!(p.is_echo_request());
    assert_eq!(p.src_mac, src_mac);
    assert_eq!(p.dst_mac, dst_mac);
    assert_eq!(p.src_ip, src_ip);
    assert_eq!(p.dst_ip, dst_ip);
    assert_eq!(p.identifier, 0xABCD);
    assert_eq!(p.sequence, 0x0042);
    assert_eq!(p.payload, payload);
}

#[test]
fn test_icmp_checksum() {
    // Simple checksum test with known values
    let data = [
        0x08, 0x00, // Type, Code
        0x00, 0x00, // Checksum placeholder
        0x12, 0x34, // Identifier
        0x00, 0x01, // Sequence
    ];
    let checksum = icmp_checksum(&data);
    assert_ne!(checksum, 0);

    // Verify: checksum of data with correct checksum should be 0
    let mut with_checksum = data.clone();
    with_checksum[2..4].copy_from_slice(&checksum.to_be_bytes());
    assert_eq!(icmp_checksum(&with_checksum), 0);
}

#[test]
fn test_icmp_handler_echo_reply() {
    let local_mac = [0x11, 0x22, 0x33, 0x44, 0x55, 0x66];
    let local_ip = Ipv4Addr::new(192, 168, 1, 1);
    let handler = IcmpHandler::new(local_mac, local_ip);

    let requester_mac = [0xaa, 0xbb, 0xcc, 0xdd, 0xee, 0xff];
    let requester_ip = Ipv4Addr::new(192, 168, 1, 100);

    // Create echo request
    let request = build_echo_request(
        requester_mac,
        local_mac,
        requester_ip,
        local_ip,
        0x1234,
        1,
        b"ping",
    );

    // Process it
    let reply = handler.process_icmp(&request);
    assert!(reply.is_some());

    // Verify reply
    let reply_parsed = parse_icmp_packet(&reply.unwrap());
    assert!(reply_parsed.is_some());

    let r = reply_parsed.unwrap();
    assert!(r.is_echo_reply());
    assert_eq!(r.src_ip, local_ip);
    assert_eq!(r.dst_ip, requester_ip);
    assert_eq!(r.identifier, 0x1234);
    assert_eq!(r.sequence, 1);
    assert_eq!(r.payload, b"ping");
}

#[test]
fn test_icmp_handler_ignores_other_ips() {
    let local_mac = [0x11, 0x22, 0x33, 0x44, 0x55, 0x66];
    let local_ip = Ipv4Addr::new(192, 168, 1, 1);
    let handler = IcmpHandler::new(local_mac, local_ip);

    let other_ip = Ipv4Addr::new(192, 168, 1, 99);
    let requester_mac = [0xaa, 0xbb, 0xcc, 0xdd, 0xee, 0xff];
    let requester_ip = Ipv4Addr::new(192, 168, 1, 100);

    // Create echo request for a different IP
    let request = build_echo_request(
        requester_mac,
        local_mac,
        requester_ip,
        other_ip, // Not our IP
        0x1234,
        1,
        b"ping",
    );

    // Should not respond
    let reply = handler.process_icmp(&request);
    assert!(reply.is_none());
}

#[test]
fn test_icmp_handler_multiple_ips() {
    let local_mac = [0x11, 0x22, 0x33, 0x44, 0x55, 0x66];
    let local_ip1 = Ipv4Addr::new(192, 168, 1, 1);
    let local_ip2 = Ipv4Addr::new(10, 0, 0, 1);

    let mut handler = IcmpHandler::new(local_mac, local_ip1);
    handler.add_local_ip(local_ip2);

    let requester_mac = [0xaa, 0xbb, 0xcc, 0xdd, 0xee, 0xff];
    let requester_ip = Ipv4Addr::new(192, 168, 1, 100);

    // Should respond to both IPs
    let request1 = build_echo_request(
        requester_mac, local_mac, requester_ip, local_ip1, 1, 1, b"",
    );
    assert!(handler.process_icmp(&request1).is_some());

    let request2 = build_echo_request(
        requester_mac, local_mac, requester_ip, local_ip2, 2, 1, b"",
    );
    assert!(handler.process_icmp(&request2).is_some());
}

/// Build a synthetic ICMP error frame embedding an original UDP datagram header.
///
/// Layout: [Eth 14][Outer IP 20][ICMP Hdr 8][Original IP 20][Original UDP 8]
fn build_test_icmp_error_frame(
    src_mac: [u8; 6],
    dst_mac: [u8; 6],
    error_src_ip: Ipv4Addr,
    error_dst_ip: Ipv4Addr,
    icmp_type: u8,
    icmp_code: u8,
    next_hop_mtu: u16,
    orig_src_ip: Ipv4Addr,
    orig_dst_ip: Ipv4Addr,
    orig_src_port: u16,
    orig_dst_port: u16,
) -> Vec<u8> {
    // Total: Eth(14) + outer IP(20) + ICMP(8) + orig IP(20) + orig UDP(8) = 70
    let total = 14 + 20 + 8 + 20 + 8;
    let mut frame = vec![0u8; total];

    // Ethernet header
    frame[0..6].copy_from_slice(&dst_mac);
    frame[6..12].copy_from_slice(&src_mac);
    frame[12..14].copy_from_slice(&ETH_TYPE_IPV4.to_be_bytes());

    // Outer IP header
    let ip = 14;
    frame[ip] = 0x45;
    let outer_total_len = (20 + 8 + 20 + 8) as u16;
    frame[ip + 2..ip + 4].copy_from_slice(&outer_total_len.to_be_bytes());
    frame[ip + 8] = 64; // TTL
    frame[ip + 9] = IP_PROTO_ICMP;
    frame[ip + 12..ip + 16].copy_from_slice(&error_src_ip.octets());
    frame[ip + 16..ip + 20].copy_from_slice(&error_dst_ip.octets());

    // ICMP header
    let icmp = 34;
    frame[icmp] = icmp_type;
    frame[icmp + 1] = icmp_code;
    // bytes 4-5: unused (or pointer for param problem)
    // bytes 6-7: next-hop MTU for frag needed
    frame[icmp + 6..icmp + 8].copy_from_slice(&next_hop_mtu.to_be_bytes());

    // Original IP header (embedded in ICMP payload)
    let orig_ip = 42;
    frame[orig_ip] = 0x45;
    let orig_total_len = (20 + 8) as u16;
    frame[orig_ip + 2..orig_ip + 4].copy_from_slice(&orig_total_len.to_be_bytes());
    frame[orig_ip + 8] = 64;
    frame[orig_ip + 9] = IP_PROTO_UDP;
    frame[orig_ip + 12..orig_ip + 16].copy_from_slice(&orig_src_ip.octets());
    frame[orig_ip + 16..orig_ip + 20].copy_from_slice(&orig_dst_ip.octets());

    // Original UDP header (first 8 bytes)
    let orig_udp = 62;
    frame[orig_udp..orig_udp + 2].copy_from_slice(&orig_src_port.to_be_bytes());
    frame[orig_udp + 2..orig_udp + 4].copy_from_slice(&orig_dst_port.to_be_bytes());

    // Compute ICMP checksum
    let cksum = icmp_checksum(&frame[icmp..]);
    frame[icmp + 2..icmp + 4].copy_from_slice(&cksum.to_be_bytes());

    frame
}

#[test]
fn test_parse_icmp_error_port_unreachable() {
    let router_ip = Ipv4Addr::new(10, 0, 1, 1);
    let our_ip = Ipv4Addr::new(10, 0, 1, 100);
    let peer_ip = Ipv4Addr::new(10, 0, 2, 200);

    let frame = build_test_icmp_error_frame(
        [0xaa; 6], [0xbb; 6],
        router_ip, our_ip,
        ICMP_TYPE_DEST_UNREACHABLE, ICMP_CODE_PORT_UNREACHABLE, 0,
        our_ip, peer_ip, 12345, 9000,
    );

    let err = parse_icmp_error(&frame).expect("should parse");
    assert_eq!(err.icmp_type, ICMP_TYPE_DEST_UNREACHABLE);
    assert_eq!(err.icmp_code, ICMP_CODE_PORT_UNREACHABLE);
    assert_eq!(err.error_source, router_ip);
    assert_eq!(err.original_src_ip, our_ip);
    assert_eq!(err.original_dst_ip, peer_ip);
    assert_eq!(err.original_src_port, 12345);
    assert_eq!(err.original_dst_port, 9000);
    assert_eq!(err.next_hop_mtu, 0);
}

#[test]
fn test_parse_icmp_error_frag_needed_with_mtu() {
    let router_ip = Ipv4Addr::new(10, 0, 1, 1);
    let our_ip = Ipv4Addr::new(10, 0, 1, 100);
    let peer_ip = Ipv4Addr::new(10, 0, 2, 200);

    let frame = build_test_icmp_error_frame(
        [0xaa; 6], [0xbb; 6],
        router_ip, our_ip,
        ICMP_TYPE_DEST_UNREACHABLE, ICMP_CODE_FRAG_NEEDED, 1280,
        our_ip, peer_ip, 12345, 9000,
    );

    let err = parse_icmp_error(&frame).expect("should parse");
    assert_eq!(err.icmp_code, ICMP_CODE_FRAG_NEEDED);
    assert_eq!(err.next_hop_mtu, 1280);
}

#[test]
fn test_parse_icmp_error_ttl_exceeded() {
    let router_ip = Ipv4Addr::new(10, 0, 1, 1);
    let our_ip = Ipv4Addr::new(10, 0, 1, 100);
    let peer_ip = Ipv4Addr::new(10, 0, 2, 200);

    let frame = build_test_icmp_error_frame(
        [0xaa; 6], [0xbb; 6],
        router_ip, our_ip,
        ICMP_TYPE_TIME_EXCEEDED, ICMP_CODE_TTL_EXCEEDED, 0,
        our_ip, peer_ip, 5000, 8080,
    );

    let err = parse_icmp_error(&frame).expect("should parse");
    assert_eq!(err.icmp_type, ICMP_TYPE_TIME_EXCEEDED);
    assert_eq!(err.icmp_code, ICMP_CODE_TTL_EXCEEDED);
    assert_eq!(err.original_src_port, 5000);
    assert_eq!(err.original_dst_port, 8080);
}

#[test]
fn test_parse_icmp_error_rejects_echo() {
    // Echo request should not be parsed as an error
    let frame = build_echo_request(
        [0xaa; 6], [0xbb; 6],
        Ipv4Addr::new(1, 2, 3, 4),
        Ipv4Addr::new(5, 6, 7, 8),
        1, 1, b"hello",
    );
    assert!(parse_icmp_error(&frame).is_none());
}

#[test]
fn test_parse_icmp_error_rejects_non_udp() {
    // Build an ICMP error whose original datagram is TCP (proto 6), not UDP
    let router_ip = Ipv4Addr::new(10, 0, 1, 1);
    let our_ip = Ipv4Addr::new(10, 0, 1, 100);
    let peer_ip = Ipv4Addr::new(10, 0, 2, 200);

    let mut frame = build_test_icmp_error_frame(
        [0xaa; 6], [0xbb; 6],
        router_ip, our_ip,
        ICMP_TYPE_DEST_UNREACHABLE, ICMP_CODE_PORT_UNREACHABLE, 0,
        our_ip, peer_ip, 12345, 9000,
    );

    // Overwrite the original IP protocol from UDP(17) to TCP(6)
    frame[42 + 9] = 6;
    assert!(parse_icmp_error(&frame).is_none());
}

#[test]
fn test_parse_icmp_error_too_short() {
    // Frame shorter than minimum ICMP error size
    let short = [0u8; 50];
    assert!(parse_icmp_error(&short).is_none());
}

#[test]
fn test_icmp_error_to_io_error_types() {
    let base = IcmpErrorInfo {
        icmp_type: ICMP_TYPE_DEST_UNREACHABLE,
        icmp_code: ICMP_CODE_PORT_UNREACHABLE,
        error_source: Ipv4Addr::new(10, 0, 1, 1),
        original_dst_ip: Ipv4Addr::new(10, 0, 2, 200),
        original_src_ip: Ipv4Addr::new(10, 0, 1, 100),
        original_dst_port: 9000,
        original_src_port: 12345,
        next_hop_mtu: 0,
    };

    // Port unreachable -> ConnectionRefused
    let err = base.to_io_error();
    assert_eq!(err.kind(), ErrorKind::ConnectionRefused);

    // Host unreachable -> Other (EHOSTUNREACH)
    let mut info = base.clone();
    info.icmp_code = ICMP_CODE_HOST_UNREACHABLE;
    assert_eq!(info.to_io_error().kind(), ErrorKind::Other);

    // Admin prohibited -> PermissionDenied
    let mut info = base.clone();
    info.icmp_code = ICMP_CODE_ADMIN_PROHIBITED;
    assert_eq!(info.to_io_error().kind(), ErrorKind::PermissionDenied);

    // TTL exceeded -> TimedOut
    let mut info = base.clone();
    info.icmp_type = ICMP_TYPE_TIME_EXCEEDED;
    info.icmp_code = ICMP_CODE_TTL_EXCEEDED;
    assert_eq!(info.to_io_error().kind(), ErrorKind::TimedOut);

    // Parameter problem -> InvalidData
    let mut info = base.clone();
    info.icmp_type = ICMP_TYPE_PARAMETER_PROBLEM;
    info.icmp_code = 0;
    assert_eq!(info.to_io_error().kind(), ErrorKind::InvalidData);
}

#[test]
fn test_handler_process_icmp_full_echo() {
    let local_mac = [0x11; 6];
    let local_ip = Ipv4Addr::new(192, 168, 1, 1);
    let handler = IcmpHandler::new(local_mac, local_ip);

    let frame = build_echo_request(
        [0xaa; 6], local_mac,
        Ipv4Addr::new(192, 168, 1, 100), local_ip,
        1, 1, b"ping",
    );

    match handler.process_icmp_full(&frame) {
        Some(IcmpAction::Reply(_)) => {} // expected
        other => panic!("expected Reply, got {:?}", other.is_some()),
    }
}

#[test]
fn test_handler_process_icmp_full_error() {
    let local_mac = [0x11; 6];
    let local_ip = Ipv4Addr::new(10, 0, 1, 100);
    let handler = IcmpHandler::new(local_mac, local_ip);

    let frame = build_test_icmp_error_frame(
        [0xaa; 6], local_mac,
        Ipv4Addr::new(10, 0, 1, 1), local_ip,
        ICMP_TYPE_DEST_UNREACHABLE, ICMP_CODE_HOST_UNREACHABLE, 0,
        local_ip, Ipv4Addr::new(10, 0, 2, 200), 5000, 9000,
    );

    match handler.process_icmp_full(&frame) {
        Some(IcmpAction::Error(info)) => {
            assert_eq!(info.icmp_type, ICMP_TYPE_DEST_UNREACHABLE);
            assert_eq!(info.icmp_code, ICMP_CODE_HOST_UNREACHABLE);
            assert_eq!(info.original_src_port, 5000);
        }
        other => panic!("expected Error, got {:?}", other.is_some()),
    }
}

#[test]
fn test_handler_process_icmp_full_ignores_error_for_other_ip() {
    let local_mac = [0x11; 6];
    let local_ip = Ipv4Addr::new(10, 0, 1, 100);
    let other_ip = Ipv4Addr::new(10, 0, 1, 200);
    let handler = IcmpHandler::new(local_mac, local_ip);

    // Error about a datagram originating from other_ip, not us
    let frame = build_test_icmp_error_frame(
        [0xaa; 6], local_mac,
        Ipv4Addr::new(10, 0, 1, 1), local_ip,
        ICMP_TYPE_DEST_UNREACHABLE, ICMP_CODE_PORT_UNREACHABLE, 0,
        other_ip, Ipv4Addr::new(10, 0, 2, 200), 5000, 9000,
    );

    assert!(handler.process_icmp_full(&frame).is_none());
}
