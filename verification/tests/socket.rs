//! Buffering, errors and counters of a socket.

use dpdk_udp::addr::{Ipv4Addr, SocketAddr, SocketAddrV4};
use dpdk_udp::arp::ArpCache;
use dpdk_udp::backend::{HwRxOffload, HwTxOffload};
use dpdk_udp::bind::{BackendInfo, EphemeralPorts};
use dpdk_udp::constants::ETH_TYPE_IPV4;
use dpdk_udp::error::{ErrorKind, IoError};
use dpdk_udp::icmp::{
    ICMP_CODE_PORT_UNREACHABLE, ICMP_TYPE_DEST_UNREACHABLE, IP_PROTO_ICMP, icmp_checksum,
};
use dpdk_udp::recv_queue::DEFAULT_RECV_BUFFER_BYTES;
use dpdk_udp::socket::UdpSocket;

/// A time on the test clock, in nanoseconds.
const NOW: u64 = 1_000_000_000;

/// A socket on the loopback address, on a backend without offloads.
fn bind_local() -> UdpSocket {
    let backend = BackendInfo {
        mac: [0x02, 0x00, 0x00, 0x00, 0x00, 0x01],
        mtu: 1500,
        tx_offload: HwTxOffload { ipv4_cksum: false, udp_cksum: false, vlan_insert: false },
        rx_offload: HwRxOffload { ipv4_cksum: false, udp_cksum: false, vlan_strip: false },
    };
    let addr = SocketAddr::V4(SocketAddrV4::new(Ipv4Addr::new(127, 0, 0, 1), 0));
    UdpSocket::bind(Some(addr), &backend, ArpCache::new(), None, NOW, &mut EphemeralPorts::new())
        .expect("bind should succeed")
}

/// Dummy source address used in all ReceiveQueue tests.
fn test_src() -> SocketAddr {
    SocketAddr::V4(SocketAddrV4::new(Ipv4Addr::new(10, 0, 0, 1), 1234))
}

#[test]
fn socket_default_recv_buffer_size_matches_constant() {
    let mut socket = bind_local();
    assert_eq!(socket.recv_buffer_size(), DEFAULT_RECV_BUFFER_BYTES);
}

#[test]
fn socket_set_recv_buffer_size_roundtrip() {
    let mut socket = bind_local();
    socket.set_recv_buffer_size(128 * 1024).unwrap();
    assert_eq!(socket.recv_buffer_size(), 128 * 1024);

    socket.set_recv_buffer_size(1 * 1024 * 1024).unwrap();
    assert_eq!(socket.recv_buffer_size(), 1024 * 1024);
}

#[test]
fn socket_set_recv_buffer_size_rejects_zero() {
    let mut socket = bind_local();
    let err = socket.set_recv_buffer_size(0).unwrap_err();
    assert_eq!(err.kind(), ErrorKind::InvalidInput);
}

#[test]
fn socket_drop_counters_start_at_zero() {
    let mut socket = bind_local();
    let drops = socket.recv_drops();
    assert_eq!(drops.packets, 0);
    assert_eq!(drops.bytes, 0);
}

#[test]
fn socket_record_rx_drop_bumps_counters() {
    let mut socket = bind_local();
    socket.record_rx_drop(1400);
    socket.record_rx_drop(600);

    let drops = socket.recv_drops();
    assert_eq!(drops.packets, 2);
    assert_eq!(drops.bytes, 2000);
}

#[test]
fn socket_reset_recv_drops_zeros_counters() {
    let mut socket = bind_local();
    socket.record_rx_drop(512);
    socket.record_rx_drop(512);
    assert_eq!(socket.recv_drops().packets, 2);

    socket.reset_recv_drops();
    let drops = socket.recv_drops();
    assert_eq!(drops.packets, 0);
    assert_eq!(drops.bytes, 0);
}

#[test]
fn socket_record_rx_drop_also_bumps_perf_counter() {
    let mut socket = bind_local();
    socket.record_rx_drop(100);
    socket.record_rx_drop(200);
    // Perf counter is shared via Arc — the socket holds it directly.
    let snap = *socket.perf_counters();
    assert_eq!(snap.rx_drops_buffer_full, 2);
}

#[test]
fn recv_buffer_bytes_tracks_queued_payload() {
    let mut socket = bind_local();
    assert_eq!(socket.recv_buffer_bytes(), 0);

    // Push directly into the queue to simulate buffered packets.
    {
        let q = &mut socket.recv_queue;
        q.push(vec![0u8; 500], test_src()).unwrap();
        q.push(vec![0u8; 700], test_src()).unwrap();
    }
    assert_eq!(socket.recv_buffer_bytes(), 1200);
}

#[test]
fn recv_buffer_overflow_records_drops() {
    let mut socket = bind_local();
    // Shrink the buffer to a tight 1 KiB budget.
    socket.set_recv_buffer_size(1024).unwrap();

    // Fill to 900 bytes.
    {
        let q = &mut socket.recv_queue;
        q.push(vec![0u8; 900], test_src()).unwrap();
    }

    // Simulate a push attempt that overflows via the helper path.
    let rejected_len = 300usize;
    {
        let q = &mut socket.recv_queue;
        if q.push(vec![0u8; rejected_len], test_src()).is_err() {
            socket.record_rx_drop(rejected_len);
        }
    }

    let drops = socket.recv_drops();
    assert_eq!(drops.packets, 1);
    assert_eq!(drops.bytes, rejected_len as u64);
    assert_eq!(socket.recv_buffer_bytes(), 900, "queued bytes unchanged");
}

#[test]
fn take_error_returns_none_when_empty() {
    let mut socket = bind_local();
    assert!(socket.take_error().unwrap().is_none());
    assert_eq!(socket.pending_errors(), 0);
}

#[test]
fn take_error_returns_queued_errors_in_order() {
    let mut socket = bind_local();

    // Queue two errors
    socket.queue_icmp_error(IoError::new(
        ErrorKind::ConnectionRefused,
        "ICMP: port unreachable",
    ));
    socket.queue_icmp_error(IoError::new(
        ErrorKind::TimedOut,
        "ICMP: TTL exceeded",
    ));

    assert_eq!(socket.pending_errors(), 2);

    // First error
    let err1 = socket.take_error().unwrap().expect("should have error");
    assert_eq!(err1.kind(), ErrorKind::ConnectionRefused);

    // Second error
    let err2 = socket.take_error().unwrap().expect("should have error");
    assert_eq!(err2.kind(), ErrorKind::TimedOut);

    // Queue is now empty
    assert!(socket.take_error().unwrap().is_none());
    assert_eq!(socket.pending_errors(), 0);
}

#[test]
fn take_error_queue_is_bounded() {
    let mut socket = bind_local();

    // Queue more than the max (16)
    for i in 0..20 {
        socket.queue_icmp_error(IoError::new(
            ErrorKind::Other,
            &format!("error {}", i),
        ));
    }

    // Only 16 should be stored
    assert_eq!(socket.pending_errors(), 16);

    // Drain them all
    let mut count = 0;
    while socket.take_error().unwrap().is_some() {
        count += 1;
    }
    assert_eq!(count, 16);
}

#[test]
fn has_pending_error_flag_tracks_queue_state() {
    let mut socket = bind_local();

    // Initially no errors
    assert!(!socket.has_pending_error());

    // Queue one
    socket.queue_icmp_error(IoError::new(ErrorKind::Other, "test"));
    assert!(socket.has_pending_error());

    // Drain it
    socket.take_error().unwrap();
    assert!(!socket.has_pending_error());
}

#[test]
fn process_frame_zerocopy_queues_icmp_port_unreachable() {
    let mut socket = bind_local();
    let local_port = match socket.local_addr {
        SocketAddr::V4(v4) => v4.port,
        _ => panic!("expected v4"),
    };

    // Build an ICMP Destination Unreachable (port unreachable) frame
    // that references a UDP packet from our socket
    let our_ip = match socket.local_addr {
        SocketAddr::V4(v4) => v4.ip,
        _ => panic!("expected v4"),
    };

    let frame = build_icmp_error_frame_for_test(
        Ipv4Addr::new(10, 0, 1, 1), // router
        our_ip,
        ICMP_TYPE_DEST_UNREACHABLE,
        ICMP_CODE_PORT_UNREACHABLE,
        0, // no MTU
        our_ip,
        Ipv4Addr::new(10, 0, 2, 200),
        local_port,
        9000,
    );

    // Process the frame
    let mut buf = [0u8; 1500];
    let mut result = None;
    socket.process_frame_zerocopy(&frame, local_port, &mut buf, &mut result, None, NOW);

    // Should NOT produce a UDP result
    assert!(result.is_none());

    // Should have queued an ICMP error
    let err = socket.take_error().unwrap().expect("should have ICMP error");
    assert_eq!(err.kind(), ErrorKind::ConnectionRefused);
    assert!(err.message.contains("port unreachable"));
}

#[test]
fn process_frame_zerocopy_ignores_icmp_error_for_wrong_port() {
    let mut socket = bind_local();
    let local_port = match socket.local_addr {
        SocketAddr::V4(v4) => v4.port,
        _ => panic!("expected v4"),
    };

    let our_ip = match socket.local_addr {
        SocketAddr::V4(v4) => v4.ip,
        _ => panic!("expected v4"),
    };

    // Build ICMP error referencing a DIFFERENT source port
    let frame = build_icmp_error_frame_for_test(
        Ipv4Addr::new(10, 0, 1, 1),
        our_ip,
        ICMP_TYPE_DEST_UNREACHABLE,
        ICMP_CODE_PORT_UNREACHABLE,
        0,
        our_ip,
        Ipv4Addr::new(10, 0, 2, 200),
        local_port.wrapping_add(1), // different port
        9000,
    );

    let mut buf = [0u8; 1500];
    let mut result = None;
    socket.process_frame_zerocopy(&frame, local_port, &mut buf, &mut result, None, NOW);

    // No error should be queued
    assert!(socket.take_error().unwrap().is_none());
}

/// Helper: build an ICMP error frame for these tests.
fn build_icmp_error_frame_for_test(
    error_src_ip: Ipv4Addr,
    error_dst_ip: Ipv4Addr,
    icmp_type: u8,
    icmp_code: u8,
    next_hop_mtu: u16,
    orig_src_ip: Ipv4Addr,
    orig_dst_ip: Ipv4Addr,
    orig_src_port: u16,
    orig_dst_port: u16,
) -> Vec<u8> {
    let total = 14 + 20 + 8 + 20 + 8;
    let mut frame = vec![0u8; total];

    // Ethernet
    frame[0..6].copy_from_slice(&[0xbb; 6]);
    frame[6..12].copy_from_slice(&[0xaa; 6]);
    frame[12..14].copy_from_slice(&ETH_TYPE_IPV4.to_be_bytes());

    // Outer IP
    let ip = 14;
    frame[ip] = 0x45;
    let outer_total_len = (20 + 8 + 20 + 8) as u16;
    frame[ip + 2..ip + 4].copy_from_slice(&outer_total_len.to_be_bytes());
    frame[ip + 8] = 64;
    frame[ip + 9] = IP_PROTO_ICMP;
    frame[ip + 12..ip + 16].copy_from_slice(&error_src_ip.octets());
    frame[ip + 16..ip + 20].copy_from_slice(&error_dst_ip.octets());

    // ICMP header
    let icmp_off = 34;
    frame[icmp_off] = icmp_type;
    frame[icmp_off + 1] = icmp_code;
    frame[icmp_off + 6..icmp_off + 8].copy_from_slice(&next_hop_mtu.to_be_bytes());

    // Original IP header
    let orig_ip = 42;
    frame[orig_ip] = 0x45;
    let orig_total = (20 + 8) as u16;
    frame[orig_ip + 2..orig_ip + 4].copy_from_slice(&orig_total.to_be_bytes());
    frame[orig_ip + 8] = 64;
    frame[orig_ip + 9] = 17; // UDP
    frame[orig_ip + 12..orig_ip + 16].copy_from_slice(&orig_src_ip.octets());
    frame[orig_ip + 16..orig_ip + 20].copy_from_slice(&orig_dst_ip.octets());

    // Original UDP ports
    let orig_udp = 62;
    frame[orig_udp..orig_udp + 2].copy_from_slice(&orig_src_port.to_be_bytes());
    frame[orig_udp + 2..orig_udp + 4].copy_from_slice(&orig_dst_port.to_be_bytes());

    // ICMP checksum
    let cksum = icmp_checksum(&frame[icmp_off..]);
    frame[icmp_off + 2..icmp_off + 4].copy_from_slice(&cksum.to_be_bytes());

    frame
}
