//! Receiving from worker threads.

use std::collections::VecDeque;

use dpdk_udp::addr::{Ipv4Addr, SocketAddr, SocketAddrV4};
use dpdk_udp::arp::ArpCache;
use dpdk_udp::backend::{HwRxOffload, HwTxOffload};
use dpdk_udp::bind::{BackendInfo, EphemeralPorts};
use dpdk_udp::error::ErrorKind;
use dpdk_udp::frame_pool::{AppPacket, FramePool};
use dpdk_udp::pipeline::{backoff, dequeue_app_rings, Backoff};
use dpdk_udp::socket::UdpSocket;

const NOW: u64 = 1_000_000_000;

fn v4(port: u16) -> SocketAddr {
    SocketAddr::V4(SocketAddrV4::new(Ipv4Addr::new(10, 0, 0, 2), port))
}

fn bound() -> UdpSocket {
    let backend = BackendInfo {
        mac: [0x02, 0, 0, 0, 0, 0x01],
        mtu: 1500,
        tx_offload: HwTxOffload { ipv4_cksum: false, udp_cksum: false, vlan_insert: false },
        rx_offload: HwRxOffload { ipv4_cksum: false, udp_cksum: false, vlan_strip: false },
    };
    let addr = Some(SocketAddr::V4(SocketAddrV4::new(Ipv4Addr::new(10, 0, 0, 1), 9000)));
    let mut ports = EphemeralPorts::new();
    UdpSocket::bind(addr, &backend, ArpCache::new(), None, NOW, &mut ports).unwrap()
}

/// Puts a payload behind two other bytes into a slot of the pool.
fn packet(pool: &mut FramePool, src_port: u16, payload: &[u8]) -> AppPacket {
    let mut frame = vec![0xEE, 0xEE];
    frame.extend_from_slice(payload);
    let frame_ref = pool.alloc_copy(&frame).unwrap();
    AppPacket {
        frame_ref,
        payload_offset: 2,
        payload_len: payload.len() as u16,
        src_addr: v4(src_port),
        src_mac: [0x02, 0, 0, 0, 0, 0x02],
        src_ip: Ipv4Addr::new(10, 0, 0, 2),
    }
}

#[test]
fn rings_are_polled_in_turn() {
    let mut pool = FramePool::new(8, 64);
    let mut rings: Vec<VecDeque<AppPacket>> = vec![VecDeque::new(); 3];
    for (ring, port) in [(0, 10), (0, 11), (1, 20), (2, 30), (2, 31)] {
        let packet = packet(&mut pool, port, b"x");
        rings[ring].push_back(packet);
    }
    let mut index = 0;
    let mut order = Vec::new();
    while let Some(packet) = dequeue_app_rings(&mut rings, &mut index) {
        order.push((packet.src_addr.port(), index));
    }
    assert_eq!(order, vec![(10, 1), (20, 2), (30, 3), (11, 1), (31, 3)]);
    assert_eq!(index, 3);
}

#[test]
fn no_rings_give_nothing() {
    let mut index = 5;
    assert!(dequeue_app_rings(&mut Vec::new(), &mut index).is_none());
    assert_eq!(index, 5);
}

#[test]
fn pipeline_hands_out_payloads_and_frees_slots() {
    let mut socket = bound();
    socket.connect(Some(v4(1))).unwrap();
    let mut pool = FramePool::new(4, 64);
    let free = pool.available();
    let mut rings = vec![VecDeque::new()];
    rings[0].push_back(packet(&mut pool, 1, b"payload"));
    assert_eq!(pool.available(), free - 1);
    let mut buf = [0u8; 4];
    let got = socket.recv_from_pipeline(&mut rings, &mut pool, &mut buf, NOW, NOW).unwrap();
    assert_eq!(got, Some((4, v4(1))));
    assert_eq!(&buf, b"payl");
    assert_eq!(pool.available(), free);
    let stats = socket.connection_stats().unwrap();
    assert_eq!((stats.packets_received, stats.bytes_received), (1, 4));
    assert_eq!(socket.recv_from_pipeline(&mut rings, &mut pool, &mut buf, NOW, NOW).unwrap(), None);
}

#[test]
fn payloads_that_wait_stay_as_they_are() {
    let mut socket = bound();
    let mut pool = FramePool::new(4, 64);
    let mut rings = vec![VecDeque::new(), VecDeque::new()];
    rings[0].push_back(packet(&mut pool, 1, b"first"));
    rings[0].push_back(packet(&mut pool, 2, b"third"));
    rings[1].push_back(packet(&mut pool, 3, b"second"));
    for (port, payload) in [(1, "first"), (3, "second"), (2, "third")] {
        let mut buf = [0u8; 16];
        let got = socket.try_recv_from_pipeline(&mut rings, &mut pool, &mut buf);
        assert_eq!(got, Some((payload.len(), v4(port))));
        assert_eq!(&buf[..payload.len()], payload.as_bytes());
    }
}

#[test]
fn only_what_fits_has_to_lie_in_the_slot() {
    let mut socket = bound();
    let mut pool = FramePool::new(4, 64);
    let mut rings = vec![VecDeque::new()];
    let mut long = packet(&mut pool, 1, b"payload");
    long.payload_len = 9000;
    rings[0].push_back(long);
    let mut buf = [0u8; 4];
    let got = socket.try_recv_from_pipeline(&mut rings, &mut pool, &mut buf);
    assert_eq!(got, Some((4, v4(1))));
    assert_eq!(&buf, b"payl");
}

#[test]
fn attempt_without_waiting_is_not_counted() {
    let mut socket = bound();
    socket.connect(Some(v4(1))).unwrap();
    let mut pool = FramePool::new(4, 64);
    let mut rings = vec![VecDeque::new()];
    rings[0].push_back(packet(&mut pool, 1, b"abc"));
    let mut buf = [0u8; 8];
    let got = socket.try_recv_from_pipeline(&mut rings, &mut pool, &mut buf);
    assert_eq!(got, Some((3, v4(1))));
    assert_eq!(socket.connection_stats().unwrap().packets_received, 0);
}

#[test]
fn strangers_in_the_pipeline_are_queued() {
    let mut socket = bound();
    socket.connect(Some(v4(1))).unwrap();
    let mut pool = FramePool::new(4, 64);
    let mut rings = vec![VecDeque::new()];
    rings[0].push_back(packet(&mut pool, 2, b"other"));
    rings[0].push_back(packet(&mut pool, 1, b"peer"));
    let mut buf = [0u8; 8];
    assert_eq!(socket.recv_pipeline(&mut rings, &mut pool, &mut buf, NOW, NOW).unwrap(), None);
    assert_eq!(socket.recv_queue_len(), 1);
    let got = socket.recv_pipeline(&mut rings, &mut pool, &mut buf, NOW, NOW).unwrap();
    assert_eq!(got, Some((4, v4(1))));
    assert_eq!(&buf[..4], b"peer");
    let got = socket.recv_from_pipeline(&mut rings, &mut pool, &mut buf, NOW, NOW).unwrap();
    assert_eq!(got, Some((5, v4(2))));
    assert!(!socket.has_buffered_packets);
    assert_eq!(pool.in_use(), 0);
}

#[test]
fn pipeline_wait_ends_at_the_read_timeout() {
    let mut socket = bound();
    socket.set_read_timeout(Some(1000)).unwrap();
    let mut pool = FramePool::new(4, 64);
    let mut rings = vec![VecDeque::new()];
    let mut buf = [0u8; 8];
    let early = socket.recv_from_pipeline(&mut rings, &mut pool, &mut buf, NOW, NOW + 999);
    assert_eq!(early.unwrap(), None);
    let err =
        socket.recv_pipeline(&mut rings, &mut pool, &mut buf, NOW, NOW + 1000).unwrap_err();
    assert_eq!(err.kind(), ErrorKind::WouldBlock);
    assert_eq!(err.message, "read timed out");
}

#[test]
fn waiting_backs_off() {
    assert_eq!(backoff(1), Backoff::Spin);
    assert_eq!(backoff(64), Backoff::Spin);
    assert_eq!(backoff(65), Backoff::Yield);
    assert_eq!(backoff(80), Backoff::Yield);
    assert_eq!(backoff(81), Backoff::Sleep);
}
