//! Receiving: bursts, waiting, connected sockets, and what is answered or dropped.

use dpdk_udp::addr::{Ipv4Addr, Ipv6Addr, MacAddress, SocketAddr, SocketAddrV4, SocketAddrV6};
use dpdk_udp::arp::{build_arp_reply, build_arp_request, ArpCache};
use dpdk_udp::backend::{HwRxOffload, HwTxOffload};
use dpdk_udp::bind::{BackendInfo, EphemeralPorts};
use dpdk_udp::error::ErrorKind;
use dpdk_udp::icmp::{build_echo_request, parse_icmp_packet};
use dpdk_udp::socket::{RecvStep, RxBytes, UdpSocket};
use dpdk_udp::udp::build_udp_frame;
use dpdk_udp::vlan::{strip_tag, VlanConfig};

const NOW: u64 = 1_000_000_000;
const LOCAL_MAC: [u8; 6] = [0x02, 0, 0, 0, 0, 0x01];
const PEER_MAC: [u8; 6] = [0x02, 0, 0, 0, 0, 0x02];

fn local_ip() -> Ipv4Addr {
    Ipv4Addr::new(10, 0, 0, 1)
}

fn peer_ip() -> Ipv4Addr {
    Ipv4Addr::new(10, 0, 0, 2)
}

fn v4(ip: Ipv4Addr, port: u16) -> SocketAddr {
    SocketAddr::V4(SocketAddrV4::new(ip, port))
}

fn bound() -> UdpSocket {
    let backend = BackendInfo {
        mac: LOCAL_MAC,
        mtu: 1500,
        tx_offload: HwTxOffload { ipv4_cksum: false, udp_cksum: false, vlan_insert: false },
        rx_offload: HwRxOffload { ipv4_cksum: false, udp_cksum: false, vlan_strip: false },
    };
    let addr = Some(v4(local_ip(), 9000));
    let mut ports = EphemeralPorts::new();
    UdpSocket::bind(addr, &backend, ArpCache::new(), None, NOW, &mut ports).unwrap()
}

/// A frame with a datagram from a port of the peer.
fn datagram(src_port: u16, payload: &[u8]) -> Vec<u8> {
    build_udp_frame(&PEER_MAC, &LOCAL_MAC, peer_ip(), local_ip(), src_port, 9000, payload, 64)
        .unwrap()
}

fn rx(data: Vec<u8>) -> RxBytes {
    RxBytes { data, hw_vlan_tci: None }
}

fn ready(step: RecvStep) -> (usize, SocketAddr) {
    match step {
        RecvStep::Ready(len, src) => (len, src),
        RecvStep::Poll => panic!("expected a payload"),
    }
}

#[test]
fn burst_hands_out_the_first_and_queues_the_rest() {
    let mut socket = bound();
    let frames = vec![rx(datagram(1, b"one")), rx(datagram(2, b"two")), rx(datagram(3, b"three"))];
    let mut buf = [0u8; 16];
    let burst = socket.process_burst(&frames, &mut buf, NOW);
    assert_eq!(burst.result, Some((3, v4(peer_ip(), 1))));
    assert_eq!(&buf[..3], b"one");
    assert!(burst.replies.is_empty());
    assert_eq!(socket.recv_queue_len(), 2);
    assert_eq!(ready(socket.recv_from(&mut buf, NOW, NOW).unwrap()), (3, v4(peer_ip(), 2)));
    assert_eq!(ready(socket.try_recv_from(&mut buf).unwrap()), (5, v4(peer_ip(), 3)));
    assert_eq!(&buf[..5], b"three");
    assert!(matches!(socket.try_recv_from(&mut buf), Ok(RecvStep::Poll)));
    let counters = socket.perf_counters();
    assert_eq!((counters.rx_bursts, counters.rx_burst_sum), (1, 3));
    assert_eq!((counters.rx_packets, counters.rx_bytes), (3, 11));
}

#[test]
fn empty_burst_does_nothing() {
    let mut socket = bound();
    let mut buf = [7u8; 4];
    let burst = socket.process_burst(&Vec::new(), &mut buf, NOW);
    assert!(burst.result.is_none() && burst.replies.is_empty());
    assert_eq!(buf, [7; 4]);
    assert_eq!(socket.perf_counters().rx_bursts, 0);
}

#[test]
fn burst_collects_the_replies() {
    let mut socket = bound();
    let request = build_arp_request(&PEER_MAC, peer_ip(), local_ip());
    let ping =
        build_echo_request(PEER_MAC, LOCAL_MAC, peer_ip(), local_ip(), 7, 1, b"ping");
    let frames = vec![rx(request.to_vec()), rx(ping), rx(datagram(1, b"data"))];
    let mut buf = [0u8; 16];
    let burst = socket.process_burst(&frames, &mut buf, NOW);
    assert_eq!(burst.result, Some((4, v4(peer_ip(), 1))));
    assert_eq!(burst.replies.len(), 2);
    assert_eq!(burst.replies[0], build_arp_reply(&LOCAL_MAC, local_ip(), &PEER_MAC, peer_ip()));
    let pong = parse_icmp_packet(&burst.replies[1]).unwrap();
    assert!(pong.is_echo_reply());
    assert_eq!(pong.payload, b"ping");
    assert_eq!(socket.perf_counters().rx_arp_handled, 1);
    assert_eq!(socket.perf_counters().rx_icmp_handled, 1);
    assert_eq!(socket.arp_cache().lookup(&peer_ip(), NOW), Some(MacAddress::new(PEER_MAC)));
}

#[test]
fn tagged_arp_is_answered() {
    let mut socket = bound();
    socket.set_vlan(Some(VlanConfig::new(100)));
    let request = build_arp_request(&PEER_MAC, peer_ip(), local_ip());
    let answer = build_arp_reply(&LOCAL_MAC, local_ip(), &PEER_MAC, peer_ip());
    let tagged = |tci: u8| {
        let mut frame = request[..12].to_vec();
        frame.extend([0x81, 0x00, 0x00, tci]);
        frame.extend(&request[12..]);
        frame
    };
    let mut buf = [0u8; 8];
    let mut result = None;
    let other = tagged(101);
    assert_eq!(strip_tag(&other), request);
    assert_eq!(strip_tag(&request), request);
    let reply = socket.process_frame_zerocopy(&other, 9000, &mut buf, &mut result, None, NOW);
    assert!(reply.is_none());
    assert!(socket.arp_cache().is_empty());
    let ours = tagged(100);
    let reply = socket.process_frame_zerocopy(&ours, 9000, &mut buf, &mut result, None, NOW);
    assert_eq!(reply.unwrap(), answer);
    assert_eq!(socket.arp_cache().lookup(&peer_ip(), NOW), Some(MacAddress::new(PEER_MAC)));
    let stripped = Some(100);
    let reply = socket.process_frame_zerocopy(&request, 9000, &mut buf, &mut result, stripped, NOW);
    assert_eq!(reply.unwrap(), answer);
    assert_eq!(socket.perf_counters().rx_arp_handled, 2);
}

#[test]
fn echo_is_not_answered_when_switched_off() {
    let mut socket = bound();
    socket.set_auto_icmp(false);
    let ping =
        build_echo_request(PEER_MAC, LOCAL_MAC, peer_ip(), local_ip(), 7, 1, b"ping");
    let mut result = None;
    assert!(socket.process_frame_zerocopy(&ping, 9000, &mut [0; 8], &mut result, None, NOW).is_none());
    assert_eq!(socket.perf_counters().rx_icmp_handled, 1);
}

#[test]
fn arp_is_malformed_when_switched_off() {
    let mut socket = bound();
    socket.set_auto_arp(false);
    let request = build_arp_request(&PEER_MAC, peer_ip(), local_ip());
    let mut result = None;
    let reply = socket.process_frame_zerocopy(&request, 9000, &mut [0; 8], &mut result, None, NOW);
    assert!(reply.is_none());
    assert_eq!(socket.perf_counters().rx_arp_handled, 0);
    assert_eq!(socket.perf_counters().rx_drops_parse_fail, 1);
    assert!(socket.arp_cache().is_empty());
}

#[test]
fn long_payload_is_cut_to_the_buffer() {
    let mut socket = bound();
    let mut buf = [0u8; 4];
    let mut result = None;
    socket.process_frame_zerocopy(&datagram(1, b"longer"), 9000, &mut buf, &mut result, None, NOW);
    assert_eq!(result, Some((4, v4(peer_ip(), 1))));
    assert_eq!(&buf, b"long");
}

#[test]
fn damaged_frames_are_counted_and_dropped() {
    let mut socket = bound();
    let mut buf = [0u8; 16];
    let mut result = None;
    let mut header = datagram(1, b"data");
    header[22] ^= 1;
    let mut payload = datagram(1, b"data");
    payload[43] ^= 1;
    let mut short = datagram(1, b"data");
    short.truncate(40);
    for frame in [header, payload, short] {
        socket.process_frame_zerocopy(&frame, 9000, &mut buf, &mut result, None, NOW);
    }
    assert!(result.is_none());
    assert_eq!(socket.perf_counters().rx_drops_parse_fail, 3);
    assert_eq!(socket.perf_counters().rx_packets, 0);
    socket.process_frame_zerocopy(&[0; 13], 9000, &mut buf, &mut result, None, NOW);
    assert_eq!(socket.perf_counters().rx_drops_parse_fail, 3);
}

#[test]
fn datagram_for_another_port_only_teaches() {
    let mut socket = bound();
    let frame = build_udp_frame(&PEER_MAC, &LOCAL_MAC, peer_ip(), local_ip(), 1, 9001, b"x", 64);
    let mut result = None;
    socket.process_frame_zerocopy(&frame.unwrap(), 9000, &mut [0; 8], &mut result, None, NOW);
    assert!(result.is_none());
    assert_eq!(socket.recv_queue_len(), 0);
    assert_eq!(socket.perf_counters().rx_packets, 1);
    assert_eq!(socket.arp_cache().lookup(&peer_ip(), NOW), Some(MacAddress::new(PEER_MAC)));
}

#[test]
fn stranger_to_a_connected_socket_is_queued() {
    let mut socket = bound();
    socket.connect(Some(v4(peer_ip(), 1))).unwrap();
    let mut buf = [9u8; 8];
    let mut result = None;
    socket.process_frame_zerocopy(&datagram(2, b"other"), 9000, &mut buf, &mut result, None, NOW);
    assert!(result.is_none());
    assert_eq!(buf, [9; 8]);
    assert_eq!(socket.recv_queue_len(), 1);
    socket.process_frame_zerocopy(&datagram(1, b"peer"), 9000, &mut buf, &mut result, None, NOW);
    assert_eq!(result, Some((4, v4(peer_ip(), 1))));
    let stats = socket.connection_stats().unwrap();
    assert_eq!((stats.packets_received, stats.bytes_received), (1, 4));
}

#[test]
fn recv_takes_the_peer_and_leaves_strangers() {
    let mut socket = bound();
    socket.connect(Some(v4(peer_ip(), 1))).unwrap();
    for (port, payload) in [(2, "a"), (1, "bb"), (3, "ccc"), (1, "dddd")] {
        socket.enqueue(payload.as_bytes().to_vec(), v4(peer_ip(), port));
    }
    let mut buf = [0u8; 8];
    assert_eq!(ready(socket.recv(&mut buf, NOW, NOW).unwrap()), (2, v4(peer_ip(), 1)));
    assert_eq!(&buf[..2], b"bb");
    assert_eq!(ready(socket.recv(&mut buf, NOW, NOW).unwrap()), (4, v4(peer_ip(), 1)));
    assert!(matches!(socket.recv(&mut buf, NOW, NOW), Ok(RecvStep::Poll)));
    assert_eq!(socket.recv_buffer_bytes(), 4);
    assert_eq!(ready(socket.recv_from(&mut buf, NOW, NOW).unwrap()), (1, v4(peer_ip(), 2)));
    assert_eq!(ready(socket.recv_from(&mut buf, NOW, NOW).unwrap()), (3, v4(peer_ip(), 3)));
    assert!(matches!(socket.recv_from(&mut buf, NOW, NOW), Ok(RecvStep::Poll)));
}

#[test]
fn recv_without_a_peer_takes_anyone() {
    let mut socket = bound();
    socket.enqueue(b"a".to_vec(), v4(peer_ip(), 2));
    let mut buf = [0u8; 8];
    assert_eq!(ready(socket.recv(&mut buf, NOW, NOW).unwrap()), (1, v4(peer_ip(), 2)));
}

#[test]
fn wait_ends_at_the_read_timeout() {
    let mut socket = bound();
    socket.set_read_timeout(Some(500)).unwrap();
    let mut buf = [0u8; 8];
    assert!(matches!(socket.recv_from(&mut buf, NOW, NOW + 499), Ok(RecvStep::Poll)));
    let err = socket.recv_from(&mut buf, NOW, NOW + 500).unwrap_err();
    assert_eq!(err.kind(), ErrorKind::WouldBlock);
    assert_eq!(err.message, "read timed out");
    socket.enqueue(b"late".to_vec(), v4(peer_ip(), 1));
    assert!(socket.recv(&mut buf, NOW, NOW + 500).is_err());
    assert_eq!(socket.recv_queue_len(), 1);
    assert!(socket.try_recv_from(&mut buf).is_ok());
}

#[test]
fn ipv6_socket_cannot_receive() {
    let mut socket = bound();
    let v6 = SocketAddrV6 { ip: Ipv6Addr::localhost(), port: 9000, flowinfo: 0, scope_id: 0 };
    socket.local_addr = SocketAddr::V6(v6);
    let mut buf = [0u8; 8];
    for err in [
        socket.recv_from(&mut buf, NOW, NOW).unwrap_err(),
        socket.recv(&mut buf, NOW, NOW).unwrap_err(),
        socket.try_recv_from(&mut buf).unwrap_err(),
    ] {
        assert_eq!(err.kind(), ErrorKind::InvalidInput);
        assert_eq!(err.message, "IPv6 not supported");
    }
}

#[test]
fn full_buffer_drops_and_counts() {
    let mut socket = bound();
    socket.set_recv_buffer_size(10).unwrap();
    let frames = vec![
        rx(datagram(1, b"first")),
        rx(datagram(1, b"eight...")),
        rx(datagram(1, b"nope")),
        rx(datagram(1, b"ok")),
    ];
    let mut buf = [0u8; 16];
    socket.process_burst(&frames, &mut buf, NOW);
    assert_eq!(socket.recv_queue_len(), 2);
    assert_eq!(socket.recv_buffer_bytes(), 10);
    let drops = socket.recv_drops();
    assert_eq!((drops.packets, drops.bytes), (1, 4));
    assert_eq!(socket.perf_counters().rx_drops_buffer_full, 1);
}
