//! Sending: refusals, the frames that go out, and the search for a neighbour.

use dpdk_udp::addr::{Ipv4Addr, Ipv6Addr, MacAddress, SocketAddr, SocketAddrV4, SocketAddrV6};
use dpdk_udp::arp::{build_arp_reply, build_arp_request, ArpCache};
use dpdk_udp::backend::{HwRxOffload, HwTxOffload};
use dpdk_udp::bind::{BackendInfo, EphemeralPorts};
use dpdk_udp::error::ErrorKind;
use dpdk_udp::gue::GueConfig;
use dpdk_udp::routing::NetworkConfig;
use dpdk_udp::send::{ArpStep, SendStep, ARP_POLLS_PER_ATTEMPT, MAX_ARP_ATTEMPTS};
use dpdk_udp::socket::UdpSocket;
use dpdk_udp::udp::{build_udp_frame, parse_udp_packet, verify_ipv4_checksum, verify_udp_checksum};
use dpdk_udp::vlan::VlanConfig;

const NOW: u64 = 1_000_000_000;
const MAC_A: [u8; 6] = [0x02, 0, 0, 0, 0, 0x0a];
const MAC_B: [u8; 6] = [0x02, 0, 0, 0, 0, 0x0b];

fn ip_a() -> Ipv4Addr {
    Ipv4Addr::new(10, 0, 1, 10)
}

fn ip_b() -> Ipv4Addr {
    Ipv4Addr::new(10, 0, 1, 20)
}

fn v4(ip: Ipv4Addr, port: u16) -> SocketAddr {
    SocketAddr::V4(SocketAddrV4::new(ip, port))
}

fn v6() -> SocketAddr {
    SocketAddr::V6(SocketAddrV6 { ip: Ipv6Addr::localhost(), port: 9000, flowinfo: 0, scope_id: 0 })
}

fn bind(ip: Ipv4Addr, port: u16, mac: [u8; 6], vlan_insert: bool) -> UdpSocket {
    let backend = BackendInfo {
        mac,
        mtu: 1500,
        tx_offload: HwTxOffload { ipv4_cksum: false, udp_cksum: false, vlan_insert },
        rx_offload: HwRxOffload { ipv4_cksum: false, udp_cksum: false, vlan_strip: false },
    };
    let mut ports = EphemeralPorts::new();
    UdpSocket::bind(Some(v4(ip, port)), &backend, ArpCache::new(), None, NOW, &mut ports).unwrap()
}

/// Two sockets on one network. The first knows where the second is.
fn pair() -> (UdpSocket, UdpSocket) {
    let mut a = bind(ip_a(), 5000, MAC_A, false);
    let b = bind(ip_b(), 9000, MAC_B, false);
    a.add_arp_entry(ip_b(), MacAddress::new(MAC_B), NOW);
    (a, b)
}

fn transmitted(step: SendStep) -> Option<u16> {
    match step {
        SendStep::Transmit { hw_vlan_tci } => hw_vlan_tci,
        SendStep::Resolve(ip) => panic!("unresolved: {:?}", ip),
    }
}

#[test]
fn sent_frame_is_the_built_frame() {
    let (mut a, _) = pair();
    let mut tx = Vec::new();
    let step = a.send_to(&mut tx, b"hello", Some(v4(ip_b(), 9000)), NOW).unwrap();
    assert_eq!(transmitted(step), None);
    let expected =
        build_udp_frame(&MAC_A, &MAC_B, ip_a(), ip_b(), 5000, 9000, b"hello", 64).unwrap();
    assert_eq!(tx, expected);
    assert_eq!(a.perf_counters().arp_cache_hits, 1);
    assert_eq!(a.perf_counters().arp_cache_misses, 0);
}

#[test]
fn sent_datagram_is_received() {
    let (mut a, mut b) = pair();
    let mut tx = Vec::new();
    a.send_to(&mut tx, b"over the wire", Some(v4(ip_b(), 9000)), NOW).unwrap();
    let mut buf = [0u8; 64];
    let mut result = None;
    let reply = b.process_frame_zerocopy(&tx, 9000, &mut buf, &mut result, None, NOW);
    assert!(reply.is_none());
    assert_eq!(result, Some((13, v4(ip_a(), 5000))));
    assert_eq!(&buf[..13], b"over the wire");
    assert_eq!(b.arp_cache().lookup(&ip_a(), NOW), Some(MacAddress::new(MAC_A)));
}

#[test]
fn ttl_goes_into_the_frame() {
    let (mut a, _) = pair();
    a.set_ttl(7).unwrap();
    let mut tx = Vec::new();
    a.send_to(&mut tx, b"x", Some(v4(ip_b(), 9000)), NOW).unwrap();
    assert_eq!(tx[22], 7);
}

#[test]
fn unknown_neighbour_must_be_resolved() {
    let mut a = bind(ip_a(), 5000, MAC_A, false);
    let mut tx = Vec::new();
    match a.send_to(&mut tx, b"x", Some(v4(ip_b(), 9000)), NOW).unwrap() {
        SendStep::Resolve(ip) => assert_eq!(ip, ip_b()),
        SendStep::Transmit { .. } => panic!("nothing is known of the neighbour"),
    }
    assert_eq!(a.perf_counters().arp_cache_misses, 1);
    let step = a.send_resolved(&mut tx, b"x", v4(ip_b(), 9000), &MacAddress::new(MAC_B)).unwrap();
    assert_eq!(transmitted(step), None);
    assert_eq!(parse_udp_packet(&tx).unwrap().dst_mac, MAC_B);
}

#[test]
fn expired_neighbour_must_be_resolved() {
    let (mut a, _) = pair();
    let mut tx = Vec::new();
    let five_minutes = 300_000_000_000;
    let step = a.send_to(&mut tx, b"x", Some(v4(ip_b(), 9000)), NOW + five_minutes).unwrap();
    assert_eq!(transmitted(step), None);
    match a.send_to(&mut tx, b"x", Some(v4(ip_b(), 9000)), NOW + five_minutes + 1).unwrap() {
        SendStep::Resolve(ip) => assert_eq!(ip, ip_b()),
        SendStep::Transmit { .. } => panic!("the entry has expired"),
    }
}

#[test]
fn without_arp_the_configured_mac_is_used() {
    let mut a = bind(ip_a(), 5000, MAC_A, false);
    a.set_auto_arp(false);
    let mut tx = Vec::new();
    a.send_to(&mut tx, b"x", Some(v4(ip_b(), 9000)), NOW).unwrap();
    assert_eq!(parse_udp_packet(&tx).unwrap().dst_mac, [0xff; 6]);
    a.set_dst_mac(MacAddress::new([0x0e; 6]));
    a.send_to(&mut tx, b"x", Some(v4(ip_b(), 9000)), NOW).unwrap();
    assert_eq!(parse_udp_packet(&tx).unwrap().dst_mac, [0x0e; 6]);
    assert_eq!(a.perf_counters().arp_cache_misses, 2);
}

#[test]
fn broadcast_needs_no_resolution() {
    let mut a = bind(ip_a(), 5000, MAC_A, false);
    let mut tx = Vec::new();
    let dst = v4(Ipv4Addr::broadcast(), 9000);
    let step = a.send_to(&mut tx, b"x", Some(dst), NOW).unwrap();
    assert_eq!(transmitted(step), None);
    assert_eq!(&tx[0..6], &[0xff; 6]);
}

#[test]
fn other_subnets_go_through_the_gateway() {
    let mut a = bind(ip_a(), 5000, MAC_A, false);
    let gateway = Ipv4Addr::new(10, 0, 1, 1);
    a.set_routing(NetworkConfig::new(ip_a(), 24).with_gateway(gateway));
    let mut tx = Vec::new();
    let far = v4(Ipv4Addr::new(10, 0, 2, 20), 9000);
    match a.send_to(&mut tx, b"x", Some(far), NOW).unwrap() {
        SendStep::Resolve(ip) => assert_eq!(ip, gateway),
        SendStep::Transmit { .. } => panic!("nothing is known of the gateway"),
    }
    a.add_arp_entry(gateway, MacAddress::new([0x0c; 6]), NOW);
    a.send_to(&mut tx, b"x", Some(far), NOW).unwrap();
    let parsed = parse_udp_packet(&tx).unwrap();
    assert_eq!(parsed.dst_mac, [0x0c; 6]);
    assert_eq!(parsed.dst_ip, Ipv4Addr::new(10, 0, 2, 20));
}

#[test]
fn no_address_is_refused() {
    let (mut a, _) = pair();
    let err = a.send_to(&mut Vec::new(), b"x", None, NOW).unwrap_err();
    assert_eq!(err.kind(), ErrorKind::InvalidInput);
    assert_eq!(err.message, "Invalid address");
}

#[test]
fn ipv6_destination_is_refused() {
    let (mut a, _) = pair();
    let err = a.send_to(&mut Vec::new(), b"x", Some(v6()), NOW).unwrap_err();
    assert_eq!(err.kind(), ErrorKind::InvalidInput);
    assert_eq!(err.message, "IPv6 not supported");
    assert_eq!(a.perf_counters().arp_cache_hits, 0);
}

#[test]
fn payload_above_the_mtu_is_refused() {
    let (mut a, _) = pair();
    assert_eq!(a.max_udp_payload(), 1472);
    let mut tx = Vec::new();
    assert!(a.send_to(&mut tx, &[0; 1472], Some(v4(ip_b(), 9000)), NOW).is_ok());
    let err = a.send_to(&mut tx, &[0; 1473], Some(v4(ip_b(), 9000)), NOW).unwrap_err();
    assert_eq!(err.kind(), ErrorKind::InvalidInput);
    assert_eq!(
        err.message,
        "payload too large: 1473 bytes exceeds max UDP payload 1472 (MTU 1500)"
    );
}

#[test]
fn payload_above_the_frame_buffer_fails() {
    let (mut a, _) = pair();
    a.set_routing(NetworkConfig::new(ip_a(), 24).with_mtu(65535));
    let mut tx = Vec::new();
    assert!(a.send_to(&mut tx, &[0; 8973], Some(v4(ip_b(), 9000)), NOW).is_ok());
    let err = a.send_to(&mut tx, &[0; 8974], Some(v4(ip_b(), 9000)), NOW).unwrap_err();
    assert_eq!(err.kind(), ErrorKind::Other);
    assert_eq!(err.message, "packet build failed: Payload too large: max 8973, got 8974");
}

#[test]
fn send_needs_a_peer() {
    let (mut a, _) = pair();
    let mut tx = Vec::new();
    let err = a.send(&mut tx, b"x", NOW).unwrap_err();
    assert_eq!(err.kind(), ErrorKind::NotConnected);
    assert_eq!(err.message, "Socket not connected");
    a.connect(Some(v4(ip_b(), 9000))).unwrap();
    transmitted(a.send(&mut tx, b"x", NOW).unwrap());
    assert_eq!(parse_udp_packet(&tx).unwrap().dst_port, 9000);
}

#[test]
fn sent_datagrams_are_counted() {
    let (mut a, _) = pair();
    a.connect(Some(v4(ip_b(), 9000))).unwrap();
    assert_eq!(a.record_sent(100), 100);
    assert_eq!(a.record_sent(20), 20);
    a.record_send_failure();
    let stats = a.connection_stats().unwrap();
    assert_eq!((stats.packets_sent, stats.bytes_sent), (2, 120));
    assert_eq!((stats.packets_received, stats.bytes_received), (0, 0));
    assert_eq!(a.perf_counters().tx_packets, 2);
    assert_eq!(a.perf_counters().tx_bytes, 120);
    assert_eq!(a.perf_counters().tx_failures, 1);
}

#[test]
fn software_tag_is_in_the_frame() {
    let (mut a, mut b) = pair();
    a.set_vlan(Some(VlanConfig::new(100).with_priority(3)));
    b.set_vlan(Some(VlanConfig::new(100)));
    let mut tx = Vec::new();
    let step = a.send_to(&mut tx, b"tagged", Some(v4(ip_b(), 9000)), NOW).unwrap();
    assert_eq!(transmitted(step), None);
    assert_eq!(&tx[12..16], &[0x81, 0x00, 0x60, 0x64]);
    assert!(verify_ipv4_checksum(&tx) && verify_udp_checksum(&tx));
    let mut buf = [0u8; 16];
    let mut result = None;
    b.process_frame_zerocopy(&tx, 9000, &mut buf, &mut result, None, NOW);
    assert_eq!(result, Some((6, v4(ip_a(), 5000))));
}

#[test]
fn hardware_tag_is_left_to_the_nic() {
    let mut a = bind(ip_a(), 5000, MAC_A, true);
    a.add_arp_entry(ip_b(), MacAddress::new(MAC_B), NOW);
    let mut tx = Vec::new();
    a.set_vlan(Some(VlanConfig::new(100).with_priority(3)));
    let step = a.send_to(&mut tx, b"x", Some(v4(ip_b(), 9000)), NOW).unwrap();
    assert_eq!(transmitted(step), Some(0x6064));
    assert_eq!(&tx[12..14], &[0x08, 0x00]);
    a.set_vlan(Some(VlanConfig::new(100).with_force_software(true)));
    let step = a.send_to(&mut tx, b"x", Some(v4(ip_b(), 9000)), NOW).unwrap();
    assert_eq!(transmitted(step), None);
    assert_eq!(&tx[12..14], &[0x81, 0x00]);
    a.set_vlan(Some(VlanConfig::new(100).access()));
    let step = a.send_to(&mut tx, b"x", Some(v4(ip_b(), 9000)), NOW).unwrap();
    assert_eq!(transmitted(step), None);
    assert_eq!(&tx[12..14], &[0x08, 0x00]);
}

#[test]
fn tunnelled_datagram_is_received() {
    let (mut a, mut b) = pair();
    let tunnel_end = Ipv4Addr::new(172, 16, 0, 1);
    a.set_gue(Some(GueConfig::new(tunnel_end)));
    b.set_gue(Some(GueConfig::new(ip_a())));
    let inner = v4(Ipv4Addr::new(192, 168, 7, 7), 9000);
    let mut tx = Vec::new();
    match a.send_to(&mut tx, b"inside", Some(inner), NOW).unwrap() {
        SendStep::Resolve(ip) => assert_eq!(ip, tunnel_end),
        SendStep::Transmit { .. } => panic!("nothing is known of the far end"),
    }
    a.add_arp_entry(tunnel_end, MacAddress::new(MAC_B), NOW);
    transmitted(a.send_to(&mut tx, b"inside", Some(inner), NOW).unwrap());
    assert_eq!(tx.len(), 42 + 32 + 6);
    let mut buf = [0u8; 16];
    let mut result = None;
    b.process_frame_zerocopy(&tx, 9000, &mut buf, &mut result, None, NOW);
    assert_eq!(result, Some((6, v4(ip_a(), 5000))));
    assert_eq!(&buf[..6], b"inside");
}

#[test]
fn tunnel_lowers_the_limit() {
    let (mut a, _) = pair();
    a.set_gue(Some(GueConfig::new(ip_b())));
    assert_eq!(a.max_gue_payload(), 1440);
    let err = a.send_to(&mut Vec::new(), &[0; 1441], Some(v4(ip_b(), 9000)), NOW).unwrap_err();
    assert_eq!(
        err.message,
        "payload too large: 1441 bytes exceeds max UDP payload 1440 (MTU 1500)"
    );
}

#[test]
fn search_finds_the_neighbour() {
    let mut a = bind(ip_a(), 5000, MAC_A, false);
    let (mut search, request) = a.start_resolve(ip_b()).unwrap();
    assert_eq!(request, build_arp_request(&MAC_A, ip_a(), ip_b()));
    assert!(matches!(a.resolve_arp(&mut search, NOW), ArpStep::Wait));
    let reply = build_arp_reply(&MAC_B, ip_b(), &MAC_A, ip_a());
    assert!(a.absorb(&reply, NOW).is_none());
    match a.resolve_arp(&mut search, NOW) {
        ArpStep::Found(mac) => assert_eq!(mac, MacAddress::new(MAC_B)),
        other => panic!("expected the neighbour, got {:?}", other),
    }
}

#[test]
fn search_gives_up_after_three_attempts() {
    let a = bind(ip_a(), 5000, MAC_A, false);
    let (mut search, _) = a.start_resolve(Ipv4Addr::new(10, 0, 1, 99)).unwrap();
    let mut repeats = Vec::new();
    for poll in 1..MAX_ARP_ATTEMPTS * ARP_POLLS_PER_ATTEMPT {
        match a.resolve_arp(&mut search, NOW) {
            ArpStep::Wait => {}
            ArpStep::Repeat => repeats.push(poll),
            other => panic!("unexpected {:?} at poll {}", other, poll),
        }
    }
    assert_eq!(repeats, vec![10_000, 20_000]);
    match a.resolve_arp(&mut search, NOW) {
        ArpStep::Failed(err) => {
            assert_eq!(err.kind(), ErrorKind::AddrNotAvailable);
            assert_eq!(err.message, "ARP resolution failed for 10.0.1.99 after 3 attempts");
        }
        other => panic!("expected a failure, got {:?}", other),
    }
}

#[test]
fn frames_that_arrive_during_a_search_are_kept() {
    let mut a = bind(ip_a(), 5000, MAC_A, false);
    let datagram = build_udp_frame(&MAC_B, &MAC_A, ip_b(), ip_a(), 9000, 5000, b"early", 64);
    assert!(a.absorb(&datagram.unwrap(), NOW).is_none());
    assert_eq!(a.recv_queue_len(), 1);
    assert_eq!(a.recv_buffer_bytes(), 5);
    assert_eq!(a.arp_cache().lookup(&ip_b(), NOW), Some(MacAddress::new(MAC_B)));
    let request = build_arp_request(&MAC_B, ip_b(), ip_a());
    let reply = a.absorb(&request, NOW).unwrap();
    assert_eq!(reply, build_arp_reply(&MAC_A, ip_a(), &MAC_B, ip_b()));
    assert!(a.absorb(&[0u8; 13], NOW).is_none());
    assert!(a.absorb(&[0u8; 60], NOW).is_none());
    assert_eq!(a.recv_queue_len(), 1);
}
