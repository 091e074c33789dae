//! Which address, backend, routing and settings a bound socket gets.

use dpdk_udp::addr::{Ipv4Addr, Ipv6Addr, MacAddress, SocketAddr, SocketAddrV4, SocketAddrV6};
use dpdk_udp::arp::{build_arp_request, ArpCache, ProcArpEntry};
use dpdk_udp::backend::{BackendType, HwRxOffload, HwTxOffload};
use dpdk_udp::bind::{BackendInfo, DetectedNetwork, EphemeralPorts, UdpSocketBuilder};
use dpdk_udp::error::ErrorKind;
use dpdk_udp::gue::GueConfig;
use dpdk_udp::routing::{NetworkConfig, NextHop};
use dpdk_udp::socket::UdpSocket;
use dpdk_udp::vlan::VlanConfig;

const NOW: u64 = 1_000_000_000;
const MAC: [u8; 6] = [0x02, 0, 0, 0, 0, 0x01];

fn backend(mtu: u16) -> BackendInfo {
    BackendInfo {
        mac: MAC,
        mtu,
        tx_offload: HwTxOffload { ipv4_cksum: true, udp_cksum: false, vlan_insert: true },
        rx_offload: HwRxOffload { ipv4_cksum: false, udp_cksum: true, vlan_strip: true },
    }
}

fn ip() -> Ipv4Addr {
    Ipv4Addr::new(10, 0, 1, 10)
}

fn v4(ip: Ipv4Addr, port: u16) -> Option<SocketAddr> {
    Some(SocketAddr::V4(SocketAddrV4::new(ip, port)))
}

fn detected() -> Option<DetectedNetwork> {
    Some(DetectedNetwork {
        config: NetworkConfig::new(ip(), 24).with_gateway(Ipv4Addr::new(10, 0, 1, 1)),
        arp_entries: vec![ProcArpEntry { ip: Ipv4Addr::new(10, 0, 1, 1), mac: [0x0e; 6] }],
    })
}

fn bind(addr: Option<SocketAddr>, detected: Option<DetectedNetwork>) -> UdpSocket {
    let mut ports = EphemeralPorts::new();
    UdpSocket::bind(addr, &backend(9001), ArpCache::new(), detected, NOW, &mut ports).unwrap()
}

#[test]
fn ephemeral_ports_follow_each_other() {
    let mut ports = EphemeralPorts::new();
    for expected in 32768..=60999 {
        assert_eq!(ports.allocate_ephemeral_port(), expected);
    }
    assert_eq!(ports.allocate_ephemeral_port(), 32768);
    assert_eq!(ports.allocate_ephemeral_port(), 32769);
}

#[test]
fn given_port_is_kept() {
    let mut ports = EphemeralPorts::new();
    let socket =
        UdpSocket::bind(v4(ip(), 9000), &backend(1500), ArpCache::new(), None, NOW, &mut ports);
    assert_eq!(Some(socket.unwrap().local_addr().unwrap()), v4(ip(), 9000));
    assert_eq!(ports.allocate_ephemeral_port(), 32768);
}

#[test]
fn port_zero_gets_the_next_port() {
    let mut ports = EphemeralPorts::new();
    ports.allocate_ephemeral_port();
    let socket =
        UdpSocket::bind(v4(ip(), 0), &backend(1500), ArpCache::new(), None, NOW, &mut ports);
    assert_eq!(Some(socket.unwrap().local_addr().unwrap()), v4(ip(), 32769));
}

#[test]
fn only_ipv4_addresses_can_be_bound() {
    let mut ports = EphemeralPorts::new();
    let v6 = SocketAddrV6 { ip: Ipv6Addr::localhost(), port: 0, flowinfo: 0, scope_id: 0 };
    let addr = Some(SocketAddr::V6(v6));
    let err = UdpSocket::bind(addr, &backend(1500), ArpCache::new(), None, NOW, &mut ports);
    let err = err.err().unwrap();
    assert_eq!(err.kind(), ErrorKind::InvalidInput);
    assert_eq!(err.message, "IPv6 not supported");
    let cache = ArpCache::new();
    let err =
        UdpSocket::bind_with_backend(None, "raw", &backend(1500), cache, None, NOW, &mut ports);
    let err = err.err().unwrap();
    assert_eq!(err.kind(), ErrorKind::InvalidInput);
    assert_eq!(err.message, "Invalid address");
    assert_eq!(ports.allocate_ephemeral_port(), 32768);
}

#[test]
fn bound_socket_has_the_defaults() {
    let socket = bind(v4(ip(), 9000), None);
    assert_eq!(socket.active_backend(), "dpdk");
    assert_eq!(socket.src_mac(), MacAddress::new(MAC));
    assert_eq!(socket.ttl().unwrap(), 64);
    assert!(socket.auto_arp() && socket.auto_icmp() && socket.auto_garp());
    assert_eq!(socket.read_timeout().unwrap(), None);
    assert_eq!(socket.write_timeout().unwrap(), None);
    assert!(!socket.is_connected() && socket.connection_stats().is_none());
    assert_eq!(socket.peer_addr().unwrap_err().kind(), ErrorKind::NotConnected);
    assert!(socket.arp_cache().is_empty());
    assert!(socket.has_tx_ipv4_cksum_offload() && !socket.has_tx_udp_cksum_offload());
    assert!(!socket.has_rx_ipv4_cksum_offload() && socket.has_rx_udp_cksum_offload());
    assert!(socket.has_tx_vlan_offload() && socket.has_rx_vlan_offload());
    assert!(socket.has_hw_vlan_insert());
}

#[test]
fn bound_socket_announces_its_address() {
    let mut socket = bind(v4(ip(), 9000), None);
    let announcement = build_arp_request(&MAC, ip(), ip());
    assert_eq!(socket.send_gratuitous_arp_if_enabled(), Some(announcement));
    socket.set_auto_garp(false);
    assert_eq!(socket.send_gratuitous_arp_if_enabled(), None);
    assert_eq!(socket.send_gratuitous_arp(), Some(announcement));
    let target = Ipv4Addr::new(10, 0, 1, 77);
    assert_eq!(socket.send_arp_request(target), Some(build_arp_request(&MAC, ip(), target)));
}

#[test]
fn port_mtu_raises_the_mtu_on_dpdk() {
    let mut ports = EphemeralPorts::new();
    assert_eq!(bind(v4(ip(), 9000), None).max_udp_payload(), 8973);
    let named = |name: &str, ports: &mut EphemeralPorts| {
        let addr = v4(ip(), 9000);
        let cache = ArpCache::new();
        UdpSocket::bind_with_backend(addr, name, &backend(9001), cache, None, NOW, ports).unwrap()
    };
    let raw = named("af_packet", &mut ports);
    assert_eq!(raw.max_udp_payload(), 1472);
    assert_eq!(raw.active_backend(), "af_packet");
    let dpdk = named("dpdk", &mut ports);
    assert_eq!(dpdk.max_udp_payload(), 8973);
    assert!(dpdk.has_tx_vlan_offload() && !dpdk.has_hw_vlan_insert());
}

#[test]
fn port_mtu_does_not_lower_the_mtu() {
    let network = DetectedNetwork {
        config: NetworkConfig::new(ip(), 24).with_mtu(9001),
        arp_entries: Vec::new(),
    };
    let mut ports = EphemeralPorts::new();
    let addr = v4(ip(), 9000);
    let cache = ArpCache::new();
    let socket =
        UdpSocket::bind(addr, &backend(1500), cache, Some(network), NOW, &mut ports).unwrap();
    assert_eq!(socket.routing_table().mtu(), 9001);
}

#[test]
fn detected_network_is_taken_over() {
    let socket = bind(v4(ip(), 9000), detected());
    let gateway = Ipv4Addr::new(10, 0, 1, 1);
    assert_eq!(socket.arp_cache().lookup(&gateway, NOW), Some(MacAddress::new([0x0e; 6])));
    let far = Ipv4Addr::new(8, 8, 8, 8);
    assert_eq!(socket.routing_table().lookup(far), NextHop::Gateway(gateway));
}

#[test]
fn nothing_is_detected_for_the_unspecified_address() {
    let socket = bind(v4(Ipv4Addr::unspecified(), 9000), detected());
    assert!(socket.arp_cache().is_empty());
    let far = Ipv4Addr::new(8, 8, 8, 8);
    assert_eq!(socket.routing_table().lookup(far), NextHop::Direct(far));
}

#[test]
fn builder_applies_its_network() {
    let network = NetworkConfig::new(ip(), 24)
        .with_gateway(Ipv4Addr::new(10, 0, 1, 254))
        .with_mtu(4000)
        .with_vlan(VlanConfig::new(7))
        .with_gue(GueConfig::new(Ipv4Addr::new(172, 16, 0, 1)));
    let builder = UdpSocketBuilder::new().backend_type(BackendType::Dpdk).network(network);
    assert_eq!(builder.port_mtu(), 4000);
    let mut ports = EphemeralPorts::new();
    let cache = ArpCache::new();
    let socket =
        builder.bind(v4(ip(), 9000), &backend(4000), cache, detected(), NOW, &mut ports).unwrap();
    assert_eq!(socket.vlan().unwrap().vlan_id, 7);
    assert_eq!(socket.gue().unwrap().remote_ip, Ipv4Addr::new(172, 16, 0, 1));
    assert_eq!(socket.max_gue_payload(), 4000 - 28 - 32);
    let far = Ipv4Addr::new(8, 8, 8, 8);
    let gateway = Ipv4Addr::new(10, 0, 1, 254);
    assert_eq!(socket.routing_table().lookup(far), NextHop::Gateway(gateway));
}

#[test]
fn builder_without_an_mtu_takes_jumbo_frames() {
    assert_eq!(UdpSocketBuilder::new().port_mtu(), 9001);
    let network = NetworkConfig::new(ip(), 24).with_mtu(0);
    assert_eq!(UdpSocketBuilder::new().network(network).port_mtu(), 9001);
    assert_eq!(UdpSocketBuilder::default().topology_config().rx_queues, None);
}

#[test]
fn other_backend_has_a_cache_beside_that_of_the_port() {
    let gateway = Ipv4Addr::new(10, 0, 1, 1);
    let known = Ipv4Addr::new(10, 0, 1, 2);
    let added = Ipv4Addr::new(10, 0, 1, 3);
    let mut cache = ArpCache::new();
    cache.insert(known, MacAddress::new([0x0b; 6]), NOW);
    let mut ports = EphemeralPorts::new();
    let mut raw = UdpSocket::bind_with_backend(
        v4(ip(), 9000),
        "raw",
        &backend(1500),
        cache,
        detected(),
        NOW,
        &mut ports,
    )
    .unwrap();
    raw.add_arp_entry(added, MacAddress::new([0x0c; 6]), NOW);
    assert_eq!(raw.arp_cache().lookup(&known, NOW), Some(MacAddress::new([0x0b; 6])));
    assert_eq!(raw.arp_cache().lookup(&added, NOW), Some(MacAddress::new([0x0c; 6])));
    assert_eq!(raw.arp_cache().lookup(&gateway, NOW), None);
    let own = &raw.arp_handler.cache;
    assert_eq!(own.lookup(&gateway, NOW), Some(MacAddress::new([0x0e; 6])));
    assert_eq!(own.lookup(&known, NOW), None);
    assert_eq!(own.lookup(&added, NOW), None);
}
