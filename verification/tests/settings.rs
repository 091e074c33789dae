//! The settings of a socket.

use dpdk_udp::addr::{Ipv4Addr, MacAddress, SocketAddr, SocketAddrV4};
use dpdk_udp::arp::ArpCache;
use dpdk_udp::backend::{HwRxOffload, HwTxOffload};
use dpdk_udp::bind::{BackendInfo, EphemeralPorts};
use dpdk_udp::error::{ErrorKind, IoError};
use dpdk_udp::routing::NetworkConfig;
use dpdk_udp::send::SendStep;
use dpdk_udp::socket::{RecvStep, UdpSocket};

const NOW: u64 = 1_000_000_000;

fn info() -> BackendInfo {
    BackendInfo {
        mac: [0x02, 0, 0, 0, 0, 0x01],
        mtu: 1500,
        tx_offload: HwTxOffload { ipv4_cksum: false, udp_cksum: false, vlan_insert: false },
        rx_offload: HwRxOffload { ipv4_cksum: false, udp_cksum: false, vlan_strip: false },
    }
}

fn local() -> Option<SocketAddr> {
    Some(SocketAddr::V4(SocketAddrV4::new(Ipv4Addr::new(10, 0, 1, 10), 9000)))
}

fn bound() -> UdpSocket {
    let mut ports = EphemeralPorts::new();
    UdpSocket::bind(local(), &info(), ArpCache::new(), None, NOW, &mut ports).unwrap()
}

fn send(socket: &mut UdpSocket) -> Result<SendStep, IoError> {
    socket.send(&mut Vec::new(), b"hello", NOW)
}

fn recv(socket: &mut UdpSocket) -> Result<RecvStep, IoError> {
    let mut buf = [0u8; 1024];
    socket.recv(&mut buf, NOW, NOW)
}

fn set_ttl(socket: &mut UdpSocket) -> Result<(), IoError> {
    socket.set_ttl(64)
}

fn ttl(socket: &UdpSocket) -> Result<u32, IoError> {
    socket.ttl()
}

#[test]
fn test_api_send_signature() {
    assert!(send(&mut bound()).is_err());
}

#[test]
fn test_api_recv_signature() {
    assert!(recv(&mut bound()).is_ok());
}

#[test]
fn test_api_set_ttl_signature() {
    assert!(set_ttl(&mut bound()).is_ok());
}

#[test]
fn test_api_ttl_signature() {
    assert_eq!(ttl(&bound()).unwrap(), 64);
}

#[test]
fn ttl_keeps_its_low_eight_bits() {
    let mut socket = bound();
    socket.set_ttl(300).unwrap();
    assert_eq!(socket.ttl().unwrap(), 44);
}

#[test]
fn timeouts_are_kept_and_zero_is_refused() {
    let mut socket = bound();
    socket.set_read_timeout(Some(5)).unwrap();
    socket.set_write_timeout(Some(7)).unwrap();
    for err in [
        socket.set_read_timeout(Some(0)).unwrap_err(),
        socket.set_write_timeout(Some(0)).unwrap_err(),
    ] {
        assert_eq!(err.kind(), ErrorKind::InvalidInput);
        assert_eq!(err.message, "zero duration not supported");
    }
    assert_eq!(socket.read_timeout().unwrap(), Some(5));
    assert_eq!(socket.write_timeout().unwrap(), Some(7));
    socket.set_read_timeout(None).unwrap();
    assert_eq!(socket.read_timeout().unwrap(), None);
}

#[test]
fn connection_starts_its_statistics() {
    let mut socket = bound();
    let err = socket.connect(None).unwrap_err();
    assert_eq!(err.kind(), ErrorKind::InvalidInput);
    assert_eq!(err.message, "Invalid address");
    assert!(!socket.is_connected());
    let peer = SocketAddr::V4(SocketAddrV4::new(Ipv4Addr::new(10, 0, 1, 20), 1));
    socket.connect(Some(peer)).unwrap();
    assert!(socket.is_connected());
    assert_eq!(socket.peer_addr().unwrap(), peer);
    let stats = socket.connection_stats().unwrap();
    assert_eq!(Some(stats.local_addr), local());
    assert_eq!(stats.remote_addr, peer);
    assert_eq!(stats.packets_sent + stats.packets_received, 0);
}

#[test]
fn multicast_groups_have_a_mac() {
    let socket = bound();
    let any = Ipv4Addr::unspecified();
    let group = Ipv4Addr::new(239, 255, 1, 2);
    let mac = socket.join_multicast_v4(&group, &any).unwrap();
    assert_eq!(mac, MacAddress::new([0x01, 0x00, 0x5e, 0x7f, 0x01, 0x02]));
    let mac = socket.join_multicast_v4(&Ipv4Addr::new(224, 0, 0, 251), &any).unwrap();
    assert_eq!(mac, MacAddress::new([0x01, 0x00, 0x5e, 0x00, 0x00, 0xfb]));
    assert!(socket.leave_multicast_v4(&group, &any).is_ok());
}

#[test]
fn other_addresses_are_no_multicast_groups() {
    let socket = bound();
    let any = Ipv4Addr::unspecified();
    for ip in [Ipv4Addr::new(223, 255, 255, 255), Ipv4Addr::new(240, 0, 0, 0)] {
        let err = socket.join_multicast_v4(&ip, &any).unwrap_err();
        assert_eq!(err.kind(), ErrorKind::InvalidInput);
        assert_eq!(err.message, "Address is not a multicast address");
        assert!(socket.leave_multicast_v4(&ip, &any).is_err());
    }
}

#[test]
fn promiscuous_mode_is_fixed_on_the_dpdk_port() {
    let err = bound().set_promiscuous(true).unwrap_err();
    assert_eq!(err.kind(), ErrorKind::Other);
    assert_eq!(err.message, "Promiscuous mode must be set before bind() via PortConfig");
    let mut ports = EphemeralPorts::new();
    let cache = ArpCache::new();
    let raw = UdpSocket::bind_with_backend(local(), "raw", &info(), cache, None, NOW, &mut ports);
    assert!(raw.unwrap().set_promiscuous(true).is_ok());
}

#[test]
fn routing_sets_the_largest_payload() {
    let mut socket = bound();
    socket.set_routing(NetworkConfig::new(Ipv4Addr::new(10, 0, 1, 10), 24).with_mtu(9001));
    assert_eq!(socket.max_udp_payload(), 8973);
    assert_eq!(socket.max_gue_payload(), 8973);
    socket.set_routing(NetworkConfig::new(Ipv4Addr::new(10, 0, 1, 10), 24).with_mtu(20));
    assert_eq!(socket.max_udp_payload(), 0);
}
