//! Binding of sockets.

use dpdk_udp::addr::{Ipv4Addr, SocketAddr, SocketAddrV4};
use dpdk_udp::arp::ArpCache;
use dpdk_udp::backend::{HwRxOffload, HwTxOffload};
use dpdk_udp::bind::{BackendInfo, EphemeralPorts, UdpSocketBuilder};
use dpdk_udp::socket::UdpSocket;

/// A time on the test clock, in nanoseconds.
const NOW: u64 = 1_000_000_000;

/// A DPDK backend without offloads.
fn backend() -> BackendInfo {
    BackendInfo {
        mac: [0x02, 0x00, 0x00, 0x00, 0x00, 0x01],
        mtu: 1500,
        tx_offload: HwTxOffload { ipv4_cksum: false, udp_cksum: false, vlan_insert: false },
        rx_offload: HwRxOffload { ipv4_cksum: false, udp_cksum: false, vlan_strip: false },
    }
}

/// Any port on the loopback address.
fn loopback() -> Option<SocketAddr> {
    Some(SocketAddr::V4(SocketAddrV4::new(Ipv4Addr::new(127, 0, 0, 1), 0)))
}

fn bind_local() -> UdpSocket {
    UdpSocket::bind(loopback(), &backend(), ArpCache::new(), None, NOW, &mut EphemeralPorts::new())
        .expect("bind should succeed")
}

#[test]
fn test_builder_default_is_run_to_completion_under_stubs() {
    // builder.bind() should produce a run-to-completion socket
    // (no pipeline threads, no topology overhead)
    let socket = UdpSocket::builder()
        .bind(loopback(), &backend(), ArpCache::new(), None, NOW, &mut EphemeralPorts::new())
        .expect("builder bind should succeed");
    assert!(socket.is_run_to_completion());
}

#[test]
fn test_builder_explicit_rtc_override() {
    // Explicitly requesting rx_queues(1) forces run-to-completion
    // even if more cores would be available
    let socket = UdpSocket::builder()
        .rx_queues(1)
        .bind(loopback(), &backend(), ArpCache::new(), None, NOW, &mut EphemeralPorts::new())
        .expect("builder bind should succeed");
    assert!(socket.is_run_to_completion());
}

#[test]
fn test_builder_topology_config() {
    // Test that builder correctly produces TopologyConfig
    let builder = UdpSocketBuilder::new()
        .rx_queues(4);
    let config = builder.topology_config();
    assert_eq!(config.rx_queues, Some(4));
}

#[test]
fn test_builder_partial_config() {
    // Default builder has auto-detect for rx_queues
    let builder = UdpSocketBuilder::new();
    let config = builder.topology_config();
    assert_eq!(config.rx_queues, None);
}

#[test]
fn test_socket_is_run_to_completion_by_default() {
    // Standard bind() with no builder should be run-to-completion
    let socket = bind_local();
    assert!(socket.is_run_to_completion());
}
