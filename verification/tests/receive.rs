//! What a socket does with the frames it receives.

use dpdk_udp::addr::{Ipv4Addr, SocketAddr, SocketAddrV4};
use dpdk_udp::arp::ArpCache;
use dpdk_udp::backend::{HwRxOffload, HwTxOffload};
use dpdk_udp::bind::{BackendInfo, EphemeralPorts};
use dpdk_udp::constants::{ETH_TYPE_VLAN, VLAN_TAG_LEN};
use dpdk_udp::gue::{GueConfig, build_gue_frame_into};
use dpdk_udp::routing::NetworkConfig;
use dpdk_udp::socket::UdpSocket;
use dpdk_udp::udp::{build_udp_frame, build_udp_frame_into_vlan};
use dpdk_udp::vlan::VlanConfig;

/// A time on the test clock, in nanoseconds.
const NOW: u64 = 1_000_000_000;

/// A socket on the loopback address, on a backend without offloads.
fn bind_local() -> UdpSocket {
    let backend = BackendInfo {
        mac: [0x02, 0x00, 0x00, 0x00, 0x00, 0x01],
        mtu: 1500,
        tx_offload: HwTxOffload { ipv4_cksum: false, udp_cksum: false, vlan_insert: false },
        rx_offload: HwRxOffload { ipv4_cksum: false, udp_cksum: false, vlan_strip: false },
    };
    let addr = SocketAddr::V4(SocketAddrV4::new(Ipv4Addr::new(127, 0, 0, 1), 0));
    UdpSocket::bind(Some(addr), &backend, ArpCache::new(), None, NOW, &mut EphemeralPorts::new())
        .expect("bind should succeed")
}

/// Helper: build a tagged UDP frame destined for the given port.
fn make_tagged_frame(dst_port: u16, vid: u16) -> Vec<u8> {
    let vlan = VlanConfig::new(vid);
    let mut frame = Vec::new();
    build_udp_frame_into_vlan(
        &mut frame,
        &[0xaa; 6], &[0xbb; 6],
        Ipv4Addr::new(10, 0, 1, 1), Ipv4Addr::new(127, 0, 0, 1),
        8000, dst_port,
        b"test payload", 64, &vlan,
    ).unwrap();
    frame
}

/// Helper: build an untagged UDP frame destined for the given port.
fn make_untagged_frame(dst_port: u16) -> Vec<u8> {
    build_udp_frame(
        &[0xaa; 6], &[0xbb; 6],
        Ipv4Addr::new(10, 0, 1, 1), Ipv4Addr::new(127, 0, 0, 1),
        8000, dst_port,
        b"test payload", 64,
    ).unwrap()
}

fn socket_local_port(socket: &UdpSocket) -> u16 {
    match socket.local_addr {
        SocketAddr::V4(v4) => v4.port,
        _ => panic!("expected v4"),
    }
}

fn make_gue_frame(
    inner_src_ip: Ipv4Addr,
    inner_dst_ip: Ipv4Addr,
    inner_src_port: u16,
    inner_dst_port: u16,
    gue_dst_port: u16,
    payload: &[u8],
) -> Vec<u8> {
    let mut frame = Vec::new();
    build_gue_frame_into(
        &mut frame,
        &[0xaa; 6],
        &[0xbb; 6],
        Ipv4Addr::new(10, 0, 0, 2),
        Ipv4Addr::new(127, 0, 0, 1),
        6080,
        gue_dst_port,
        inner_src_ip,
        inner_dst_ip,
        inner_src_port,
        inner_dst_port,
        payload,
        64,
    )
    .unwrap();
    frame
}

#[test]
fn socket_set_and_get_vlan() {
    let mut socket = bind_local();
    assert!(socket.vlan().is_none());

    socket.set_vlan(Some(VlanConfig::new(100)));
    let vlan = socket.vlan().unwrap();
    assert_eq!(vlan.vlan_id, 100);

    socket.set_vlan(None);
    assert!(socket.vlan().is_none());
}

#[test]
fn process_frame_zerocopy_handles_vlan_tagged_udp() {
    let mut socket = bind_local();
    let local_port = match socket.local_addr {
        SocketAddr::V4(v4) => v4.port,
        _ => panic!("expected v4"),
    };

    // Build a VLAN-tagged UDP frame addressed to our port
    let vlan = VlanConfig::new(100);
    let mut frame = Vec::new();
    build_udp_frame_into_vlan(
        &mut frame,
        &[0xaa; 6], &[0xbb; 6],
        Ipv4Addr::new(10, 0, 1, 1), Ipv4Addr::new(127, 0, 0, 1),
        8000, local_port,
        b"vlan payload", 64, &vlan,
    ).unwrap();

    let mut buf = [0u8; 1500];
    let mut result = None;
    socket.process_frame_zerocopy(&frame, local_port, &mut buf, &mut result, None, NOW);

    // Should have received the UDP payload
    let (len, src_addr) = result.expect("should receive VLAN-tagged UDP packet");
    assert_eq!(&buf[..len], b"vlan payload");
    assert_eq!(src_addr.port(), 8000);
}

#[test]
fn process_frame_zerocopy_hw_vlan_tci_filters_correctly() {
    // Simulate HW VLAN strip: untagged frame bytes + hw_vlan_tci from mbuf.
    // PortTagging mode should accept matching VID and reject wrong VID.
    let mut socket = bind_local();
    let port = socket_local_port(&socket);
    socket.set_vlan(Some(VlanConfig::new(100).port_tagging()));

    let frame = make_untagged_frame(port);
    let mut buf = [0u8; 1500];

    // Matching VID via hw_vlan_tci: should accept
    let mut result = None;
    socket.process_frame_zerocopy(&frame, port, &mut buf, &mut result, Some(100), NOW);
    assert!(result.is_some(), "hw_vlan_tci=100 should be accepted by PortTagging(100)");

    // Wrong VID via hw_vlan_tci: should drop
    let mut result = None;
    socket.process_frame_zerocopy(&frame, port, &mut buf, &mut result, Some(999), NOW);
    assert!(result.is_none(), "hw_vlan_tci=999 should be rejected by PortTagging(100)");

    // No hw_vlan_tci (genuinely untagged): should drop (PortTagging requires a tag)
    let mut result = None;
    socket.process_frame_zerocopy(&frame, port, &mut buf, &mut result, None, NOW);
    assert!(result.is_none(), "untagged frame should be rejected by PortTagging(100)");
}

#[test]
fn vlan_access_mode_rx_accepts_untagged_frame() {
    let mut socket = bind_local();
    let port = socket_local_port(&socket);
    socket.set_vlan(Some(VlanConfig::new(100).access()));

    let frame = make_untagged_frame(port);
    let mut buf = [0u8; 1500];
    let mut result = None;
    socket.process_frame_zerocopy(&frame, port, &mut buf, &mut result, None, NOW);
    assert!(result.is_some(), "Access mode should accept untagged frames");
}

#[test]
fn vlan_access_mode_rx_accepts_matching_tagged_frame() {
    let mut socket = bind_local();
    let port = socket_local_port(&socket);
    socket.set_vlan(Some(VlanConfig::new(100).access()));

    let frame = make_tagged_frame(port, 100);
    let mut buf = [0u8; 1500];
    let mut result = None;
    socket.process_frame_zerocopy(&frame, port, &mut buf, &mut result, None, NOW);
    assert!(result.is_some(), "Access mode should accept matching VID");
}

#[test]
fn vlan_access_mode_rx_drops_wrong_vid() {
    let mut socket = bind_local();
    let port = socket_local_port(&socket);
    socket.set_vlan(Some(VlanConfig::new(100).access()));

    let frame = make_tagged_frame(port, 200);
    let mut buf = [0u8; 1500];
    let mut result = None;
    socket.process_frame_zerocopy(&frame, port, &mut buf, &mut result, None, NOW);
    assert!(result.is_none(), "Access mode should drop wrong VID");
}

#[test]
fn vlan_port_tagging_rx_drops_untagged() {
    let mut socket = bind_local();
    let port = socket_local_port(&socket);
    socket.set_vlan(Some(VlanConfig::new(100).port_tagging()));

    let frame = make_untagged_frame(port);
    let mut buf = [0u8; 1500];
    let mut result = None;
    socket.process_frame_zerocopy(&frame, port, &mut buf, &mut result, None, NOW);
    assert!(result.is_none(), "PortTagging mode should drop untagged frames");
}

#[test]
fn vlan_port_tagging_rx_accepts_matching_vid() {
    let mut socket = bind_local();
    let port = socket_local_port(&socket);
    socket.set_vlan(Some(VlanConfig::new(100).port_tagging()));

    let frame = make_tagged_frame(port, 100);
    let mut buf = [0u8; 1500];
    let mut result = None;
    socket.process_frame_zerocopy(&frame, port, &mut buf, &mut result, None, NOW);
    assert!(result.is_some(), "PortTagging mode should accept matching VID");
}

#[test]
fn vlan_port_tagging_rx_drops_wrong_vid() {
    let mut socket = bind_local();
    let port = socket_local_port(&socket);
    socket.set_vlan(Some(VlanConfig::new(100).port_tagging()));

    let frame = make_tagged_frame(port, 999);
    let mut buf = [0u8; 1500];
    let mut result = None;
    socket.process_frame_zerocopy(&frame, port, &mut buf, &mut result, None, NOW);
    assert!(result.is_none(), "PortTagging mode should drop wrong VID");
}

#[test]
fn vlan_trunk_rx_accepts_allowed_vid() {
    let mut socket = bind_local();
    let port = socket_local_port(&socket);
    socket.set_vlan(Some(VlanConfig::new(100).trunk(vec![100, 200, 300], None)));

    let frame = make_tagged_frame(port, 200);
    let mut buf = [0u8; 1500];
    let mut result = None;
    socket.process_frame_zerocopy(&frame, port, &mut buf, &mut result, None, NOW);
    assert!(result.is_some(), "Trunk mode should accept allowed VID 200");
}

#[test]
fn vlan_trunk_rx_drops_disallowed_vid() {
    let mut socket = bind_local();
    let port = socket_local_port(&socket);
    socket.set_vlan(Some(VlanConfig::new(100).trunk(vec![100, 200], None)));

    let frame = make_tagged_frame(port, 999);
    let mut buf = [0u8; 1500];
    let mut result = None;
    socket.process_frame_zerocopy(&frame, port, &mut buf, &mut result, None, NOW);
    assert!(result.is_none(), "Trunk mode should drop disallowed VID");
}

#[test]
fn vlan_trunk_rx_drops_untagged_without_native() {
    let mut socket = bind_local();
    let port = socket_local_port(&socket);
    socket.set_vlan(Some(VlanConfig::new(100).trunk(vec![100], None)));

    let frame = make_untagged_frame(port);
    let mut buf = [0u8; 1500];
    let mut result = None;
    socket.process_frame_zerocopy(&frame, port, &mut buf, &mut result, None, NOW);
    assert!(result.is_none(), "Trunk mode should drop untagged without native_vlan");
}

#[test]
fn vlan_trunk_rx_accepts_untagged_with_native() {
    let mut socket = bind_local();
    let port = socket_local_port(&socket);
    socket.set_vlan(Some(VlanConfig::new(100).trunk(vec![100, 200], Some(100))));

    let frame = make_untagged_frame(port);
    let mut buf = [0u8; 1500];
    let mut result = None;
    socket.process_frame_zerocopy(&frame, port, &mut buf, &mut result, None, NOW);
    assert!(result.is_some(), "Trunk mode should accept untagged with native_vlan");
}

#[test]
fn vlan_no_config_accepts_all_frames() {
    let mut socket = bind_local();
    let port = socket_local_port(&socket);

    // No VLAN config: accept tagged
    let frame = make_tagged_frame(port, 42);
    let mut buf = [0u8; 1500];
    let mut result = None;
    socket.process_frame_zerocopy(&frame, port, &mut buf, &mut result, None, NOW);
    assert!(result.is_some(), "No VLAN config should accept tagged frames");

    // No VLAN config: accept untagged
    let frame = make_untagged_frame(port);
    let mut result2 = None;
    socket.process_frame_zerocopy(&frame, port, &mut buf, &mut result2, None, NOW);
    assert!(result2.is_some(), "No VLAN config should accept untagged frames");
}

#[test]
fn gue_rx_decapsulates_matching_frame() {
    let mut socket = bind_local();
    let port = socket_local_port(&socket);
    socket.set_gue(Some(GueConfig::new(Ipv4Addr::new(10, 0, 0, 2))));

    let frame = make_gue_frame(
        Ipv4Addr::new(192, 168, 1, 10),
        Ipv4Addr::new(127, 0, 0, 1),
        9000,
        port,
        6080,
        b"gue tunnel payload",
    );

    let mut buf = [0u8; 1500];
    let mut result = None;
    socket.process_frame_zerocopy(&frame, port, &mut buf, &mut result, None, NOW);

    assert!(result.is_some(), "GUE frame should be decapsulated and accepted");
    let (len, src_addr) = result.unwrap();
    assert_eq!(len, 18);
    assert_eq!(&buf[..len], b"gue tunnel payload");
    assert_eq!(src_addr, SocketAddr::V4(SocketAddrV4::new(
        Ipv4Addr::new(192, 168, 1, 10),
        9000,
    )));
}

#[test]
fn gue_rx_rejects_wrong_inner_port() {
    let mut socket = bind_local();
    let port = socket_local_port(&socket);
    socket.set_gue(Some(GueConfig::new(Ipv4Addr::new(10, 0, 0, 2))));

    let frame = make_gue_frame(
        Ipv4Addr::new(192, 168, 1, 10),
        Ipv4Addr::new(127, 0, 0, 1),
        9000,
        port + 1, // wrong inner port
        6080,
        b"wrong port",
    );

    let mut buf = [0u8; 1500];
    let mut result = None;
    socket.process_frame_zerocopy(&frame, port, &mut buf, &mut result, None, NOW);
    assert!(result.is_none(), "GUE frame with wrong inner port should be dropped");
}

#[test]
fn gue_rx_rejects_wrong_outer_port() {
    let mut socket = bind_local();
    let port = socket_local_port(&socket);
    socket.set_gue(Some(GueConfig::new(Ipv4Addr::new(10, 0, 0, 2))));

    let frame = make_gue_frame(
        Ipv4Addr::new(192, 168, 1, 10),
        Ipv4Addr::new(127, 0, 0, 1),
        9000,
        port,
        7000, // wrong outer GUE port
        b"wrong outer port",
    );

    let mut buf = [0u8; 1500];
    let mut result = None;
    socket.process_frame_zerocopy(&frame, port, &mut buf, &mut result, None, NOW);
    // Falls through to normal UDP parse which won't match either
    assert!(result.is_none(), "GUE frame with wrong outer port should not decap");
}

#[test]
fn gue_rx_passthrough_when_not_configured() {
    let mut socket = bind_local();
    let port = socket_local_port(&socket);

    // Normal untagged frame should work without GUE config
    let frame = make_untagged_frame(port);
    let mut buf = [0u8; 1500];
    let mut result = None;
    socket.process_frame_zerocopy(&frame, port, &mut buf, &mut result, None, NOW);
    assert!(result.is_some(), "Normal frames should work without GUE config");
}

#[test]
fn gue_max_payload_accounts_for_overhead() {
    let mut socket = bind_local();
    let base = socket.max_gue_payload();

    socket.set_gue(Some(GueConfig::new(Ipv4Addr::new(10, 0, 0, 2))));
    // GUE overhead is 32 bytes (outer IP 20 + outer UDP 8 + GUE header 4)
    assert_eq!(socket.max_gue_payload(), base - 32);
}

#[test]
fn gue_config_via_network_config() {
    let net_cfg = NetworkConfig::new(Ipv4Addr::new(10, 0, 1, 50), 24)
        .with_gateway(Ipv4Addr::new(10, 0, 1, 1))
        .with_gue(GueConfig::new(Ipv4Addr::new(10, 0, 2, 1)));
    assert!(net_cfg.gue.is_some());
}

#[test]
fn gue_set_and_get() {
    let mut socket = bind_local();
    assert!(socket.gue().is_none());

    socket.set_gue(Some(GueConfig::new(Ipv4Addr::new(10, 0, 0, 2))));
    assert!(socket.gue().is_some());
    assert_eq!(socket.gue().unwrap().remote_ip, Ipv4Addr::new(10, 0, 0, 2));

    socket.set_gue(None);
    assert!(socket.gue().is_none());
}

#[test]
fn gue_rx_empty_payload() {
    let mut socket = bind_local();
    let port = socket_local_port(&socket);
    socket.set_gue(Some(GueConfig::new(Ipv4Addr::new(10, 0, 0, 2))));

    let frame = make_gue_frame(
        Ipv4Addr::new(192, 168, 1, 10),
        Ipv4Addr::new(127, 0, 0, 1),
        9000,
        port,
        6080,
        &[],
    );

    let mut buf = [0u8; 1500];
    let mut result = None;
    socket.process_frame_zerocopy(&frame, port, &mut buf, &mut result, None, NOW);
    assert!(result.is_some(), "Empty GUE payload should be accepted");
    let (len, _) = result.unwrap();
    assert_eq!(len, 0);
}

// --- Speed ---

const ITERATIONS: u64 = 500_000;

/// Processes a frame again and again, and gives the packets per second and the
/// nanoseconds per packet.
fn rate(
    socket: &mut UdpSocket,
    frame: &[u8],
    port: u16,
    hw_vlan_tci: Option<u16>,
    accepted: bool,
) -> (f64, f64) {
    let mut buf = [0u8; 1500];
    for _ in 0..1000 {
        let mut result = None;
        socket.process_frame_zerocopy(frame, port, &mut buf, &mut result, hw_vlan_tci, NOW);
        assert_eq!(result.is_some(), accepted);
    }
    let start = std::time::Instant::now();
    for _ in 0..ITERATIONS {
        let mut result = None;
        socket.process_frame_zerocopy(frame, port, &mut buf, &mut result, hw_vlan_tci, NOW);
    }
    let elapsed = start.elapsed();
    let pps = ITERATIONS as f64 / elapsed.as_secs_f64();
    (pps, elapsed.as_nanos() as f64 / ITERATIONS as f64)
}

#[test]
fn vlan_pps_benchmark() {
    let scenarios = vec![
        ("No VLAN config (untagged)", None, None, true),
        ("No VLAN config (tagged frame)", None, Some(100), true),
        (
            "PortTagging mode (matching VID 100)",
            Some(VlanConfig::new(100).port_tagging()),
            Some(100),
            true,
        ),
        ("Access mode (untagged frame)", Some(VlanConfig::new(100).access()), None, true),
        ("Access mode (matching VID 100)", Some(VlanConfig::new(100).access()), Some(100), true),
        (
            "Trunk mode (VID 100 in allowed set)",
            Some(VlanConfig::new(100).trunk(vec![100, 200, 300], None)),
            Some(100),
            true,
        ),
        (
            "Trunk mode (untagged, native_vlan=100)",
            Some(VlanConfig::new(100).trunk(vec![100, 200], Some(100))),
            None,
            true,
        ),
        (
            "PortTagging mode (DROP: wrong VID)",
            Some(VlanConfig::new(100).port_tagging()),
            Some(999),
            false,
        ),
        (
            "PortTagging mode (DROP: untagged)",
            Some(VlanConfig::new(100).port_tagging()),
            None,
            false,
        ),
    ];

    println!("{:<50} {:>12} {:>10}", "Scenario", "PPS", "ns/pkt");
    for (label, vlan_config, tag_vid, accepted) in scenarios {
        let mut socket = bind_local();
        let port = socket_local_port(&socket);
        socket.set_vlan(vlan_config);
        let frame = match tag_vid {
            Some(vid) => make_tagged_frame(port, vid),
            None => make_untagged_frame(port),
        };
        let (pps, ns_per_pkt) = rate(&mut socket, &frame, port, None, accepted);
        println!("{:<50} {:>10.0} K {:>8.0} ns", label, pps / 1000.0, ns_per_pkt);
    }
}

#[test]
fn hw_vlan_strip_benchmark() {
    let vid: u16 = 100;
    let mut socket = bind_local();
    let port = socket_local_port(&socket);
    socket.set_vlan(Some(VlanConfig::new(vid).port_tagging()));
    let untagged_frame = make_untagged_frame(port);

    // A frame with its tag put back
    let mut reconstructed = Vec::with_capacity(untagged_frame.len() + VLAN_TAG_LEN);
    reconstructed.extend_from_slice(&untagged_frame[..12]);
    reconstructed.extend_from_slice(&ETH_TYPE_VLAN.to_be_bytes());
    reconstructed.extend_from_slice(&vid.to_be_bytes());
    reconstructed.extend_from_slice(&untagged_frame[12..]);
    let (_, ns_a) = rate(&mut socket, &reconstructed, port, None, true);
    println!("tag in the frame: {:.0} ns/pkt", ns_a);

    // A frame whose tag the NIC stripped off
    let (_, ns_b) = rate(&mut socket, &untagged_frame, port, Some(vid), true);
    println!("tag beside the frame: {:.0} ns/pkt", ns_b);
}

#[test]
fn gue_pps_benchmark() {
    let mut socket = bind_local();
    let port = socket_local_port(&socket);
    socket.set_gue(Some(GueConfig::new(Ipv4Addr::new(10, 0, 0, 2))));

    let frame = make_gue_frame(
        Ipv4Addr::new(192, 168, 1, 10),
        Ipv4Addr::new(127, 0, 0, 1),
        9000,
        port,
        6080,
        b"benchmark payload data for GUE tunnel",
    );
    let (_, ns_gue) = rate(&mut socket, &frame, port, None, true);
    println!("GUE decap (matching frame): {:.0} ns/pkt", ns_gue);

    socket.set_gue(None);
    let no_gue_frame = make_untagged_frame(port);
    let (_, ns_plain) = rate(&mut socket, &no_gue_frame, port, None, true);
    println!("Plain UDP: {:.0} ns/pkt, GUE overhead: {:.0} ns/pkt", ns_plain, ns_gue - ns_plain);
}
