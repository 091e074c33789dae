//! 802.1Q tags.

use dpdk_udp::addr::Ipv4Addr;
use dpdk_udp::constants::{
    ETH_HEADER_LEN, ETH_TYPE_IPV4, ETH_TYPE_VLAN, TOTAL_HEADER_LEN_VLAN, VLAN_TAG_LEN,
};
use dpdk_udp::routing::NetworkConfig;
use dpdk_udp::udp::{
    build_udp_frame, build_udp_frame_into_vlan, parse_udp_packet, parse_udp_packet_ref,
    verify_ipv4_checksum, verify_udp_checksum,
};
use dpdk_udp::vlan::{VlanConfig, VlanMode, detect_vlan};

#[test]
fn test_vlan_config_force_software_default() {
    let cfg = VlanConfig::new(100);
    assert!(!cfg.force_software);
}

#[test]
fn test_vlan_config_force_software_builder() {
    let cfg = VlanConfig::new(100).with_force_software(true);
    assert!(cfg.force_software);

    let cfg = VlanConfig::new(100).with_force_software(false);
    assert!(!cfg.force_software);
}

#[test]
fn test_vlan_config_force_software_does_not_affect_tags_on_tx() {
    // force_software doesn't change WHAT gets tagged — only HOW
    let cfg_hw = VlanConfig::new(100).port_tagging();
    let cfg_sw = VlanConfig::new(100).port_tagging().with_force_software(true);
    assert_eq!(cfg_hw.tags_on_tx(), cfg_sw.tags_on_tx());

    let cfg_hw = VlanConfig::new(100).access();
    let cfg_sw = VlanConfig::new(100).access().with_force_software(true);
    assert_eq!(cfg_hw.tags_on_tx(), cfg_sw.tags_on_tx());
}

#[test]
fn test_rx_hw_vlan_strip_direct_tci() {
    // Simulate what happens when the NIC strips a VLAN tag:
    // The NIC delivers an untagged frame but sets ol_flags and vlan_tci
    // in the mbuf metadata. detect_vlan() receives the hw_vlan_tci directly
    // and returns the correct FrameLayout without frame reconstruction.

    // An untagged frame (what the NIC delivers after stripping):
    let untagged = vec![
        0xFF, 0xFF, 0xFF, 0xFF, 0xFF, 0xFF, // dst MAC (broadcast)
        0x02, 0x00, 0x00, 0x00, 0x00, 0x01, // src MAC
        0x08, 0x00, // EtherType: IPv4
        // ... payload bytes
        0x45, 0x00, 0x00, 0x1C,
    ];

    let hw_tci: u16 = 0x0064; // VID=100, PCP=0, DEI=0

    // With hw_vlan_tci=None: untagged frame, no VLAN detected
    let layout_no_hw = detect_vlan(&untagged, None).unwrap();
    assert!(layout_no_hw.vlan_tci.is_none());
    assert_eq!(layout_no_hw.ethertype, ETH_TYPE_IPV4);
    assert_eq!(layout_no_hw.l3_offset, ETH_HEADER_LEN);

    // With hw_vlan_tci=Some(tci): untagged frame, but VLAN TCI from hardware
    let layout_hw = detect_vlan(&untagged, Some(hw_tci)).unwrap();
    assert_eq!(layout_hw.vlan_tci, Some(hw_tci));
    assert_eq!(layout_hw.ethertype, ETH_TYPE_IPV4);
    // L3 offset is still 14 (frame bytes are untagged)
    assert_eq!(layout_hw.l3_offset, ETH_HEADER_LEN);
    // The VID from the TCI should be 100
    assert_eq!(hw_tci & 0x0FFF, 100);
}

#[test]
fn vlan_config_encode_decode_tci() {
    let config = VlanConfig::new(100).with_priority(3).with_dei(true);
    let tci = config.encode_tci();
    let decoded = VlanConfig::from_tci(tci);
    assert_eq!(decoded.vlan_id, 100);
    assert_eq!(decoded.priority, 3);
    assert!(decoded.dei);
}

#[test]
fn vlan_config_tci_encoding() {
    // VID 100, PCP 5, DEI 0
    let config = VlanConfig { vlan_id: 100, priority: 5, dei: false, mode: VlanMode::default(), force_software: false };
    let tci = config.encode_tci();
    assert_eq!(tci & 0x0FFF, 100);           // VID
    assert_eq!((tci >> 13) & 0x07, 5);        // PCP
    assert_eq!((tci >> 12) & 1, 0);            // DEI

    // VID 4094 (max), PCP 7, DEI 1
    let config = VlanConfig { vlan_id: 4094, priority: 7, dei: true, mode: VlanMode::default(), force_software: false };
    let tci = config.encode_tci();
    assert_eq!(tci & 0x0FFF, 4094);
    assert_eq!((tci >> 13) & 0x07, 7);
    assert_eq!((tci >> 12) & 1, 1);
}

#[test]
fn vlan_config_new_sets_defaults() {
    let config = VlanConfig::new(42);
    assert_eq!(config.vlan_id, 42);
    assert_eq!(config.priority, 0);
    assert!(!config.dei);
}

#[test]
fn build_and_parse_vlan_tagged_frame() {
    let src_mac = [0x11, 0x22, 0x33, 0x44, 0x55, 0x66];
    let dst_mac = [0xaa, 0xbb, 0xcc, 0xdd, 0xee, 0xff];
    let src_ip = Ipv4Addr::new(10, 0, 1, 10);
    let dst_ip = Ipv4Addr::new(10, 0, 2, 20);
    let payload = b"hello vlan";
    let vlan = VlanConfig::new(100).with_priority(3);

    let mut buf = Vec::new();
    let len = build_udp_frame_into_vlan(
        &mut buf, &src_mac, &dst_mac, src_ip, dst_ip, 5000, 9000,
        payload, 64, &vlan,
    ).unwrap();

    assert_eq!(len, TOTAL_HEADER_LEN_VLAN + payload.len());
    assert_eq!(buf.len(), len);

    // Verify VLAN tag is present
    let tpid = u16::from_be_bytes([buf[12], buf[13]]);
    assert_eq!(tpid, ETH_TYPE_VLAN);
    let tci = u16::from_be_bytes([buf[14], buf[15]]);
    assert_eq!(tci & 0x0FFF, 100);             // VID
    assert_eq!((tci >> 13) & 0x07, 3);          // PCP
    let inner_ethertype = u16::from_be_bytes([buf[16], buf[17]]);
    assert_eq!(inner_ethertype, ETH_TYPE_IPV4);

    // Parse it back
    let parsed = parse_udp_packet(&buf).expect("should parse VLAN-tagged UDP");
    assert_eq!(parsed.src_ip, src_ip);
    assert_eq!(parsed.dst_ip, dst_ip);
    assert_eq!(parsed.src_port, 5000);
    assert_eq!(parsed.dst_port, 9000);
    assert_eq!(parsed.payload, payload);
    assert_eq!(parsed.vlan_id, Some(100));
}

#[test]
fn parse_untagged_frame_has_no_vlan_id() {
    let frame = build_udp_frame(
        &[0x11; 6], &[0xaa; 6],
        Ipv4Addr::new(10, 0, 1, 10), Ipv4Addr::new(10, 0, 2, 20),
        5000, 9000, b"hello", 64,
    ).unwrap();

    let parsed = parse_udp_packet(&frame).unwrap();
    assert!(parsed.vlan_id.is_none());
}

#[test]
fn parse_udp_packet_ref_handles_vlan() {
    let vlan = VlanConfig::new(200).with_priority(5).with_dei(true);
    let mut buf = Vec::new();
    build_udp_frame_into_vlan(
        &mut buf, &[0x11; 6], &[0xaa; 6],
        Ipv4Addr::new(10, 0, 1, 10), Ipv4Addr::new(10, 0, 2, 20),
        1234, 5678, b"zerocopy vlan", 64, &vlan,
    ).unwrap();

    let parsed = parse_udp_packet_ref(&buf).expect("should parse VLAN-tagged ref");
    assert_eq!(parsed.payload, b"zerocopy vlan");
    assert_eq!(parsed.src_port, 1234);
    assert_eq!(parsed.dst_port, 5678);
    assert_eq!(parsed.vlan_id, Some(200));
}

#[test]
fn verify_checksums_on_vlan_tagged_frame() {
    let vlan = VlanConfig::new(42);
    let mut buf = Vec::new();
    build_udp_frame_into_vlan(
        &mut buf, &[0x11; 6], &[0xaa; 6],
        Ipv4Addr::new(192, 168, 1, 1), Ipv4Addr::new(192, 168, 1, 2),
        3000, 4000, b"checksum test", 128, &vlan,
    ).unwrap();

    assert!(verify_ipv4_checksum(&buf), "IPv4 checksum should be valid on VLAN frame");
    assert!(verify_udp_checksum(&buf), "UDP checksum should be valid on VLAN frame");
}

#[test]
fn verify_checksums_on_corrupted_vlan_frame() {
    let vlan = VlanConfig::new(42);
    let mut buf = Vec::new();
    build_udp_frame_into_vlan(
        &mut buf, &[0x11; 6], &[0xaa; 6],
        Ipv4Addr::new(192, 168, 1, 1), Ipv4Addr::new(192, 168, 1, 2),
        3000, 4000, b"corrupt me", 128, &vlan,
    ).unwrap();

    // Corrupt a payload byte
    let last = buf.len() - 1;
    buf[last] ^= 0xFF;

    assert!(verify_ipv4_checksum(&buf), "IP checksum should still be valid");
    assert!(!verify_udp_checksum(&buf), "UDP checksum should fail after payload corruption");
}

#[test]
fn detect_vlan_on_untagged_frame() {
    let frame = build_udp_frame(
        &[0x11; 6], &[0xaa; 6],
        Ipv4Addr::new(10, 0, 1, 1), Ipv4Addr::new(10, 0, 1, 2),
        1000, 2000, b"test", 64,
    ).unwrap();

    let layout = detect_vlan(&frame, None).unwrap();
    assert_eq!(layout.ethertype, ETH_TYPE_IPV4);
    assert_eq!(layout.l3_offset, ETH_HEADER_LEN);
    assert!(layout.vlan_tci.is_none());
}

#[test]
fn detect_vlan_on_tagged_frame() {
    let vlan = VlanConfig::new(500).with_priority(2);
    let mut buf = Vec::new();
    build_udp_frame_into_vlan(
        &mut buf, &[0x11; 6], &[0xaa; 6],
        Ipv4Addr::new(10, 0, 1, 1), Ipv4Addr::new(10, 0, 1, 2),
        1000, 2000, b"test", 64, &vlan,
    ).unwrap();

    let layout = detect_vlan(&buf, None).unwrap();
    assert_eq!(layout.ethertype, ETH_TYPE_IPV4);
    assert_eq!(layout.l3_offset, ETH_HEADER_LEN + VLAN_TAG_LEN);
    let tci = layout.vlan_tci.unwrap();
    assert_eq!(tci & 0x0FFF, 500);
    assert_eq!((tci >> 13) & 0x07, 2);
}

#[test]
fn detect_vlan_returns_none_on_too_short_frame() {
    assert!(detect_vlan(&[], None).is_none());
    assert!(detect_vlan(&[0u8; 13], None).is_none());
}

#[test]
fn vlan_frame_is_4_bytes_longer_than_untagged() {
    let src_mac = [0x11; 6];
    let dst_mac = [0xaa; 6];
    let src_ip = Ipv4Addr::new(10, 0, 1, 1);
    let dst_ip = Ipv4Addr::new(10, 0, 1, 2);
    let payload = b"size test";

    let untagged = build_udp_frame(
        &src_mac, &dst_mac, src_ip, dst_ip, 1000, 2000, payload, 64,
    ).unwrap();

    let mut tagged = Vec::new();
    build_udp_frame_into_vlan(
        &mut tagged, &src_mac, &dst_mac, src_ip, dst_ip, 1000, 2000,
        payload, 64, &VlanConfig::new(1),
    ).unwrap();

    assert_eq!(tagged.len(), untagged.len() + VLAN_TAG_LEN);
}

#[test]
fn vlan_tagged_and_untagged_have_same_payload() {
    let payload = b"identity test with longer payload data";

    let untagged = build_udp_frame(
        &[0x11; 6], &[0xaa; 6],
        Ipv4Addr::new(10, 0, 1, 1), Ipv4Addr::new(10, 0, 2, 2),
        5000, 9000, payload, 64,
    ).unwrap();

    let mut tagged = Vec::new();
    build_udp_frame_into_vlan(
        &mut tagged, &[0x11; 6], &[0xaa; 6],
        Ipv4Addr::new(10, 0, 1, 1), Ipv4Addr::new(10, 0, 2, 2),
        5000, 9000, payload, 64, &VlanConfig::new(100),
    ).unwrap();

    let parsed_untagged = parse_udp_packet(&untagged).unwrap();
    let parsed_tagged = parse_udp_packet(&tagged).unwrap();

    assert_eq!(parsed_untagged.payload, parsed_tagged.payload);
    assert_eq!(parsed_untagged.src_ip, parsed_tagged.src_ip);
    assert_eq!(parsed_untagged.dst_ip, parsed_tagged.dst_ip);
    assert_eq!(parsed_untagged.src_port, parsed_tagged.src_port);
    assert_eq!(parsed_untagged.dst_port, parsed_tagged.dst_port);
}

#[test]
fn network_config_with_vlan() {
    let config = NetworkConfig::new(Ipv4Addr::new(10, 0, 1, 10), 24)
        .with_gateway(Ipv4Addr::new(10, 0, 1, 1))
        .with_vlan(VlanConfig::new(100).with_priority(3));

    let vlan = config.vlan.as_ref().unwrap();
    assert_eq!(vlan.vlan_id, 100);
    assert_eq!(vlan.priority, 3);
}

#[test]
fn vlan_mode_access_accepts_untagged() {
    let cfg = VlanConfig::new(100).access();
    assert!(cfg.accepts_frame(None));
}

#[test]
fn vlan_mode_access_accepts_matching_vid() {
    let cfg = VlanConfig::new(100).access();
    assert!(cfg.accepts_frame(Some(100)));
}

#[test]
fn vlan_mode_access_drops_wrong_vid() {
    let cfg = VlanConfig::new(100).access();
    assert!(!cfg.accepts_frame(Some(200)));
}

#[test]
fn vlan_mode_port_tagging_drops_untagged() {
    let cfg = VlanConfig::new(100).port_tagging();
    assert!(!cfg.accepts_frame(None));
}

#[test]
fn vlan_mode_port_tagging_accepts_matching_vid() {
    let cfg = VlanConfig::new(100).port_tagging();
    assert!(cfg.accepts_frame(Some(100)));
}

#[test]
fn vlan_mode_port_tagging_drops_wrong_vid() {
    let cfg = VlanConfig::new(100).port_tagging();
    assert!(!cfg.accepts_frame(Some(200)));
}

#[test]
fn vlan_mode_trunk_accepts_allowed_vid() {
    let cfg = VlanConfig::new(100).trunk(vec![100, 200, 300], None);
    assert!(cfg.accepts_frame(Some(100)));
    assert!(cfg.accepts_frame(Some(200)));
    assert!(cfg.accepts_frame(Some(300)));
}

#[test]
fn vlan_mode_trunk_drops_disallowed_vid() {
    let cfg = VlanConfig::new(100).trunk(vec![100, 200], None);
    assert!(!cfg.accepts_frame(Some(999)));
}

#[test]
fn vlan_mode_trunk_drops_untagged_without_native() {
    let cfg = VlanConfig::new(100).trunk(vec![100], None);
    assert!(!cfg.accepts_frame(None));
}

#[test]
fn vlan_mode_trunk_accepts_untagged_with_native() {
    let cfg = VlanConfig::new(100).trunk(vec![100, 200], Some(100));
    assert!(cfg.accepts_frame(None));
}

#[test]
fn vlan_tags_on_tx_access_is_false() {
    let cfg = VlanConfig::new(100).access();
    assert!(!cfg.tags_on_tx());
}

#[test]
fn vlan_tags_on_tx_trunk_is_true() {
    let cfg = VlanConfig::new(100).trunk(vec![100], None);
    assert!(cfg.tags_on_tx());
}

#[test]
fn vlan_tags_on_tx_port_tagging_is_true() {
    let cfg = VlanConfig::new(100).port_tagging();
    assert!(cfg.tags_on_tx());
}

#[test]
fn vlan_config_default_mode_is_port_tagging() {
    let cfg = VlanConfig::new(100);
    assert_eq!(cfg.mode, VlanMode::PortTagging);
}

#[test]
fn vlan_config_access_builder() {
    let cfg = VlanConfig::new(100).with_priority(3).access();
    assert_eq!(cfg.mode, VlanMode::Access);
    assert_eq!(cfg.priority, 3);
    assert_eq!(cfg.vlan_id, 100);
}

#[test]
fn vlan_config_trunk_builder() {
    let cfg = VlanConfig::new(100).trunk(vec![100, 200, 300], Some(100));
    assert_eq!(cfg.mode, VlanMode::Trunk {
        allowed_vlans: vec![100, 200, 300],
        native_vlan: Some(100),
    });
}

#[test]
fn vlan_config_with_mode_builder() {
    let cfg = VlanConfig::new(50).with_mode(VlanMode::Access);
    assert_eq!(cfg.mode, VlanMode::Access);
    assert_eq!(cfg.vlan_id, 50);
}
