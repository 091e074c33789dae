//! Bytes behind a packet, and headers before what it carries.

use dpdk_udp::addr::{Ipv4Addr, Ipv6Addr};
use dpdk_udp::constants::IP_PROTO_UDP;
use dpdk_udp::ipv6::{
    build_udp6_frame, parse_udp6_packet, verify_udp6_checksum, walk_extension_headers,
    IP_PROTO_DSTOPTS, IP_PROTO_FRAGMENT, IP_PROTO_HOPOPT, IP_PROTO_ROUTING,
};
use dpdk_udp::udp::{
    build_udp_frame, build_udp_frame_into_vlan, parse_udp_packet, parse_udp_packet_ref,
    verify_ipv4_checksum, verify_udp_checksum,
};
use dpdk_udp::vlan::VlanConfig;

const SRC_MAC: [u8; 6] = [2, 0, 0, 0, 0, 1];
const DST_MAC: [u8; 6] = [2, 0, 0, 0, 0, 2];

fn ip4() -> (Ipv4Addr, Ipv4Addr) {
    (Ipv4Addr::new(10, 0, 0, 1), Ipv4Addr::new(10, 0, 0, 2))
}

fn frame6(payload: &[u8]) -> Vec<u8> {
    let src = Ipv6Addr::new(0xfe80, 0, 0, 0, 0, 0, 0, 1);
    let dst = Ipv6Addr::new(0xfe80, 0, 0, 0, 0, 0, 0, 2);
    build_udp6_frame(&SRC_MAC, &DST_MAC, src, dst, 1000, 2000, payload, 64).unwrap()
}

#[test]
fn padding_behind_a_datagram_is_ignored() {
    let (src, dst) = ip4();
    let plain = build_udp_frame(&SRC_MAC, &DST_MAC, src, dst, 1000, 2000, b"odd", 64).unwrap();
    let mut tagged = Vec::new();
    let vlan = VlanConfig::new(100);
    build_udp_frame_into_vlan(
        &mut tagged, &SRC_MAC, &DST_MAC, src, dst, 1000, 2000, b"odd", 64, &vlan,
    )
    .unwrap();
    for (frame, vlan_id) in [(plain, None), (tagged, Some(100))] {
        for pad in [1, 15, 100] {
            let mut padded = frame.clone();
            padded.resize(frame.len() + pad, 0xEE);
            assert!(verify_ipv4_checksum(&padded) && verify_udp_checksum(&padded));
            let parsed = parse_udp_packet(&padded).unwrap();
            assert_eq!((parsed.src_mac, parsed.dst_mac), (SRC_MAC, DST_MAC));
            assert_eq!((parsed.src_ip, parsed.dst_ip), (src, dst));
            assert_eq!((parsed.src_port, parsed.dst_port), (1000, 2000));
            assert_eq!(parsed.payload, b"odd");
            assert_eq!(parsed.vlan_id, vlan_id);
            assert_eq!(parse_udp_packet_ref(&padded).unwrap().payload, b"odd");
        }
    }
}

#[test]
fn padding_behind_an_ipv6_datagram_is_ignored() {
    let mut padded = frame6(b"odd");
    padded.resize(100, 0xEE);
    assert!(verify_udp6_checksum(&padded));
    assert_eq!(parse_udp6_packet(&padded).unwrap().payload, b"odd");
}

#[test]
fn bytes_behind_leave_the_upper_layer() {
    let packet = frame6(b"data")[14..].to_vec();
    let end = walk_extension_headers(&packet).unwrap();
    let mut padded = packet.clone();
    padded.extend([0, 60, 255, 17]);
    assert_eq!(walk_extension_headers(&padded).unwrap(), end);
}

#[test]
fn extension_header_moves_the_upper_layer() {
    let packet = frame6(b"data")[14..].to_vec();
    let kinds = [IP_PROTO_HOPOPT, IP_PROTO_ROUTING, IP_PROTO_DSTOPTS, IP_PROTO_FRAGMENT];
    let mut longer = packet;
    for (i, kind) in kinds.into_iter().enumerate() {
        let next = longer[6];
        longer[6] = kind;
        longer.splice(40..40, [next, 0, 0, 0, 0, 0, 0, 0]);
        let end = walk_extension_headers(&longer).unwrap();
        assert_eq!((end.protocol, end.payload_offset), (IP_PROTO_UDP, 48 + 8 * i));
    }
    assert!(walk_extension_headers(&longer[..70]).is_none());
}
