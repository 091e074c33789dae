//! ARP packets, the cache and the handler.

use dpdk_udp::addr::{Ipv4Addr, MacAddress};
use dpdk_udp::arp::{
    ARP_HW_TYPE_ETHERNET, ARP_OP_REPLY, ARP_OP_REQUEST, ARP_PACKET_LEN, ARP_PROTO_TYPE_IPV4,
    ArpCache, ArpHandler, ArpPacket, ETH_ARP_FRAME_LEN, ETH_TYPE_ARP, build_arp_reply,
    build_arp_request, parse_arp_packet,
};

/// A time on the test clock, in nanoseconds.
const NOW: u64 = 1_000_000_000;

#[test]
fn test_arp_constants() {
    assert_eq!(ETH_TYPE_ARP, 0x0806);
    assert_eq!(ARP_HW_TYPE_ETHERNET, 1);
    assert_eq!(ARP_PROTO_TYPE_IPV4, 0x0800);
    assert_eq!(ARP_OP_REQUEST, 1);
    assert_eq!(ARP_OP_REPLY, 2);
    assert_eq!(ARP_PACKET_LEN, 28);
    assert_eq!(ETH_ARP_FRAME_LEN, 42);
}

#[test]
fn test_arp_request_creation() {
    let sender_mac = [0x11, 0x22, 0x33, 0x44, 0x55, 0x66];
    let sender_ip = Ipv4Addr::new(192, 168, 1, 1);
    let target_ip = Ipv4Addr::new(192, 168, 1, 2);

    let arp = ArpPacket::request(sender_mac, sender_ip, target_ip);

    assert!(arp.is_request());
    assert!(!arp.is_reply());
    assert_eq!(arp.sender_mac, sender_mac);
    assert_eq!(arp.sender_ip, sender_ip);
    assert_eq!(arp.target_ip, target_ip);
    assert_eq!(arp.target_mac, [0; 6]);
}

#[test]
fn test_arp_reply_creation() {
    let sender_mac = [0x11, 0x22, 0x33, 0x44, 0x55, 0x66];
    let sender_ip = Ipv4Addr::new(192, 168, 1, 1);
    let target_mac = [0xaa, 0xbb, 0xcc, 0xdd, 0xee, 0xff];
    let target_ip = Ipv4Addr::new(192, 168, 1, 2);

    let arp = ArpPacket::reply(sender_mac, sender_ip, target_mac, target_ip);

    assert!(!arp.is_request());
    assert!(arp.is_reply());
    assert_eq!(arp.sender_mac, sender_mac);
    assert_eq!(arp.target_mac, target_mac);
}

#[test]
fn test_build_and_parse_arp_request() {
    let src_mac = [0x11, 0x22, 0x33, 0x44, 0x55, 0x66];
    let src_ip = Ipv4Addr::new(192, 168, 1, 100);
    let target_ip = Ipv4Addr::new(192, 168, 1, 1);

    let frame = build_arp_request(&src_mac, src_ip, target_ip);

    // Verify frame size
    assert_eq!(frame.len(), ETH_ARP_FRAME_LEN);

    // Parse it back
    let parsed = parse_arp_packet(&frame);
    assert!(parsed.is_some());

    let arp = parsed.unwrap();
    assert!(arp.is_request());
    assert_eq!(arp.sender_mac, src_mac);
    assert_eq!(arp.sender_ip, src_ip);
    assert_eq!(arp.target_ip, target_ip);
}

#[test]
fn test_build_and_parse_arp_reply() {
    let src_mac = [0x11, 0x22, 0x33, 0x44, 0x55, 0x66];
    let src_ip = Ipv4Addr::new(192, 168, 1, 1);
    let dst_mac = [0xaa, 0xbb, 0xcc, 0xdd, 0xee, 0xff];
    let dst_ip = Ipv4Addr::new(192, 168, 1, 100);

    let frame = build_arp_reply(&src_mac, src_ip, &dst_mac, dst_ip);

    let parsed = parse_arp_packet(&frame);
    assert!(parsed.is_some());

    let arp = parsed.unwrap();
    assert!(arp.is_reply());
    assert_eq!(arp.sender_mac, src_mac);
    assert_eq!(arp.sender_ip, src_ip);
    assert_eq!(arp.target_mac, dst_mac);
    assert_eq!(arp.target_ip, dst_ip);
}

#[test]
fn arp_test_parse_invalid_frame() {
    // Too short
    let short = [0u8; 10];
    assert!(parse_arp_packet(&short).is_none());

    // Wrong ethertype
    let mut wrong_type = [0u8; ETH_ARP_FRAME_LEN];
    wrong_type[12..14].copy_from_slice(&0x0800u16.to_be_bytes()); // IPv4, not ARP
    assert!(parse_arp_packet(&wrong_type).is_none());
}

#[test]
fn test_arp_cache() {
    let mut cache = ArpCache::new();

    let ip1 = Ipv4Addr::new(192, 168, 1, 1);
    let mac1 = MacAddress::new([0x11, 0x22, 0x33, 0x44, 0x55, 0x66]);

    // Initially empty
    assert!(cache.is_empty());
    assert!(cache.lookup(&ip1, NOW).is_none());

    // Insert and lookup
    cache.insert(ip1, mac1.clone(), NOW);
    assert_eq!(cache.len(), 1);
    assert!(!cache.is_empty());

    let found = cache.lookup(&ip1, NOW);
    assert!(found.is_some());
    assert_eq!(found.unwrap().octets(), mac1.octets());

    // Remove
    cache.remove(&ip1);
    assert!(cache.lookup(&ip1, NOW).is_none());
}

#[test]
fn test_arp_cache_clear() {
    let mut cache = ArpCache::new();

    cache.insert(Ipv4Addr::new(10, 0, 0, 1), MacAddress::new([1, 2, 3, 4, 5, 6]), NOW);
    cache.insert(Ipv4Addr::new(10, 0, 0, 2), MacAddress::new([2, 3, 4, 5, 6, 7]), NOW);

    assert_eq!(cache.len(), 2);
    cache.clear();
    assert_eq!(cache.len(), 0);
}

#[test]
fn test_arp_handler_request_response() {
    let local_mac = [0x11, 0x22, 0x33, 0x44, 0x55, 0x66];
    let local_ip = Ipv4Addr::new(192, 168, 1, 1);
    let mut handler = ArpHandler::new(local_mac, local_ip);

    // Create an ARP request for our IP
    let requester_mac = [0xaa, 0xbb, 0xcc, 0xdd, 0xee, 0xff];
    let requester_ip = Ipv4Addr::new(192, 168, 1, 100);
    let request = build_arp_request(&requester_mac, requester_ip, local_ip);

    // Process it - should get a reply
    let reply = handler.process_arp(&request, NOW);
    assert!(reply.is_some());

    // Parse the reply
    let reply_arp = parse_arp_packet(&reply.unwrap()).unwrap();
    assert!(reply_arp.is_reply());
    assert_eq!(reply_arp.sender_mac, local_mac);
    assert_eq!(reply_arp.sender_ip, local_ip);
    assert_eq!(reply_arp.target_mac, requester_mac);
    assert_eq!(reply_arp.target_ip, requester_ip);

    // The requester should now be in our cache
    let cached = handler.cache.lookup(&requester_ip, NOW);
    assert!(cached.is_some());
}

#[test]
fn test_arp_handler_ignores_other_requests() {
    let local_mac = [0x11, 0x22, 0x33, 0x44, 0x55, 0x66];
    let local_ip = Ipv4Addr::new(192, 168, 1, 1);
    let mut handler = ArpHandler::new(local_mac, local_ip);

    // Create an ARP request for a different IP
    let requester_mac = [0xaa, 0xbb, 0xcc, 0xdd, 0xee, 0xff];
    let requester_ip = Ipv4Addr::new(192, 168, 1, 100);
    let other_ip = Ipv4Addr::new(192, 168, 1, 50);
    let request = build_arp_request(&requester_mac, requester_ip, other_ip);

    // Process it - should NOT get a reply
    let reply = handler.process_arp(&request, NOW);
    assert!(reply.is_none());

    // But we should still learn the requester's MAC
    assert!(handler.cache.lookup(&requester_ip, NOW).is_some());
}

#[test]
fn test_arp_handler_learn_from_reply() {
    let local_mac = [0x11, 0x22, 0x33, 0x44, 0x55, 0x66];
    let local_ip = Ipv4Addr::new(192, 168, 1, 1);
    let mut handler = ArpHandler::new(local_mac, local_ip);

    // Create an ARP reply from another host
    let other_mac = [0xaa, 0xbb, 0xcc, 0xdd, 0xee, 0xff];
    let other_ip = Ipv4Addr::new(192, 168, 1, 2);
    let reply_frame = build_arp_reply(&other_mac, other_ip, &local_mac, local_ip);

    // Process it - no response needed for a reply
    let response = handler.process_arp(&reply_frame, NOW);
    assert!(response.is_none());

    // But we should have learned the MAC
    let cached = handler.cache.lookup(&other_ip, NOW);
    assert!(cached.is_some());
    assert_eq!(cached.unwrap().octets(), other_mac);
}

#[test]
fn test_arp_handler_make_request() {
    let local_mac = [0x11, 0x22, 0x33, 0x44, 0x55, 0x66];
    let local_ip = Ipv4Addr::new(192, 168, 1, 1);
    let mut handler = ArpHandler::new(local_mac, local_ip);

    let target_ip = Ipv4Addr::new(192, 168, 1, 254);
    let request_frame = handler.make_request(target_ip);
    assert!(request_frame.is_some());

    let arp = parse_arp_packet(&request_frame.unwrap()).unwrap();
    assert!(arp.is_request());
    assert_eq!(arp.sender_ip, local_ip);
    assert_eq!(arp.target_ip, target_ip);
}

#[test]
fn test_arp_handler_resolve() {
    let local_mac = [0x11, 0x22, 0x33, 0x44, 0x55, 0x66];
    let local_ip = Ipv4Addr::new(192, 168, 1, 1);
    let mut handler = ArpHandler::new(local_mac, local_ip);

    // Unknown IP returns None
    let unknown = Ipv4Addr::new(192, 168, 1, 99);
    assert!(handler.resolve(&unknown, NOW).is_none());

    // Pre-populate cache
    let known_ip = Ipv4Addr::new(192, 168, 1, 2);
    let known_mac = MacAddress::new([0xde, 0xad, 0xbe, 0xef, 0x00, 0x01]);
    handler.cache.insert(known_ip, known_mac.clone(), NOW);

    // Now it should resolve
    let resolved = handler.resolve(&known_ip, NOW);
    assert!(resolved.is_some());
    assert_eq!(resolved.unwrap().octets(), known_mac.octets());

    // Broadcast always resolves
    let broadcast = handler.resolve(&Ipv4Addr::broadcast(), NOW);
    assert!(broadcast.is_some());
    assert_eq!(broadcast.unwrap().octets(), [0xff, 0xff, 0xff, 0xff, 0xff, 0xff]);
}

#[test]
fn test_arp_handler_multiple_ips() {
    let local_mac = [0x11, 0x22, 0x33, 0x44, 0x55, 0x66];
    let local_ip1 = Ipv4Addr::new(192, 168, 1, 1);
    let local_ip2 = Ipv4Addr::new(10, 0, 0, 1);

    let mut handler = ArpHandler::new(local_mac, local_ip1);
    handler.add_local_ip(local_ip2);

    // Should respond to requests for either IP
    let requester_mac = [0xaa, 0xbb, 0xcc, 0xdd, 0xee, 0xff];
    let requester_ip = Ipv4Addr::new(192, 168, 1, 100);

    let request1 = build_arp_request(&requester_mac, requester_ip, local_ip1);
    assert!(handler.process_arp(&request1, NOW).is_some());

    let request2 = build_arp_request(&requester_mac, requester_ip, local_ip2);
    assert!(handler.process_arp(&request2, NOW).is_some());

    // Should not respond to other IPs
    let other_ip = Ipv4Addr::new(172, 16, 0, 1);
    let request3 = build_arp_request(&requester_mac, requester_ip, other_ip);
    assert!(handler.process_arp(&request3, NOW).is_none());
}
