//! The outer headers of tunnel frames: a UDP packet for a given port.

use vstd::prelude::*;

use crate::addr;
use crate::addr::{Ipv4Addr, Ipv6Addr};
use crate::bytes;
use crate::bytes::{high_nibble, low_nibble, read_be16};
use crate::constants::{
    ETH_HEADER_LEN, ETH_TYPE_IPV4, IPV4_HEADER_LEN, IP_PROTO_UDP, UDP_HEADER_LEN,
};
use crate::ipv6;
use crate::ipv6::{ETH_TYPE_IPV6, IPV6_HEADER_LEN};
use crate::udp;

verus! {

/// The offset of the outer UDP header of the IPv4 packet at `l3`, if it is a UDP
/// packet for port `port`.
pub open spec fn outer_udp4(frame: Seq<u8>, l3: int, port: u16) -> Option<int> {
    let start = udp::ip4_payload_start(frame, l3);
    if l3 + IPV4_HEADER_LEN <= frame.len() && frame[l3 + 9] == IP_PROTO_UDP && udp::ip4_header_len(
        frame,
        l3,
    ) >= 20 && start + UDP_HEADER_LEN <= frame.len() && bytes::be16_at(frame, start + 2) == port {
        Some(start)
    } else {
        None
    }
}

/// The offset of the outer UDP header of the IPv6 packet at `l3`, if it is a UDP
/// packet, without extension headers, for port `port`.
pub open spec fn outer_udp6(frame: Seq<u8>, l3: int, port: u16) -> Option<int> {
    let start = l3 + IPV6_HEADER_LEN;
    if start + UDP_HEADER_LEN <= frame.len() && frame[l3] / 16 == 6 && frame[l3 + 6] == IP_PROTO_UDP
        && bytes::be16_at(frame, start + 2) == port {
        Some(start)
    } else {
        None
    }
}

/// Finds the outer UDP header of an IPv4 packet for port `port`.
pub fn find_outer_udp4(frame: &[u8], l3: usize, port: u16) -> (r: Option<usize>)
    requires
        l3 + IPV4_HEADER_LEN <= usize::MAX,
    ensures
        match r {
            Some(start) => outer_udp4(frame@, l3 as int, port) == Some(start as int),
            None => outer_udp4(frame@, l3 as int, port) is None,
        },
{
    if frame.len() < l3 + IPV4_HEADER_LEN {
        return None;
    }
    if frame[l3 + 9] != IP_PROTO_UDP {
        return None;
    }
    let header_len: usize = low_nibble(frame[l3]) * 4;
    if header_len < 20 {
        return None;
    }
    if frame.len() - l3 < header_len + UDP_HEADER_LEN {
        return None;
    }
    let start: usize = l3 + header_len;
    if read_be16(frame, start + 2) != port {
        return None;
    }
    Some(start)
}

/// Finds the outer UDP header of an IPv6 packet for port `port`.
pub fn find_outer_udp6(frame: &[u8], l3: usize, port: u16) -> (r: Option<usize>)
    requires
        l3 + IPV6_HEADER_LEN <= usize::MAX,
    ensures
        match r {
            Some(start) => outer_udp6(frame@, l3 as int, port) == Some(start as int),
            None => outer_udp6(frame@, l3 as int, port) is None,
        },
{
    if frame.len() < l3 + IPV6_HEADER_LEN {
        return None;
    }
    if high_nibble(frame[l3]) != 6 {
        return None;
    }
    if frame[l3 + 6] != IP_PROTO_UDP {
        return None;
    }
    let start: usize = l3 + IPV6_HEADER_LEN;
    if frame.len() - start < UDP_HEADER_LEN {
        return None;
    }
    if read_be16(frame, start + 2) != port {
        return None;
    }
    Some(start)
}

/// The outer headers of a UDP frame over IPv4 are found, for its destination port
/// alone, and what it carries stands behind them. Its checksums verify.
pub proof fn lemma_outer4(
    src_mac: [u8; 6],
    dst_mac: [u8; 6],
    src_ip: Ipv4Addr,
    dst_ip: Ipv4Addr,
    src_port: u16,
    dst_port: u16,
    data: Seq<u8>,
    ttl: u8,
)
    requires
        UDP_HEADER_LEN + data.len() <= 0xFFFF,
    ensures
        ({
            let frame = udp::udp4_frame(
                src_mac@,
                dst_mac@,
                src_ip,
                dst_ip,
                src_port,
                dst_port,
                data,
                ttl,
            );
            &&& frame.len() == 42 + data.len()
            &&& frame == frame.subrange(0, 42) + data
            &&& udp::ipv4_cksum_valid(frame)
            &&& udp::udp_cksum_valid(frame)
            &&& addr::ipv4_at(frame, ETH_HEADER_LEN + 12) == src_ip
            &&& forall|port: u16| #[trigger]
                outer_udp4(frame, ETH_HEADER_LEN as int, port) == (if port == dst_port {
                    Some(34int)
                } else {
                    None
                })
        }),
{
    let eth = udp::eth_header(dst_mac@, src_mac@, ETH_TYPE_IPV4);
    let frame = eth + udp::udp4_packet(src_ip, dst_ip, src_port, dst_port, data, ttl);
    assert(eth.len() == 14);
    bytes::lemma_be16_round_trip(ETH_TYPE_IPV4);
    assert(frame[12] == bytes::be16_bytes(ETH_TYPE_IPV4)[0]);
    assert(frame[13] == bytes::be16_bytes(ETH_TYPE_IPV4)[1]);
    udp::lemma_udp4_packet_at(eth, src_ip, dst_ip, src_port, dst_port, data, ttl);
    udp::lemma_udp4_packet_len(src_ip, dst_ip, src_port, dst_port, data, ttl);
    udp::lemma_udp4_frame_verifies(eth, src_ip, dst_ip, src_port, dst_port, data, ttl);
    assert(frame =~= frame.subrange(0, 42) + udp::udp_payload_at(frame, 34));
}

/// The outer headers of a UDP frame over IPv6 are found, for its destination port
/// alone, and what it carries stands behind them. Its UDP checksum verifies.
pub proof fn lemma_outer6(
    src_mac: [u8; 6],
    dst_mac: [u8; 6],
    src_ip: Ipv6Addr,
    dst_ip: Ipv6Addr,
    src_port: u16,
    dst_port: u16,
    data: Seq<u8>,
    hop_limit: u8,
)
    requires
        UDP_HEADER_LEN + data.len() <= 0xFFFF,
    ensures
        ({
            let frame = ipv6::udp6_frame(
                src_mac@,
                dst_mac@,
                src_ip,
                dst_ip,
                src_port,
                dst_port,
                data,
                hop_limit,
            );
            &&& frame.len() == 62 + data.len()
            &&& frame == frame.subrange(0, 62) + data
            &&& ipv6::udp6_cksum_valid(frame)
            &&& addr::ipv6_at(frame, ETH_HEADER_LEN + 8) == src_ip
            &&& forall|port: u16| #[trigger]
                outer_udp6(frame, ETH_HEADER_LEN as int, port) == (if port == dst_port {
                    Some(54int)
                } else {
                    None
                })
        }),
{
    let eth = udp::eth_header(dst_mac@, src_mac@, ETH_TYPE_IPV6);
    let frame = eth + ipv6::udp6_packet(src_ip, dst_ip, src_port, dst_port, data, hop_limit);
    assert(eth.len() == 14);
    bytes::lemma_be16_round_trip(ETH_TYPE_IPV6);
    assert(frame[12] == bytes::be16_bytes(ETH_TYPE_IPV6)[0]);
    assert(frame[13] == bytes::be16_bytes(ETH_TYPE_IPV6)[1]);
    ipv6::lemma_udp6_packet_at(eth, src_ip, dst_ip, src_port, dst_port, data, hop_limit);
    assert(frame =~= frame.subrange(0, 62) + udp::udp_payload_at(frame, 54));
}

} // verus!
