//! What frames over IPv6 are on the wire, byte by byte.

use vstd::prelude::*;

use crate::addr;
use crate::addr::Ipv6Addr;
use crate::bytes;
use crate::checksum;
use crate::error::UdpError;
use crate::gue;
use crate::ipv6;
use crate::ipv6::{Ipv6NextHeader, ParsedUdp6Packet, ParsedUdp6PacketRef};
use crate::ipv6_addr;
use crate::udp;
use crate::vlan;
use crate::wire_laws;

verus! {

// ---------------------------------------------------------------------------
// Extension headers
// ---------------------------------------------------------------------------

/// In a packet without extension headers, that is with a next header other than 0, 43, 44 and
/// 60, the upper layer starts behind the 40 bytes of the fixed header. A shorter packet has none.
pub proof fn law_upper_layer_behind_the_fixed_header(data: Seq<u8>)
    ensures
        data.len() < 40 ==> ipv6::upper_layer(data) is None,
        data.len() >= 40 && data[6] != 0 && data[6] != 43 && data[6] != 44 && data[6] != 60
            ==> ipv6::upper_layer(data) == Some(
            Ipv6NextHeader { protocol: data[6], payload_offset: 40 },
        ),
{
}

/// A packet with an extension header, 0, 43 or 60 with eight bytes and eight more for each in its
/// second byte, or 44 with eight bytes, has the upper layer of the packet without that header, so
/// many bytes further behind; and none if the header is cut off.
pub proof fn law_upper_layer_behind_an_extension(data: Seq<u8>)
    requires
        data.len() >= 40,
        data[6] == 0 || data[6] == 43 || data[6] == 60 || data[6] == 44,
        data.len() <= usize::MAX,
    ensures
        data.len() < 42 ==> ipv6::upper_layer(data) is None,
        data.len() >= 42 ==> {
            let len = if data[6] == 44 {
                8
            } else {
                (data[41] + 1) * 8
            };
            let shorter = data.take(40).update(6, data[40]) + data.skip(40 + len);
            if data.len() < 40 + len {
                ipv6::upper_layer(data) is None
            } else {
                match ipv6::upper_layer(shorter) {
                    Some(nh) => ipv6::upper_layer(data) == Some(
                        Ipv6NextHeader {
                            protocol: nh.protocol,
                            payload_offset: (nh.payload_offset + len) as usize,
                        },
                    ),
                    None => ipv6::upper_layer(data) is None,
                }
            }
        },
{
    if data.len() >= 42 {
        let len = if data[6] == 44 {
            8
        } else {
            (data[41] + 1) * 8
        };
        if data.len() >= 40 + len {
            let shorter = data.take(40).update(6, data[40]) + data.skip(40 + len);
            let header = data.subrange(40, 40 + len);
            assert(shorter[6] == data[40]);
            assert(header[1] == data[41]);
            assert(ipv6::with_extension(shorter, data[6], header) =~= data);
            ipv6::law_extension_header_moves_the_upper_layer(shorter, data[6], header);
        }
    }
}

// ---------------------------------------------------------------------------
// UDP over IPv6
// ---------------------------------------------------------------------------

/// Offset of the network-layer header: 14, or 18 behind a tag.
pub open spec fn header_offset(frame: Seq<u8>) -> int {
    if frame[12] == 0x81 && frame[13] == 0 {
        18
    } else {
        14
    }
}

/// A frame is a UDP datagram over IPv6 exactly if it has the EtherType 0x86DD, behind the tag if
/// it has one, a whole fixed header of version 6, the upper-layer protocol 17, and there a UDP
/// header whose length covers itself and no more than what is left of the frame.
pub proof fn law_what_is_a_udp6_frame(frame: Seq<u8>)
    requires
        frame.len() >= 14,
    ensures
        ({
            let l3 = header_offset(frame);
            ipv6::is_udp6_frame(frame) <==> {
                &&& frame.len() >= l3 + 40
                &&& frame[l3 - 2] == 0x86 && frame[l3 - 1] == 0xDD
                &&& frame[l3] / 16 == 6
                &&& ipv6::upper_layer(frame.skip(l3)) matches Some(nh) && {
                    let start = l3 + nh.payload_offset;
                    let len = frame[start + 4] * 256 + frame[start + 5];
                    &&& nh.protocol == 17
                    &&& start + 8 <= frame.len()
                    &&& 8 <= len
                    &&& start + len <= frame.len()
                }
            }
        }),
{
    let l3 = header_offset(frame);
    if l3 <= frame.len() {
        assert(frame.skip(l3) =~= frame.subrange(l3, frame.len() as int));
    }
}

/// What is read out of a UDP frame over IPv6: the Ethernet addresses at its front, the IPv6
/// addresses 8 and 24 bytes into the fixed header, the ports at the front of the UDP header, and
/// as payload what the UDP length covers behind that header.
#[verifier::rlimit(60)]
pub proof fn law_what_a_udp6_frame_says(frame: Seq<u8>, p: ParsedUdp6Packet)
    requires
        ipv6::is_udp6_frame(frame),
        p.describes(frame),
    ensures
        ({
            let l3 = header_offset(frame);
            let start = l3 + ipv6::upper_layer(frame.skip(l3))->Some_0.payload_offset;
            let len = frame[start + 4] * 256 + frame[start + 5];
            &&& p.dst_mac@ == frame.subrange(0, 6)
            &&& p.src_mac@ == frame.subrange(6, 12)
            &&& p.src_ip.bytes() == frame.subrange(l3 + 8, l3 + 24)
            &&& p.dst_ip.bytes() == frame.subrange(l3 + 24, l3 + 40)
            &&& p.src_port == frame[start] * 256 + frame[start + 1]
            &&& p.dst_port == frame[start + 2] * 256 + frame[start + 3]
            &&& p.payload@ == frame.subrange(start + 8, start + len)
            &&& l3 == 14 ==> p.vlan_id is None
            &&& l3 == 18 ==> p.vlan_id == Some(((frame[14] % 16) * 256 + frame[15]) as u16)
        }),
{
    let l3 = header_offset(frame);
    assert(frame.skip(l3) =~= frame.subrange(l3, frame.len() as int));
    addr::lemma_bytes_of_ipv6_at(frame, l3 + 8);
    addr::lemma_bytes_of_ipv6_at(frame, l3 + 24);
}

/// What is read out of a UDP frame over IPv6 in place is what is read out of it by copying.
pub proof fn law_borrowed_parse6_agrees(
    frame: Seq<u8>,
    p: ParsedUdp6Packet,
    q: ParsedUdp6PacketRef<'_>,
)
    requires
        ipv6::is_udp6_frame(frame),
        p.describes(frame),
        q.describes(frame),
    ensures
        q.src_mac@ == p.src_mac@,
        q.src_ip == p.src_ip,
        q.dst_ip == p.dst_ip,
        q.src_port == p.src_port,
        q.dst_port == p.dst_port,
        q.payload@ == p.payload@,
        q.vlan_id == p.vlan_id,
{
}

/// The traffic class, the flow label, the payload length and the hop limit of the IPv6 header play
/// no part in the parse of a UDP frame.
pub proof fn law_other_header6_fields_play_no_part(frame: Seq<u8>, other: Seq<u8>)
    requires
        ipv6::is_udp6_frame(frame),
        frame.len() <= usize::MAX,
        other.len() == frame.len(),
        ({
            let l3 = header_offset(frame);
            &&& other[l3] / 16 == 6
            &&& forall|k: int|
                0 <= k < frame.len() && !(l3 <= k <= l3 + 5) && k != l3 + 7 ==> #[trigger] other[k]
                    == frame[k]
        }),
    ensures
        ipv6::is_udp6_frame(other),
        forall|p: ParsedUdp6Packet| #[trigger] p.describes(other) <==> p.describes(frame),
{
    let l3 = header_offset(frame);
    let data = frame.subrange(l3, frame.len() as int);
    let changed = other.subrange(l3, other.len() as int);
    assert(other[12] == frame[12] && other[13] == frame[13]);
    assert(l3 == 18 ==> other[14] == frame[14] && other[15] == frame[15] && other[16] == frame[16]
        && other[17] == frame[17]);
    assert(vlan::layout_of(other, None) == vlan::layout_of(frame, None));
    assert(other[l3 + 6] == frame[l3 + 6]);
    assert(changed[6] == data[6]);
    assert(forall|k: int| 40 <= k < data.len() ==> changed[k] == #[trigger] data[k]);
    lemma_same_chain(data, changed, data[6], 40);
    ipv6::lemma_chain_end_bounds(data, data[6], 40);
    let start = l3 + ipv6::upper_layer(data)->Some_0.payload_offset;
    assert(other[start + 4] == frame[start + 4] && other[start + 5] == frame[start + 5]);
    assert(other.subrange(0, 6) =~= frame.subrange(0, 6));
    assert(other.subrange(6, 12) =~= frame.subrange(6, 12));
    assert(udp::udp_payload_at(other, start) =~= udp::udp_payload_at(frame, start));
    assert(addr::ipv6_at(other, l3 + 8) == addr::ipv6_at(frame, l3 + 8));
    assert(addr::ipv6_at(other, l3 + 24) == addr::ipv6_at(frame, l3 + 24));
    assert(bytes::be16_at(other, start) == bytes::be16_at(frame, start));
    assert(bytes::be16_at(other, start + 2) == bytes::be16_at(frame, start + 2));
}

/// Extension headers of the same bytes end at the same place.
proof fn lemma_same_chain(a: Seq<u8>, b: Seq<u8>, next: u8, offset: int)
    requires
        a.len() == b.len(),
        0 <= offset <= a.len(),
        forall|k: int| offset <= k < a.len() ==> b[k] == #[trigger] a[k],
    ensures
        ipv6::chain_end(b, next, offset) == ipv6::chain_end(a, next, offset),
    decreases a.len() - offset,
{
    if ipv6::is_sized_extension(next) || next == 44 {
        if offset + 2 <= a.len() {
            assert(b[offset] == a[offset] && b[offset + 1] == a[offset + 1]);
            let len = ipv6::extension_len(a, next, offset);
            if offset + len <= a.len() {
                lemma_same_chain(a, b, a[offset], offset + len);
            }
        }
    }
}

/// Where the fields of an IPv6 header stand.
pub proof fn lemma_ipv6_header_bytes(
    payload_len: u16,
    next_header: u8,
    hop_limit: u8,
    src_ip: Ipv6Addr,
    dst_ip: Ipv6Addr,
)
    ensures
        ({
            let h = ipv6::ipv6_header(payload_len, next_header, hop_limit, src_ip, dst_ip);
            &&& h.len() == 40
            &&& h[0] == 0x60 && h[1] == 0 && h[2] == 0 && h[3] == 0
            &&& h[4] * 256 + h[5] == payload_len
            &&& h[6] == next_header && h[7] == hop_limit
            &&& h.subrange(8, 24) == src_ip.bytes()
            &&& h.subrange(24, 40) == dst_ip.bytes()
        }),
{
    let h = ipv6::ipv6_header(payload_len, next_header, hop_limit, src_ip, dst_ip);
    assert(h.subrange(8, 24) =~= src_ip.bytes());
    assert(h.subrange(24, 40) =~= dst_ip.bytes());
}

/// The bytes of an IPv6 address are its eight segments, each with its upper byte first.
pub proof fn law_ipv6_address_bytes(ip: Ipv6Addr)
    ensures
        ({
            let b = ip.bytes();
            &&& b.len() == 16
            &&& b[0] * 256 + b[1] == ip.s0 && b[2] * 256 + b[3] == ip.s1
            &&& b[4] * 256 + b[5] == ip.s2 && b[6] * 256 + b[7] == ip.s3
            &&& b[8] * 256 + b[9] == ip.s4 && b[10] * 256 + b[11] == ip.s5
            &&& b[12] * 256 + b[13] == ip.s6 && b[14] * 256 + b[15] == ip.s7
        }),
{
}

/// Where the fields of a UDP datagram over IPv6 stand.
proof fn lemma_udp6_datagram_bytes(
    src_ip: Ipv6Addr,
    dst_ip: Ipv6Addr,
    src_port: u16,
    dst_port: u16,
    payload: Seq<u8>,
)
    requires
        8 + payload.len() <= 0xFFFF,
    ensures
        ({
            let d = ipv6::udp6_datagram(src_ip, dst_ip, src_port, dst_port, payload);
            &&& d.len() == 8 + payload.len()
            &&& d[0] * 256 + d[1] == src_port
            &&& d[2] * 256 + d[3] == dst_port
            &&& d[4] * 256 + d[5] == 8 + payload.len()
            &&& d.skip(8) == payload
        }),
{
    let udp_len = (8 + payload.len()) as u16;
    let blank = udp::udp_header(src_port, dst_port, udp_len, 0);
    let cksum = ipv6::udp6_cksum(src_ip, dst_ip, blank, payload);
    let header = udp::udp_header(src_port, dst_port, udp_len, cksum);
    let d = header + payload;
    assert(d == ipv6::udp6_datagram(src_ip, dst_ip, src_port, dst_port, payload));
    assert(header.len() == 8);
    assert(d[0] == bytes::be16_bytes(src_port)[0] && d[1] == bytes::be16_bytes(src_port)[1]);
    assert(d[2] == bytes::be16_bytes(dst_port)[0] && d[3] == bytes::be16_bytes(dst_port)[1]);
    assert(d[4] == bytes::be16_bytes(udp_len)[0] && d[5] == bytes::be16_bytes(udp_len)[1]);
    assert(d.skip(8) =~= payload);
}

/// Where the fields of a built UDP frame over IPv6 stand.
pub proof fn law_built_frame6_bytes(
    src_mac: [u8; 6],
    dst_mac: [u8; 6],
    src_ip: Ipv6Addr,
    dst_ip: Ipv6Addr,
    src_port: u16,
    dst_port: u16,
    payload: Seq<u8>,
    hop_limit: u8,
)
    requires
        8 + payload.len() <= 0xFFFF,
    ensures
        ({
            let s = ipv6::udp6_frame(
                src_mac@,
                dst_mac@,
                src_ip,
                dst_ip,
                src_port,
                dst_port,
                payload,
                hop_limit,
            );
            &&& s.len() == 62 + payload.len()
            &&& s.subrange(0, 6) == dst_mac@
            &&& s.subrange(6, 12) == src_mac@
            &&& s[12] == 0x86 && s[13] == 0xDD
            &&& s[14] == 0x60 && s[15] == 0 && s[16] == 0 && s[17] == 0
            &&& s[18] * 256 + s[19] == 8 + payload.len()
            &&& s[20] == 17 && s[21] == hop_limit
            &&& s.subrange(22, 38) == src_ip.bytes()
            &&& s.subrange(38, 54) == dst_ip.bytes()
            &&& s[54] * 256 + s[55] == src_port
            &&& s[56] * 256 + s[57] == dst_port
            &&& s[58] * 256 + s[59] == 8 + payload.len()
            &&& s.skip(62) == payload
        }),
{
    let udp_len = (8 + payload.len()) as u16;
    let eth = udp::eth_header(dst_mac@, src_mac@, 0x86DD);
    let h = ipv6::ipv6_header(udp_len, 17, hop_limit, src_ip, dst_ip);
    let d = ipv6::udp6_datagram(src_ip, dst_ip, src_port, dst_port, payload);
    let s = eth + (h + d);
    assert(s == ipv6::udp6_frame(
        src_mac@,
        dst_mac@,
        src_ip,
        dst_ip,
        src_port,
        dst_port,
        payload,
        hop_limit,
    ));
    lemma_ipv6_header_bytes(udp_len, 17, hop_limit, src_ip, dst_ip);
    lemma_udp6_datagram_bytes(src_ip, dst_ip, src_port, dst_port, payload);
    assert(eth.len() == 14);
    assert(eth[12] == bytes::be16_bytes(0x86DD)[0] && eth[13] == bytes::be16_bytes(0x86DD)[1]);
    assert(s.subrange(0, 6) =~= dst_mac@);
    assert(s.subrange(6, 12) =~= src_mac@);
    lemma_three_parts(s, eth, h, d);
    assert(s.skip(62) =~= d.skip(8));
}

/// The bytes of a frame made of an Ethernet header, an IPv6 header and what it carries.
pub proof fn lemma_three_parts(s: Seq<u8>, eth: Seq<u8>, h: Seq<u8>, d: Seq<u8>)
    requires
        eth.len() == 14,
        h.len() == 40,
        s == eth + (h + d),
    ensures
        s.len() == 54 + d.len(),
        s[12] == eth[12] && s[13] == eth[13],
        s[14] == h[0] && s[15] == h[1] && s[16] == h[2] && s[17] == h[3],
        s[18] == h[4] && s[19] == h[5] && s[20] == h[6] && s[21] == h[7],
        s.subrange(22, 38) == h.subrange(8, 24),
        s.subrange(38, 54) == h.subrange(24, 40),
        s.skip(54) == d,
        d.len() >= 6 ==> s[54] == d[0] && s[55] == d[1] && s[56] == d[2] && s[57] == d[3] && s[58]
            == d[4] && s[59] == d[5],
{
    assert(s.subrange(22, 38) =~= h.subrange(8, 24));
    assert(s.subrange(38, 54) =~= h.subrange(24, 40));
    assert(s.skip(54) =~= d);
}

/// The checksum of a frame over IPv6 holds exactly if there is a whole datagram behind the headers
/// and its checksum is there, that is not zero, and both addresses, the protocol number, the UDP
/// length and the words of the datagram add up to a multiple of 65535. The version of the header
/// plays no part.
pub proof fn law_when_the_udp6_checksum_holds(frame: Seq<u8>)
    requires
        14 <= frame.len() <= usize::MAX,
    ensures
        ({
            let l3 = header_offset(frame);
            ipv6::udp6_cksum_valid(frame) <==> {
                &&& frame.len() >= l3 + 40
                &&& frame[l3 - 2] == 0x86 && frame[l3 - 1] == 0xDD
                &&& ipv6::upper_layer(frame.skip(l3)) matches Some(nh) && {
                    let start = l3 + nh.payload_offset;
                    let len = frame[start + 4] * 256 + frame[start + 5];
                    &&& nh.protocol == 17
                    &&& start + 8 <= frame.len()
                    &&& 8 <= len
                    &&& start + len <= frame.len()
                    &&& frame[start + 6] != 0 || frame[start + 7] != 0
                    &&& (checksum::word_sum(frame.subrange(l3 + 8, l3 + 40)) + 17 + len
                        + checksum::word_sum(frame.subrange(start, start + len))) % 65535 == 0
                }
            }
        }),
{
    let l3 = header_offset(frame);
    lemma_where_udp6_stands(frame);
    if stands_whole6(frame) {
        let start = l3 + ipv6::upper_layer(frame.skip(l3))->Some_0.payload_offset;
        lemma_udp6_checksum_in_frame(frame, l3, start);
    }
}

/// Whether a whole datagram stands behind the IPv6 headers of a frame.
spec fn stands_whole6(frame: Seq<u8>) -> bool {
    let l3 = header_offset(frame);
    &&& frame.len() >= l3 + 40
    &&& frame[l3 - 2] == 0x86 && frame[l3 - 1] == 0xDD
    &&& ipv6::upper_layer(frame.skip(l3)) matches Some(nh) && {
        let start = l3 + nh.payload_offset;
        &&& nh.protocol == 17
        &&& start + 8 <= frame.len()
        &&& 8 <= udp::udp_len_at(frame, start)
        &&& start + udp::udp_len_at(frame, start) <= frame.len()
    }
}

/// Whether the checksum field of the datagram at `start` holds the checksum.
spec fn holds_checksum6(frame: Seq<u8>, l3: int, start: int) -> bool {
    &&& bytes::be16_at(frame, start + 6) != 0
    &&& bytes::be16_at(frame, start + 6) == ipv6::udp6_cksum(
        addr::ipv6_at(frame, l3 + 8),
        addr::ipv6_at(frame, l3 + 24),
        frame.subrange(start, start + 8),
        udp::udp_payload_at(frame, start),
    )
}

/// Where the UDP header of a frame over IPv6 stands, and when its checksum holds.
proof fn lemma_where_udp6_stands(frame: Seq<u8>)
    requires
        14 <= frame.len() <= usize::MAX,
    ensures
        ({
            let l3 = header_offset(frame);
            let start = l3 + ipv6::upper_layer(frame.skip(l3))->Some_0.payload_offset;
            &&& stands_whole6(frame) ==> l3 + 40 <= start
            &&& ipv6::udp6_cksum_valid(frame) <==> stands_whole6(frame) && holds_checksum6(
                frame,
                l3,
                start,
            )
        }),
{
    let l3 = header_offset(frame);
    if l3 <= frame.len() {
        let data = frame.skip(l3);
        assert(data =~= frame.subrange(l3, frame.len() as int));
        if frame.len() >= l3 + 40 {
            ipv6::lemma_chain_end_bounds(data, data[6], 40);
        }
    }
}

/// The checksum field of the datagram at `start` holds the checksum if it is there and completes
/// the sum.
proof fn lemma_udp6_checksum_in_frame(frame: Seq<u8>, l3: int, start: int)
    requires
        0 <= l3,
        l3 + 40 <= start,
        start + 8 <= start + udp::udp_len_at(frame, start) <= frame.len(),
    ensures
        holds_checksum6(frame, l3, start) <==> {
            &&& frame[start + 6] != 0 || frame[start + 7] != 0
            &&& (checksum::word_sum(frame.subrange(l3 + 8, l3 + 40)) + 17 + udp::udp_len_at(
                frame,
                start,
            ) + checksum::word_sum(
                frame.subrange(start, start + udp::udp_len_at(frame, start)),
            )) % 65535 == 0
        },
{
    let stored = bytes::be16_at(frame, start + 6);
    let n = ipv6::udp6_sum(
        addr::ipv6_at(frame, l3 + 8),
        addr::ipv6_at(frame, l3 + 24),
        frame.subrange(start, start + 8),
        udp::udp_payload_at(frame, start),
    );
    lemma_udp6_sum_in_frame(frame, l3, start);
    checksum::lemma_complement_nonzero_missing(n);
    if stored > 0 {
        lemma_missing_completes(n, stored);
    }
}

/// The sum that a UDP checksum over IPv6 completes, and what is in the frame.
proof fn lemma_udp6_sum_in_frame(frame: Seq<u8>, l3: int, start: int)
    requires
        0 <= l3,
        l3 + 40 <= start,
        start + 8 <= start + udp::udp_len_at(frame, start) <= frame.len(),
    ensures
        ({
            let len = udp::udp_len_at(frame, start);
            let n = ipv6::udp6_sum(
                addr::ipv6_at(frame, l3 + 8),
                addr::ipv6_at(frame, l3 + 24),
                frame.subrange(start, start + 8),
                udp::udp_payload_at(frame, start),
            );
            &&& 0 <= n < 0x1_0000_0000
            &&& n + bytes::be16_at(frame, start + 6) == checksum::word_sum(
                frame.subrange(l3 + 8, l3 + 40),
            ) + 17 + len + checksum::word_sum(frame.subrange(start, start + len))
        }),
{
    let len = udp::udp_len_at(frame, start);
    let src = addr::ipv6_at(frame, l3 + 8);
    let dst = addr::ipv6_at(frame, l3 + 24);
    let header = frame.subrange(start, start + 8);
    let payload = udp::udp_payload_at(frame, start);
    addr::lemma_bytes_of_ipv6_at(frame, l3 + 8);
    addr::lemma_bytes_of_ipv6_at(frame, l3 + 24);
    assert(frame.subrange(l3 + 8, l3 + 40) =~= src.bytes() + dst.bytes());
    checksum::lemma_word_sum_concat(src.bytes(), dst.bytes());
    lemma_datagram_sum(header, payload, bytes::be16_at(frame, start + 6));
    assert(frame.subrange(start, start + len) =~= header + payload);
    checksum::lemma_word_sum_bounds(src.bytes());
    checksum::lemma_word_sum_bounds(dst.bytes());
    checksum::lemma_word_sum_bounds(checksum::blanked(header, 6));
    checksum::lemma_word_sum_bounds(payload);
}

/// The words of a datagram with its checksum field and without it.
proof fn lemma_datagram_sum(header: Seq<u8>, payload: Seq<u8>, stored: u16)
    requires
        header.len() == 8,
        stored == header[6] * 256 + header[7],
    ensures
        checksum::word_sum(header + payload) == checksum::word_sum(checksum::blanked(header, 6))
            + stored + checksum::word_sum(payload),
{
    let head = header.subrange(0, 6);
    let empty = Seq::<u8>::empty();
    assert(header =~= head + bytes::be16_bytes(stored) + empty);
    assert(checksum::blanked(header, 6) =~= head + bytes::be16_bytes(0) + empty);
    udp::lemma_word_sum_field(head, stored, empty);
    udp::lemma_word_sum_field(head, 0, empty);
    checksum::lemma_word_sum_concat(header, payload);
}

/// What is missing to a multiple of 65535, and is not zero, is one number only.
proof fn lemma_missing_completes(n: int, stored: u16)
    requires
        0 <= n,
        stored > 0,
    ensures
        stored == 65535 - n % 65535 <==> (n + stored) % 65535 == 0,
{
}

/// The UDP checksum over IPv6 is not zero, and completes both addresses, 17, the length, the
/// header without its checksum, and the payload to a multiple of 65535.
pub proof fn law_udp6_checksum_completes(
    src: Ipv6Addr,
    dst: Ipv6Addr,
    header: Seq<u8>,
    payload: Seq<u8>,
)
    requires
        header.len() == 8,
        8 + payload.len() <= 0xFFFF,
    ensures
        ({
            let cksum = ipv6::udp6_cksum(src, dst, header, payload);
            let sum = checksum::word_sum(src.bytes() + dst.bytes()) + 17 + 8 + payload.len()
                + checksum::word_sum(header.take(6)) + checksum::word_sum(payload);
            &&& cksum > 0
            &&& (sum + cksum) % 65535 == 0
        }),
{
    let head = header.take(6);
    let empty = Seq::<u8>::empty();
    checksum::lemma_word_sum_concat(src.bytes(), dst.bytes());
    assert(checksum::blanked(header, 6) =~= head + bytes::be16_bytes(0) + empty);
    udp::lemma_word_sum_field(head, 0, empty);
    checksum::lemma_word_sum_bounds(src.bytes());
    checksum::lemma_word_sum_bounds(dst.bytes());
    checksum::lemma_word_sum_bounds(head);
    checksum::lemma_word_sum_bounds(payload);
    let n = ipv6::udp6_sum(src, dst, header, payload);
    checksum::lemma_complement_nonzero_missing(n);
    wire_laws::lemma_missing_added(n);
}

/// The checksum of an upper-layer message over IPv6 completes both addresses, the protocol number,
/// the length, and the message without the field at 2 to a multiple of 65535.
pub proof fn law_message6_sum(src: Ipv6Addr, dst: Ipv6Addr, protocol: u8, message: Seq<u8>)
    requires
        4 <= message.len() <= 0xFFFF,
    ensures
        ({
            let n = ipv6::message_sum6(src, dst, protocol, message, 2);
            let sum = checksum::word_sum(src.bytes() + dst.bytes()) + protocol + message.len()
                + checksum::word_sum(message.take(2)) + checksum::word_sum(message.skip(4));
            &&& n == sum
            &&& checksum::complement_nonzero(n) > 0
            &&& (sum + checksum::complement_nonzero(n)) % 65535 == 0
        }),
{
    checksum::lemma_word_sum_concat(src.bytes(), dst.bytes());
    let a = message.take(2);
    let b = message.skip(4);
    assert(checksum::blanked(message, 2) =~= a + bytes::be16_bytes(0) + b);
    udp::lemma_word_sum_field(a, 0, b);
    checksum::lemma_word_sum_bounds(src.bytes());
    checksum::lemma_word_sum_bounds(dst.bytes());
    checksum::lemma_word_sum_bounds(a);
    checksum::lemma_word_sum_bounds(b);
    let n = ipv6::message_sum6(src, dst, protocol, message, 2);
    checksum::lemma_complement_nonzero_missing(n);
    wire_laws::lemma_missing_added(n);
}

/// The link-local addresses are those whose first ten bits are 1111111010.
pub proof fn law_link_local_prefix(ip: Ipv6Addr)
    ensures
        ipv6_addr::in_link_local_prefix(ip) <==> ip.s0 / 64 == 0x3FA,
{
}

/// The Ethernet address of a multicast group over IPv6 is 33:33 and the last four bytes of the
/// group; and the solicited-node group of an address depends on its last three bytes alone.
pub proof fn law_multicast6_addresses(group: Ipv6Addr, other: Ipv6Addr)
    ensures
        ({
            let m = ipv6_addr::multicast_mac(group);
            let b = group.bytes();
            &&& m.len() == 6
            &&& m[0] == 0x33 && m[1] == 0x33
            &&& m[2] == b[12] && m[3] == b[13] && m[4] == b[14] && m[5] == b[15]
        }),
        ipv6_addr::solicited_node(group) == ipv6_addr::solicited_node(other) <==> group.s6 % 256
            == other.s6 % 256 && group.s7 == other.s7,
{
}

/// How much the builders take: a frame is 9015 bytes at most, of which the headers take 42 bytes, 46
/// with a tag and 62 over IPv6; what a tunnel carries is bounded by the length fields of 16 bits.
/// A payload that is too long is reported with the limit and its length.
pub proof fn law_how_much_the_builders_take(most: usize, len: usize)
    ensures
        udp::max_payload() == 8973,
        udp::max_payload_tagged() == 8969,
        ipv6::max_payload6() == 8953,
        gue::gue_max_payload() == 65475,
        gue::gue_max_payload6() == 65495,
        udp::payload_too_large(most as int, len as int) == (UdpError::PayloadTooLarge {
            max: most,
            actual: len,
        }),
        most <= 0xFFFF ==> bytes::low16(most as int) == most,
{
}

} // verus!
