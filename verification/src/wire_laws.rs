//! What frames are on the wire, byte by byte.
//!
//! The laws here speak of bytes at offsets and of numbers. They say which frames are taken as
//! what, what is read out of them wherever they come from, and where each field stands in the
//! frames that go out.

use vstd::prelude::*;

use crate::addr;
use crate::addr::Ipv4Addr;
use crate::arp;
use crate::bytes;
use crate::checksum;
use crate::gue;
use crate::gue::{GueDecapResult, GueHeader};
use crate::icmp;
use crate::udp;
use crate::udp::{ParsedUdpPacket, ParsedUdpPacketRef};
use crate::vlan;

verus! {

// ---------------------------------------------------------------------------
// UDP over IPv4, received
// ---------------------------------------------------------------------------

/// An untagged frame is a UDP datagram over IPv4 exactly if it has the EtherType 0x0800, a
/// header of version 4 with at least five words and protocol 17, and behind that header a UDP
/// header whose length covers itself and no more than what is left of the frame. A tagged one
/// has all that four bytes further behind.
pub proof fn law_what_is_a_udp_frame(frame: Seq<u8>)
    requires
        frame.len() >= 14,
    ensures
        !(frame[12] == 0x81 && frame[13] == 0) ==> (udp::is_udp4_frame(frame) <==> {
            let udp = 14 + frame[14] % 16 * 4;
            let len = frame[udp + 4] * 256 + frame[udp + 5];
            &&& frame.len() >= 42
            &&& frame[12] == 8 && frame[13] == 0
            &&& frame[14] / 16 == 4 && frame[14] % 16 >= 5
            &&& frame[23] == 17
            &&& udp + 8 <= frame.len()
            &&& 8 <= len
            &&& udp + len <= frame.len()
        }),
        frame[12] == 0x81 && frame[13] == 0 ==> (udp::is_udp4_frame(frame) <==> {
            let udp = 18 + frame[18] % 16 * 4;
            let len = frame[udp + 4] * 256 + frame[udp + 5];
            &&& frame.len() >= 46
            &&& frame[16] == 8 && frame[17] == 0
            &&& frame[18] / 16 == 4 && frame[18] % 16 >= 5
            &&& frame[27] == 17
            &&& udp + 8 <= frame.len()
            &&& 8 <= len
            &&& udp + len <= frame.len()
        }),
{
}

/// What is read out of a UDP frame: the Ethernet addresses at its front, the IPv4 addresses 12
/// and 16 bytes into the IPv4 header, the ports at the front of the UDP header, and as payload
/// what the UDP length covers behind that header. A tag gives its lower twelve bits.
pub proof fn law_what_a_udp_frame_says(frame: Seq<u8>, p: ParsedUdpPacket)
    requires
        udp::is_udp4_frame(frame),
        p.describes(frame),
    ensures
        ({
            let tagged = frame[12] == 0x81 && frame[13] == 0;
            let l3 = if tagged {
                18int
            } else {
                14int
            };
            let udp = l3 + frame[l3] % 16 * 4;
            let len = frame[udp + 4] * 256 + frame[udp + 5];
            &&& forall|k: int| 0 <= k < 6 ==> #[trigger] p.dst_mac@[k] == frame[k]
            &&& forall|k: int| 0 <= k < 6 ==> #[trigger] p.src_mac@[k] == frame[6 + k]
            &&& p.src_ip.a == frame[l3 + 12] && p.src_ip.b == frame[l3 + 13] && p.src_ip.c
                == frame[l3 + 14] && p.src_ip.d == frame[l3 + 15]
            &&& p.dst_ip.a == frame[l3 + 16] && p.dst_ip.b == frame[l3 + 17] && p.dst_ip.c
                == frame[l3 + 18] && p.dst_ip.d == frame[l3 + 19]
            &&& p.src_port == frame[udp] * 256 + frame[udp + 1]
            &&& p.dst_port == frame[udp + 2] * 256 + frame[udp + 3]
            &&& p.payload@.len() == len - 8
            &&& forall|k: int|
                0 <= k < len - 8 ==> #[trigger] p.payload@[k] == frame[udp + 8 + k]
            &&& !tagged ==> p.vlan_id is None
            &&& tagged ==> p.vlan_id == Some(((frame[14] % 16) * 256 + frame[15]) as u16)
        }),
{
    let l3 = vlan::layout_of(frame, None)->Some_0.l3_offset as int;
    let udp = udp::ip4_payload_start(frame, l3);
    assert forall|k: int| 0 <= k < 6 implies #[trigger] p.dst_mac@[k] == frame[k] by {
        assert(frame.subrange(0, 6)[k] == frame[k]);
    }
    assert forall|k: int| 0 <= k < 6 implies #[trigger] p.src_mac@[k] == frame[6 + k] by {
        assert(frame.subrange(6, 12)[k] == frame[6 + k]);
    }
}

/// The parse that borrows its payload says the same as the one that owns it.
pub proof fn law_borrowed_parse_agrees(
    frame: Seq<u8>,
    p: ParsedUdpPacket,
    r: ParsedUdpPacketRef<'_>,
)
    requires
        udp::is_udp4_frame(frame),
        p.describes(frame),
        r.describes(frame),
    ensures
        r.src_mac@ == p.src_mac@,
        r.src_ip == p.src_ip,
        r.dst_ip == p.dst_ip,
        r.src_port == p.src_port,
        r.dst_port == p.dst_port,
        r.payload@ == p.payload@,
        r.vlan_id == p.vlan_id,
{
}

/// The type of service, the total length, the identification, the fragment word, the time to
/// live, the header checksum and the options of the IPv4 header play no part in the parse: if a
/// frame parses, it parses to the same with any others.
pub proof fn law_other_header_fields_play_no_part(frame: Seq<u8>, other: Seq<u8>)
    requires
        udp::is_udp4_frame(frame),
        other.len() == frame.len(),
        ({
            let l3 = if frame[12] == 0x81 && frame[13] == 0 {
                18int
            } else {
                14int
            };
            let udp = l3 + frame[l3] % 16 * 4;
            forall|k: int|
                0 <= k < frame.len() && !(l3 + 1 <= k <= l3 + 8) && !(l3 + 10 <= k <= l3 + 11) && !(
                l3 + 20 <= k < udp) ==> #[trigger] other[k] == frame[k]
        }),
    ensures
        udp::is_udp4_frame(other),
        forall|p: ParsedUdpPacket| #[trigger] p.describes(other) <==> p.describes(frame),
        forall|p: ParsedUdpPacketRef<'_>| #[trigger] p.describes(other) <==> p.describes(frame),
{
    let l3 = vlan::layout_of(frame, None)->Some_0.l3_offset as int;
    let udp = udp::ip4_payload_start(frame, l3);
    assert(other[12] == frame[12] && other[13] == frame[13] && other[14] == frame[14]);
    assert(l3 == 18 ==> other[15] == frame[15] && other[16] == frame[16] && other[17] == frame[17]);
    assert(vlan::layout_of(other, None) == vlan::layout_of(frame, None));
    assert(other[l3] == frame[l3] && other[l3 + 9] == frame[l3 + 9]);
    assert(other[udp + 4] == frame[udp + 4] && other[udp + 5] == frame[udp + 5]);
    assert(other.subrange(0, 6) =~= frame.subrange(0, 6));
    assert(other.subrange(6, 12) =~= frame.subrange(6, 12));
    assert(udp::udp_payload_at(other, udp) =~= udp::udp_payload_at(frame, udp));
    assert(addr::ipv4_at(other, l3 + 12) == addr::ipv4_at(frame, l3 + 12));
    assert(addr::ipv4_at(other, l3 + 16) == addr::ipv4_at(frame, l3 + 16));
    assert(bytes::be16_at(other, udp) == bytes::be16_at(frame, udp));
    assert(bytes::be16_at(other, udp + 2) == bytes::be16_at(frame, udp + 2));
}

// ---------------------------------------------------------------------------
// The checksum
// ---------------------------------------------------------------------------

/// The sum that checksums are made of adds up big-endian words of two bytes, an odd last byte
/// being the upper half of a word.
pub proof fn law_sum_adds_up_words(s: Seq<u8>, x: u8, y: u8)
    requires
        s.len() % 2 == 0,
    ensures
        checksum::word_sum(Seq::<u8>::empty()) == 0,
        checksum::word_sum(s + seq![x]) == checksum::word_sum(s) + x * 256,
        checksum::word_sum(s + seq![x, y]) == checksum::word_sum(s) + x * 256 + y,
{
    checksum::lemma_word_sum_concat(s, seq![x]);
    checksum::lemma_word_sum_concat(s, seq![x, y]);
    checksum::lemma_word_sum_pair(seq![x, y]);
    reveal_with_fuel(checksum::word_sum, 2);
    assert(seq![x].drop_last() =~= Seq::<u8>::empty());
}

/// The IPv4 header checksum is what is missing to a multiple of 65535.
pub proof fn law_header_checksum_completes(header: Seq<u8>)
    requires
        0 < checksum::word_sum(header) < 0x1_0000_0000,
    ensures
        (checksum::word_sum(header) + udp::ipv4_cksum(header)) % 65535 == 0,
        udp::ipv4_cksum(header) < 65535,
{
    let n = checksum::word_sum(header);
    let q = (n - 1) / 65535;
    assert(n + udp::ipv4_cksum(header) == (q + 1) * 65535);
    vstd::arithmetic::div_mod::lemma_mod_multiples_basic(q + 1, 65535);
}

/// The header checksum of a frame holds exactly if there is a whole header of at least five words,
/// behind the tag if there is one, whose words, options included, add up to a multiple of 65535. No
/// byte outside that header plays a part.
pub proof fn law_when_the_header_checksum_holds(frame: Seq<u8>)
    requires
        frame.len() >= 14,
    ensures
        ({
            let l3 = if frame[12] == 0x81 && frame[13] == 0 {
                18int
            } else {
                14int
            };
            let udp = l3 + frame[l3] % 16 * 4;
            udp::ipv4_cksum_valid(frame) <==> {
                &&& frame.len() >= l3 + 20
                &&& frame[l3] % 16 >= 5
                &&& frame.len() >= udp
                &&& checksum::word_sum(frame.subrange(l3, udp)) % 65535 == 0
            }
        }),
{
    let l3 = if frame[12] == 0x81 && frame[13] == 0 {
        18int
    } else {
        14int
    };
    let udp = l3 + frame[l3] % 16 * 4;
    let header = frame.subrange(l3, udp);
    if frame.len() >= l3 + 20 && frame[l3] % 16 >= 5 && frame.len() >= udp {
        checksum::lemma_word_sum_bounds(header);
        assert(header[0] == frame[l3]);
        lemma_sum_of_nonzero(header, 0);
        lemma_folds_to_ones(checksum::word_sum(header));
    }
}

/// The UDP checksum of a frame holds exactly if there is a UDP header, in a frame with room for the
/// shortest IPv4 header too, and its checksum is absent, that is zero, or the datagram is whole and
/// both addresses, the protocol number, the UDP length and the words of the datagram add up to a
/// multiple of 65535.
pub proof fn law_when_the_udp_checksum_holds(frame: Seq<u8>)
    requires
        frame.len() >= 14,
    ensures
        ({
            let l3 = if frame[12] == 0x81 && frame[13] == 0 {
                18int
            } else {
                14int
            };
            let udp = l3 + frame[l3] % 16 * 4;
            let len = frame[udp + 4] * 256 + frame[udp + 5];
            udp::udp_cksum_valid(frame) <==> {
                &&& frame.len() >= l3 + 28
                &&& frame.len() >= udp + 8
                &&& frame[udp + 6] == 0 && frame[udp + 7] == 0 || {
                    &&& frame.len() >= udp + len
                    &&& (checksum::word_sum(frame.subrange(l3 + 12, l3 + 20)) + 17 + len
                        + checksum::word_sum(frame.subrange(udp, udp + len))) % 65535 == 0
                }
            }
        }),
{
    let l3 = if frame[12] == 0x81 && frame[13] == 0 {
        18int
    } else {
        14int
    };
    let udp = l3 + frame[l3] % 16 * 4;
    let len = udp::udp_len_at(frame, udp);
    if frame.len() >= l3 + 28 && frame.len() >= udp + 8 && frame.len() >= udp + len {
        lemma_udp_sum_in_frame(frame, l3, udp);
    }
}

/// When what is in the frame folds to all ones.
proof fn lemma_udp_sum_in_frame(frame: Seq<u8>, l3: int, udp: int)
    requires
        0 <= l3 <= udp,
        frame.len() >= l3 + 28,
        frame.len() >= udp + 8,
        frame.len() >= udp + udp::udp_len_at(frame, udp),
    ensures
        ({
            let len = udp::udp_len_at(frame, udp);
            checksum::folded(
                checksum::wrapped(
                    udp::pseudo_sum(
                        addr::ipv4_at(frame, l3 + 12).bytes(),
                        addr::ipv4_at(frame, l3 + 16).bytes(),
                        len,
                    ) + checksum::word_sum(frame.subrange(udp, udp + len)),
                ),
            ) == 0xFFFF <==> (checksum::word_sum(frame.subrange(l3 + 12, l3 + 20)) + 17 + len
                + checksum::word_sum(frame.subrange(udp, udp + len))) % 65535 == 0
        }),
{
    let len = udp::udp_len_at(frame, udp);
    let src = addr::ipv4_at(frame, l3 + 12).bytes();
    let dst = addr::ipv4_at(frame, l3 + 16).bytes();
    let datagram = frame.subrange(udp, udp + len);
    assert(frame.subrange(l3 + 12, l3 + 20) =~= src + dst);
    checksum::lemma_word_sum_concat(src, dst);
    checksum::lemma_word_sum_bounds(src);
    checksum::lemma_word_sum_bounds(dst);
    checksum::lemma_word_sum_bounds(datagram);
    lemma_folds_to_ones(udp::pseudo_sum(src, dst, len) + checksum::word_sum(datagram));
}

/// A sum that is not zero folds to all ones exactly if it is a multiple of 65535.
proof fn lemma_folds_to_ones(n: int)
    requires
        0 < n < 0x1_0000_0000,
    ensures
        checksum::folded(checksum::wrapped(n)) == 0xFFFF <==> n % 65535 == 0,
{
}

/// A sum of words of which one is not zero is not zero.
proof fn lemma_sum_of_nonzero(s: Seq<u8>, i: int)
    requires
        0 <= i < s.len(),
        s[i] > 0,
    ensures
        checksum::word_sum(s) > 0,
    decreases s.len(),
{
    checksum::lemma_word_sum_bounds(s.drop_last());
    if i == s.len() - 1 {
        assert(s.last() * checksum::weight(i) > 0) by (nonlinear_arith)
            requires
                s.last() > 0,
                checksum::weight(i) > 0,
        ;
    } else {
        lemma_sum_of_nonzero(s.drop_last(), i);
        assert(s.last() * checksum::weight(s.len() - 1) >= 0) by (nonlinear_arith)
            requires
                s.last() >= 0,
                checksum::weight(s.len() - 1) > 0,
        ;
    }
}

// ---------------------------------------------------------------------------
// UDP over IPv4, sent
// ---------------------------------------------------------------------------

/// Whether an IPv4 packet with a UDP datagram of these fields stands at `l3`.
pub open spec fn datagram_stands_at(
    s: Seq<u8>,
    l3: int,
    src_ip: Ipv4Addr,
    dst_ip: Ipv4Addr,
    src_port: u16,
    dst_port: u16,
    payload: Seq<u8>,
    ttl: u8,
) -> bool {
    &&& s.len() >= l3 + 28 + payload.len()
    &&& s[l3] == 0x45 && s[l3 + 1] == 0
    &&& s[l3 + 2] * 256 + s[l3 + 3] == 28 + payload.len()
    &&& s[l3 + 4] == 0 && s[l3 + 5] == 0 && s[l3 + 6] == 0x40 && s[l3 + 7] == 0
    &&& s[l3 + 8] == ttl && s[l3 + 9] == 17
    &&& s[l3 + 12] == src_ip.a && s[l3 + 13] == src_ip.b && s[l3 + 14] == src_ip.c && s[l3 + 15]
        == src_ip.d
    &&& s[l3 + 16] == dst_ip.a && s[l3 + 17] == dst_ip.b && s[l3 + 18] == dst_ip.c && s[l3 + 19]
        == dst_ip.d
    &&& s[l3 + 20] * 256 + s[l3 + 21] == src_port
    &&& s[l3 + 22] * 256 + s[l3 + 23] == dst_port
    &&& s[l3 + 24] * 256 + s[l3 + 25] == 8 + payload.len()
    &&& forall|k: int| 0 <= k < payload.len() ==> s[l3 + 28 + k] == #[trigger] payload[k]
}

/// Where the fields of an IPv4 header stand.
pub proof fn lemma_ipv4_header_bytes(
    total_len: u16,
    flags: u8,
    ttl: u8,
    protocol: u8,
    src_ip: Ipv4Addr,
    dst_ip: Ipv4Addr,
)
    ensures
        ({
            let h = udp::ipv4_header(total_len, flags, ttl, protocol, src_ip, dst_ip);
            &&& h.len() == 20
            &&& h[0] == 0x45 && h[1] == 0 && h[2] * 256 + h[3] == total_len
            &&& h[4] == 0 && h[5] == 0 && h[6] == flags && h[7] == 0
            &&& h[8] == ttl && h[9] == protocol
            &&& h[12] == src_ip.a && h[13] == src_ip.b && h[14] == src_ip.c && h[15] == src_ip.d
            &&& h[16] == dst_ip.a && h[17] == dst_ip.b && h[18] == dst_ip.c && h[19] == dst_ip.d
        }),
{
    let blank = udp::ipv4_header_with(total_len, flags, ttl, protocol, 0, src_ip, dst_ip);
    let cksum = udp::ipv4_cksum(blank);
    let head = udp::ipv4_head(total_len, flags, ttl, protocol);
    let h = head + bytes::be16_bytes(cksum) + (src_ip.bytes() + dst_ip.bytes());
    assert(h == udp::ipv4_header(total_len, flags, ttl, protocol, src_ip, dst_ip));
    assert(head.len() == 10);
    assert(h[2] == head[2] && h[3] == head[3]);
    assert(total_len / 256 * 256 + total_len % 256 == total_len);
}

/// Where the fields of a UDP datagram stand.
pub proof fn lemma_udp_datagram_bytes(
    src_ip: Ipv4Addr,
    dst_ip: Ipv4Addr,
    src_port: u16,
    dst_port: u16,
    payload: Seq<u8>,
)
    requires
        8 + payload.len() <= 0xFFFF,
    ensures
        ({
            let d = udp::udp_datagram(src_ip, dst_ip, src_port, dst_port, payload);
            &&& d.len() == 8 + payload.len()
            &&& d[0] * 256 + d[1] == src_port
            &&& d[2] * 256 + d[3] == dst_port
            &&& d[4] * 256 + d[5] == 8 + payload.len()
            &&& forall|k: int| 0 <= k < payload.len() ==> d[8 + k] == #[trigger] payload[k]
        }),
{
    let udp_len = (8 + payload.len()) as u16;
    let blank = udp::udp_header(src_port, dst_port, udp_len, 0);
    let cksum = udp::udp_cksum(src_ip.bytes(), dst_ip.bytes(), blank, payload);
    let header = udp::udp_header(src_port, dst_port, udp_len, cksum);
    let d = header + payload;
    assert(d == udp::udp_datagram(src_ip, dst_ip, src_port, dst_port, payload));
    assert(header.len() == 8);
    assert(d[0] == bytes::be16_bytes(src_port)[0] && d[1] == bytes::be16_bytes(src_port)[1]);
    assert(d[2] == bytes::be16_bytes(dst_port)[0] && d[3] == bytes::be16_bytes(dst_port)[1]);
    assert(d[4] == bytes::be16_bytes(udp_len)[0] && d[5] == bytes::be16_bytes(udp_len)[1]);
}

/// Where the fields of a packet stand.
pub proof fn lemma_datagram_stands_at(
    pre: Seq<u8>,
    src_ip: Ipv4Addr,
    dst_ip: Ipv4Addr,
    src_port: u16,
    dst_port: u16,
    payload: Seq<u8>,
    ttl: u8,
)
    requires
        28 + payload.len() <= 0xFFFF,
    ensures
        ({
            let s = pre + udp::udp4_packet(src_ip, dst_ip, src_port, dst_port, payload, ttl);
            &&& s.len() == pre.len() + 28 + payload.len()
            &&& datagram_stands_at(
                s,
                pre.len() as int,
                src_ip,
                dst_ip,
                src_port,
                dst_port,
                payload,
                ttl,
            )
        }),
{
    let total_len = (28 + payload.len()) as u16;
    let h = udp::ipv4_header(total_len, udp::dont_fragment(), ttl, 17, src_ip, dst_ip);
    let d = udp::udp_datagram(src_ip, dst_ip, src_port, dst_port, payload);
    lemma_ipv4_header_bytes(total_len, udp::dont_fragment(), ttl, 17, src_ip, dst_ip);
    lemma_udp_datagram_bytes(src_ip, dst_ip, src_port, dst_port, payload);
    assert(h + d == udp::udp4_packet(src_ip, dst_ip, src_port, dst_port, payload, ttl));
    lemma_parts_stand_at(pre, h, d, src_ip, dst_ip, src_port, dst_port, payload, ttl);
}

/// A header and a datagram stand one behind the other.
proof fn lemma_parts_stand_at(
    pre: Seq<u8>,
    h: Seq<u8>,
    d: Seq<u8>,
    src_ip: Ipv4Addr,
    dst_ip: Ipv4Addr,
    src_port: u16,
    dst_port: u16,
    payload: Seq<u8>,
    ttl: u8,
)
    requires
        h.len() == 20,
        h[0] == 0x45 && h[1] == 0 && h[2] * 256 + h[3] == 28 + payload.len(),
        h[4] == 0 && h[5] == 0 && h[6] == 0x40 && h[7] == 0,
        h[8] == ttl && h[9] == 17,
        h[12] == src_ip.a && h[13] == src_ip.b && h[14] == src_ip.c && h[15] == src_ip.d,
        h[16] == dst_ip.a && h[17] == dst_ip.b && h[18] == dst_ip.c && h[19] == dst_ip.d,
        d.len() == 8 + payload.len(),
        d[0] * 256 + d[1] == src_port,
        d[2] * 256 + d[3] == dst_port,
        d[4] * 256 + d[5] == 8 + payload.len(),
        forall|k: int| 0 <= k < payload.len() ==> d[8 + k] == #[trigger] payload[k],
    ensures
        datagram_stands_at(
            pre + (h + d),
            pre.len() as int,
            src_ip,
            dst_ip,
            src_port,
            dst_port,
            payload,
            ttl,
        ),
{
    let s = pre + (h + d);
    let l3 = pre.len() as int;
    assert forall|k: int| 0 <= k < payload.len() implies s[l3 + 28 + k] == #[trigger] payload[k] by {
        assert(d[8 + k] == payload[k]);
    }
}

/// Where the fields of a built frame stand: the Ethernet addresses, the EtherType 0x0800, and
/// the packet.
pub proof fn law_built_frame_bytes(
    src_mac: [u8; 6],
    dst_mac: [u8; 6],
    src_ip: Ipv4Addr,
    dst_ip: Ipv4Addr,
    src_port: u16,
    dst_port: u16,
    payload: Seq<u8>,
    ttl: u8,
)
    requires
        28 + payload.len() <= 0xFFFF,
    ensures
        ({
            let s = udp::udp4_frame(
                src_mac@,
                dst_mac@,
                src_ip,
                dst_ip,
                src_port,
                dst_port,
                payload,
                ttl,
            );
            &&& s.len() == 42 + payload.len()
            &&& forall|k: int| 0 <= k < 6 ==> s[k] == #[trigger] dst_mac@[k]
            &&& forall|k: int| 0 <= k < 6 ==> s[6 + k] == #[trigger] src_mac@[k]
            &&& s[12] == 8 && s[13] == 0
            &&& datagram_stands_at(s, 14, src_ip, dst_ip, src_port, dst_port, payload, ttl)
        }),
{
    let eth = udp::eth_header(dst_mac@, src_mac@, 0x0800);
    assert(eth.len() == 14);
    lemma_datagram_stands_at(eth, src_ip, dst_ip, src_port, dst_port, payload, ttl);
    assert(eth[12] == bytes::be16_bytes(0x0800)[0] && eth[13] == bytes::be16_bytes(0x0800)[1]);
    let s = udp::udp4_frame(
        src_mac@,
        dst_mac@,
        src_ip,
        dst_ip,
        src_port,
        dst_port,
        payload,
        ttl,
    );
    assert(forall|k: int| 0 <= k < 14 ==> s[k] == #[trigger] eth[k]);
}

/// Where the fields of a built tagged frame stand: the Ethernet addresses, 0x8100, the tag, the
/// EtherType 0x0800, and the packet.
pub proof fn law_built_tagged_frame_bytes(
    src_mac: [u8; 6],
    dst_mac: [u8; 6],
    src_ip: Ipv4Addr,
    dst_ip: Ipv4Addr,
    src_port: u16,
    dst_port: u16,
    payload: Seq<u8>,
    ttl: u8,
    tci: u16,
)
    requires
        28 + payload.len() <= 0xFFFF,
    ensures
        ({
            let s = udp::udp4_frame_tagged(
                src_mac@,
                dst_mac@,
                src_ip,
                dst_ip,
                src_port,
                dst_port,
                payload,
                ttl,
                tci,
            );
            &&& s.len() == 46 + payload.len()
            &&& forall|k: int| 0 <= k < 6 ==> s[k] == #[trigger] dst_mac@[k]
            &&& forall|k: int| 0 <= k < 6 ==> s[6 + k] == #[trigger] src_mac@[k]
            &&& s[12] == 0x81 && s[13] == 0
            &&& s[14] * 256 + s[15] == tci
            &&& s[16] == 8 && s[17] == 0
            &&& datagram_stands_at(s, 18, src_ip, dst_ip, src_port, dst_port, payload, ttl)
        }),
{
    let eth = udp::eth_header_tagged(dst_mac@, src_mac@, tci, 0x0800);
    assert(eth.len() == 18);
    lemma_datagram_stands_at(eth, src_ip, dst_ip, src_port, dst_port, payload, ttl);
    assert(eth[12] == bytes::be16_bytes(0x8100)[0] && eth[13] == bytes::be16_bytes(0x8100)[1]);
    assert(eth[14] == bytes::be16_bytes(tci)[0] && eth[15] == bytes::be16_bytes(tci)[1]);
    assert(eth[16] == bytes::be16_bytes(0x0800)[0] && eth[17] == bytes::be16_bytes(0x0800)[1]);
    let s = udp::udp4_frame_tagged(
        src_mac@,
        dst_mac@,
        src_ip,
        dst_ip,
        src_port,
        dst_port,
        payload,
        ttl,
        tci,
    );
    assert(forall|k: int| 0 <= k < 18 ==> s[k] == #[trigger] eth[k]);
}

// ---------------------------------------------------------------------------
// GUE
// ---------------------------------------------------------------------------

/// Where the fields of what the tunnel carries stand: the bytes 0, 4, 0, 0, and the inner
/// packet with time to live 64.
pub proof fn law_gue_payload_bytes(
    src_ip: Ipv4Addr,
    dst_ip: Ipv4Addr,
    src_port: u16,
    dst_port: u16,
    payload: Seq<u8>,
)
    requires
        28 + payload.len() <= 0xFFFF,
    ensures
        ({
            let s = gue::gue_payload(src_ip, dst_ip, src_port, dst_port, payload);
            &&& s.len() == 32 + payload.len()
            &&& s[0] == 0 && s[1] == 4 && s[2] == 0 && s[3] == 0
            &&& datagram_stands_at(s, 4, src_ip, dst_ip, src_port, dst_port, payload, 64)
        }),
{
    let header = GueHeader { version: 0, c_flag: false, hlen: 0, proto: 4, flags: 0 };
    let head = header.bytes();
    assert(head.len() == 4);
    assert(head[0] == 0 && head[1] == 4 && head[2] == 0 && head[3] == 0);
    lemma_datagram_stands_at(head, src_ip, dst_ip, src_port, dst_port, payload, 64);
    assert(gue::gue_payload(src_ip, dst_ip, src_port, dst_port, payload) == head + udp::udp4_packet(
        src_ip,
        dst_ip,
        src_port,
        dst_port,
        payload,
        64,
    ));
}

/// What is inside a packet stands in the packet.
pub proof fn lemma_inner_datagram(
    s: Seq<u8>,
    at: int,
    inner: Seq<u8>,
    l3: int,
    src_ip: Ipv4Addr,
    dst_ip: Ipv4Addr,
    src_port: u16,
    dst_port: u16,
    payload: Seq<u8>,
    ttl: u8,
)
    requires
        0 <= at,
        0 <= l3,
        at + inner.len() <= s.len(),
        forall|k: int| 0 <= k < inner.len() ==> s[at + k] == #[trigger] inner[k],
        datagram_stands_at(inner, l3, src_ip, dst_ip, src_port, dst_port, payload, ttl),
    ensures
        datagram_stands_at(s, at + l3, src_ip, dst_ip, src_port, dst_port, payload, ttl),
{
    assert forall|k: int| 0 <= k < 28 implies #[trigger] s[at + l3 + k] == inner[l3 + k] by {
        assert(s[at + (l3 + k)] == inner[l3 + k]);
    }
    let b = at + l3;
    assert(s[b + 0] == inner[l3 + 0] && s[b + 1] == inner[l3 + 1] && s[b + 2] == inner[l3 + 2]);
    assert(s[b + 3] == inner[l3 + 3] && s[b + 4] == inner[l3 + 4] && s[b + 5] == inner[l3 + 5]);
    assert(s[b + 6] == inner[l3 + 6] && s[b + 7] == inner[l3 + 7] && s[b + 8] == inner[l3 + 8]);
    assert(s[b + 9] == inner[l3 + 9]);
    assert(s[b + 12] == inner[l3 + 12] && s[b + 13] == inner[l3 + 13]);
    assert(s[b + 14] == inner[l3 + 14] && s[b + 15] == inner[l3 + 15]);
    assert(s[b + 16] == inner[l3 + 16] && s[b + 17] == inner[l3 + 17]);
    assert(s[b + 18] == inner[l3 + 18] && s[b + 19] == inner[l3 + 19]);
    assert(s[b + 20] == inner[l3 + 20] && s[b + 21] == inner[l3 + 21]);
    assert(s[b + 22] == inner[l3 + 22] && s[b + 23] == inner[l3 + 23]);
    assert(s[b + 24] == inner[l3 + 24] && s[b + 25] == inner[l3 + 25]);
    assert forall|k: int| 0 <= k < payload.len() implies s[b + 28 + k] == #[trigger] payload[k] by {
        assert(s[at + (l3 + 28 + k)] == inner[l3 + 28 + k]);
    }
}

/// Where the fields of a GUE frame over IPv4 stand: the outer packet with its addresses, ports
/// and time to live, the bytes 0, 4, 0, 0 behind its UDP header, and the inner packet with its
/// own addresses and ports.
pub proof fn law_gue_frame_bytes(
    src_mac: [u8; 6],
    dst_mac: [u8; 6],
    outer_src_ip: Ipv4Addr,
    outer_dst_ip: Ipv4Addr,
    outer_src_port: u16,
    outer_dst_port: u16,
    inner_src_ip: Ipv4Addr,
    inner_dst_ip: Ipv4Addr,
    inner_src_port: u16,
    inner_dst_port: u16,
    payload: Seq<u8>,
    ttl: u8,
)
    requires
        payload.len() <= 0xFFFF - 60,
    ensures
        ({
            let data = gue::gue_payload(
                inner_src_ip,
                inner_dst_ip,
                inner_src_port,
                inner_dst_port,
                payload,
            );
            let s = udp::udp4_frame(
                src_mac@,
                dst_mac@,
                outer_src_ip,
                outer_dst_ip,
                outer_src_port,
                outer_dst_port,
                data,
                ttl,
            );
            &&& s.len() == 74 + payload.len()
            &&& forall|k: int| 0 <= k < 6 ==> s[k] == #[trigger] dst_mac@[k]
            &&& forall|k: int| 0 <= k < 6 ==> s[6 + k] == #[trigger] src_mac@[k]
            &&& s[12] == 8 && s[13] == 0
            &&& datagram_stands_at(
                s,
                14,
                outer_src_ip,
                outer_dst_ip,
                outer_src_port,
                outer_dst_port,
                data,
                ttl,
            )
            &&& s[42] == 0 && s[43] == 4 && s[44] == 0 && s[45] == 0
            &&& datagram_stands_at(
                s,
                46,
                inner_src_ip,
                inner_dst_ip,
                inner_src_port,
                inner_dst_port,
                payload,
                64,
            )
        }),
{
    let data = gue::gue_payload(
        inner_src_ip,
        inner_dst_ip,
        inner_src_port,
        inner_dst_port,
        payload,
    );
    law_gue_payload_bytes(inner_src_ip, inner_dst_ip, inner_src_port, inner_dst_port, payload);
    let eth = udp::eth_header(dst_mac@, src_mac@, 0x0800);
    assert(eth.len() == 14);
    lemma_datagram_stands_at(
        eth,
        outer_src_ip,
        outer_dst_ip,
        outer_src_port,
        outer_dst_port,
        data,
        ttl,
    );
    assert(eth[12] == bytes::be16_bytes(0x0800)[0] && eth[13] == bytes::be16_bytes(0x0800)[1]);
    let s = udp::udp4_frame(
        src_mac@,
        dst_mac@,
        outer_src_ip,
        outer_dst_ip,
        outer_src_port,
        outer_dst_port,
        data,
        ttl,
    );
    assert(forall|k: int| 0 <= k < 14 ==> s[k] == #[trigger] eth[k]);
    assert forall|k: int| 0 <= k < data.len() implies s[42 + k] == #[trigger] data[k] by {
        assert(s[14 + 28 + k] == data[k]);
    }
    assert(s[42] == data[0] && s[43] == data[1] && s[44] == data[2] && s[45] == data[3]);
    lemma_inner_datagram(
        s,
        42,
        data,
        4,
        inner_src_ip,
        inner_dst_ip,
        inner_src_port,
        inner_dst_port,
        payload,
        64,
    );
}

/// A packet comes out of the tunnel exactly if the outer IPv4 header at `l3` has protocol 17 and
/// the UDP header behind it the port, and behind that stands a GUE header of version 0, without
/// the control flag, that announces IPv4 and is whole with its extensions, and then an IPv4
/// packet with a whole UDP datagram. That packet starts behind the extensions.
pub proof fn law_what_comes_out_of_a_tunnel(frame: Seq<u8>, l3: int, port: u16)
    requires
        0 <= l3,
        l3 + 20 <= frame.len(),
    ensures
        ({
            let start = l3 + frame[l3] % 16 * 4;
            let ext = frame[start + 8] % 32 * 4;
            let inner = start + 12 + ext;
            let udp = inner + frame[inner] % 16 * 4;
            let len = frame[udp + 4] * 256 + frame[udp + 5];
            let whole = {
                &&& frame[l3 + 9] == 17
                &&& frame[l3] % 16 >= 5
                &&& start + 8 <= frame.len()
                &&& frame[start + 2] * 256 + frame[start + 3] == port
                &&& start + 12 <= frame.len()
                &&& frame[start + 8] < 32
                &&& frame[start + 9] == 4
                &&& inner + 28 <= frame.len()
                &&& frame[inner] / 16 == 4
                &&& frame[inner] % 16 >= 5
                &&& frame[inner + 9] == 17
                &&& udp + 8 <= frame.len()
                &&& 8 <= len
                &&& udp + len <= frame.len()
            };
            gue::gue4_inner(frame, l3, port) == if whole {
                Some(inner)
            } else {
                None
            }
        }),
{
    let start = l3 + frame[l3] % 16 * 4;
    let behind = frame.subrange(start + 8, frame.len() as int);
    if start + 12 <= frame.len() {
        assert(behind[0] == frame[start + 8]);
        assert(behind[1] == frame[start + 9]);
    }
}

/// What is read out of a tunnel: the addresses, ports and payload of the inner packet, and the
/// source of the outer one.
pub proof fn law_what_a_tunnelled_packet_says(
    frame: Seq<u8>,
    l3: int,
    port: u16,
    inner: int,
    p: GueDecapResult<'_>,
)
    requires
        0 <= l3,
        gue::gue4_inner(frame, l3, port) == Some(inner),
        p.describes(frame, l3, port),
    ensures
        ({
            let udp = inner + frame[inner] % 16 * 4;
            let len = frame[udp + 4] * 256 + frame[udp + 5];
            &&& p.inner_src_ip.a == frame[inner + 12] && p.inner_src_ip.b == frame[inner + 13]
                && p.inner_src_ip.c == frame[inner + 14] && p.inner_src_ip.d == frame[inner + 15]
            &&& p.inner_dst_ip.a == frame[inner + 16] && p.inner_dst_ip.b == frame[inner + 17]
                && p.inner_dst_ip.c == frame[inner + 18] && p.inner_dst_ip.d == frame[inner + 19]
            &&& p.inner_src_port == frame[udp] * 256 + frame[udp + 1]
            &&& p.inner_dst_port == frame[udp + 2] * 256 + frame[udp + 3]
            &&& p.payload@ == frame.subrange(udp + 8, udp + len)
            &&& p.outer_src_ip.a == frame[l3 + 12] && p.outer_src_ip.b == frame[l3 + 13]
                && p.outer_src_ip.c == frame[l3 + 14] && p.outer_src_ip.d == frame[l3 + 15]
            &&& gue::gue_parse(frame.skip(l3 + frame[l3] % 16 * 4 + 8)) == Some(p.gue_header)
        }),
{
    let start = l3 + frame[l3] % 16 * 4;
    assert(frame.skip(start + 8) =~= frame.subrange(start + 8, frame.len() as int));
}

// ---------------------------------------------------------------------------
// ARP
// ---------------------------------------------------------------------------

/// A frame is an ARP packet exactly if it has 42 bytes, the EtherType 0x0806, and behind it the
/// hardware type 1, the protocol type 0x0800 and the address lengths 6 and 4. Then stand the
/// operation, the sender with both addresses, and the target with both addresses.
pub proof fn law_what_is_an_arp_packet(frame: Seq<u8>)
    ensures
        arp::arp_parse(frame) is Some <==> {
            &&& frame.len() >= 42
            &&& frame[12] == 8 && frame[13] == 6
            &&& frame[14] == 0 && frame[15] == 1
            &&& frame[16] == 8 && frame[17] == 0
            &&& frame[18] == 6 && frame[19] == 4
        },
        arp::arp_parse(frame) matches Some(v) ==> {
            &&& v.operation == frame[20] * 256 + frame[21]
            &&& v.sender_mac == frame.subrange(22, 28)
            &&& v.sender_ip == (Ipv4Addr { a: frame[28], b: frame[29], c: frame[30], d: frame[31] })
            &&& v.target_mac == frame.subrange(32, 38)
            &&& v.target_ip == (Ipv4Addr { a: frame[38], b: frame[39], c: frame[40], d: frame[41] })
        },
{
}

/// Where the fields of an ARP frame stand.
proof fn lemma_arp_frame_bytes(src_mac: [u8; 6], dst_mac: [u8; 6], v: arp::ArpView)
    requires
        v.sender_mac.len() == 6,
        v.target_mac.len() == 6,
    ensures
        ({
            let s = arp::arp_frame(src_mac@, dst_mac@, v);
            &&& s.len() == 42
            &&& s.subrange(0, 6) == dst_mac@
            &&& s.subrange(6, 12) == src_mac@
            &&& s[12] == 8 && s[13] == 6
            &&& s[14] == 0 && s[15] == 1
            &&& s[16] == 8 && s[17] == 0
            &&& s[18] == 6 && s[19] == 4
            &&& s[20] * 256 + s[21] == v.operation
            &&& s.subrange(22, 28) == v.sender_mac
            &&& s.subrange(32, 38) == v.target_mac
            &&& s[28] == v.sender_ip.a && s[29] == v.sender_ip.b && s[30] == v.sender_ip.c && s[31]
                == v.sender_ip.d
            &&& s[38] == v.target_ip.a && s[39] == v.target_ip.b && s[40] == v.target_ip.c && s[41]
                == v.target_ip.d
        }),
{
    let s = arp::arp_frame(src_mac@, dst_mac@, v);
    arp::law_arp_round_trip(src_mac, dst_mac, v);
    law_what_is_an_arp_packet(s);
    assert(s.subrange(0, 6) =~= dst_mac@);
    assert(s.subrange(6, 12) =~= src_mac@);
}

/// Where the fields of an ARP request stand: it goes to the broadcast address, with operation 1,
/// the addresses of the asker, a target Ethernet address of zeros, and the address in question.
pub proof fn law_arp_request_bytes(mac: [u8; 6], ip: Ipv4Addr, target: Ipv4Addr)
    ensures
        ({
            let s = arp::request_frame(mac@, ip, target);
            &&& s.len() == 42
            &&& forall|k: int| 0 <= k < 6 ==> #[trigger] s[k] == 0xFF
            &&& s.subrange(6, 12) == mac@
            &&& s[12] == 8 && s[13] == 6
            &&& s[14] == 0 && s[15] == 1 && s[16] == 8 && s[17] == 0 && s[18] == 6 && s[19] == 4
            &&& s[20] == 0 && s[21] == 1
            &&& s.subrange(22, 28) == mac@
            &&& s[28] == ip.a && s[29] == ip.b && s[30] == ip.c && s[31] == ip.d
            &&& forall|k: int| 32 <= k < 38 ==> #[trigger] s[k] == 0
            &&& s[38] == target.a && s[39] == target.b && s[40] == target.c && s[41] == target.d
        }),
{
    let all = [0xFFu8, 0xFF, 0xFF, 0xFF, 0xFF, 0xFF];
    let v = arp::request_view(mac@, ip, target);
    assert(all@ =~= addr::broadcast_mac());
    lemma_arp_frame_bytes(mac, all, v);
    lemma_six_bytes(arp::arp_frame(mac@, all@, v), 0, 0xFF);
    lemma_six_bytes(arp::arp_frame(mac@, all@, v), 32, 0);
}

/// Six equal bytes at an offset.
proof fn lemma_six_bytes(s: Seq<u8>, from: int, b: u8)
    requires
        0 <= from,
        from + 6 <= s.len(),
        s.subrange(from, from + 6) == seq![b, b, b, b, b, b],
    ensures
        forall|k: int| from <= k < from + 6 ==> #[trigger] s[k] == b,
{
    assert forall|k: int| from <= k < from + 6 implies #[trigger] s[k] == b by {
        assert(s.subrange(from, from + 6)[k - from] == s[k]);
    }
}

/// Where the fields of an ARP reply stand: it goes to the asker, with operation 2, the addresses
/// of the one asked for as sender and those of the asker as target.
pub proof fn law_arp_reply_bytes(
    mac: [u8; 6],
    ip: Ipv4Addr,
    asker_mac: [u8; 6],
    asker_ip: Ipv4Addr,
)
    ensures
        ({
            let s = arp::reply_frame(mac@, ip, asker_mac@, asker_ip);
            &&& s.len() == 42
            &&& s.subrange(0, 6) == asker_mac@
            &&& s.subrange(6, 12) == mac@
            &&& s[12] == 8 && s[13] == 6
            &&& s[14] == 0 && s[15] == 1 && s[16] == 8 && s[17] == 0 && s[18] == 6 && s[19] == 4
            &&& s[20] == 0 && s[21] == 2
            &&& s.subrange(22, 28) == mac@
            &&& s[28] == ip.a && s[29] == ip.b && s[30] == ip.c && s[31] == ip.d
            &&& s.subrange(32, 38) == asker_mac@
            &&& s[38] == asker_ip.a && s[39] == asker_ip.b && s[40] == asker_ip.c && s[41]
                == asker_ip.d
        }),
{
    lemma_arp_frame_bytes(mac, asker_mac, arp::reply_view(mac@, ip, asker_mac@, asker_ip));
}

// ---------------------------------------------------------------------------
// ICMP
// ---------------------------------------------------------------------------

/// A frame is an ICMP message exactly if it has the EtherType 0x0800, behind the tag if it has
/// one, a header of version 4 with at least five words and protocol 1, and eight bytes behind
/// that header. These hold type, code, checksum, identifier and sequence number; what follows is
/// the payload.
pub proof fn law_what_is_a_control_message(frame: Seq<u8>)
    requires
        frame.len() >= 14,
    ensures
        ({
            let l3 = if frame[12] == 0x81 && frame[13] == 0 {
                18int
            } else {
                14int
            };
            let start = l3 + frame[l3] % 16 * 4;
            &&& icmp::icmp_parse(frame) is Some <==> {
                &&& frame.len() >= l3 + 28
                &&& frame[l3 - 2] == 8 && frame[l3 - 1] == 0
                &&& frame[l3] / 16 == 4 && frame[l3] % 16 >= 5
                &&& frame[l3 + 9] == 1
                &&& start + 8 <= frame.len()
            }
            &&& icmp::icmp_parse(frame) matches Some(v) ==> {
                &&& v.dst_mac == frame.subrange(0, 6)
                &&& v.src_mac == frame.subrange(6, 12)
                &&& v.src_ip.a == frame[l3 + 12] && v.src_ip.b == frame[l3 + 13] && v.src_ip.c
                    == frame[l3 + 14] && v.src_ip.d == frame[l3 + 15]
                &&& v.dst_ip.a == frame[l3 + 16] && v.dst_ip.b == frame[l3 + 17] && v.dst_ip.c
                    == frame[l3 + 18] && v.dst_ip.d == frame[l3 + 19]
                &&& v.ttl == frame[l3 + 8]
                &&& v.icmp_type == frame[start]
                &&& v.icmp_code == frame[start + 1]
                &&& v.checksum == frame[start + 2] * 256 + frame[start + 3]
                &&& v.identifier == frame[start + 4] * 256 + frame[start + 5]
                &&& v.sequence == frame[start + 6] * 256 + frame[start + 7]
                &&& v.payload == frame.skip(start + 8)
            }
        }),
{
}

/// A frame reports an error exactly if it is an ICMP message of type 3, 5, 11 or 12 with room for
/// 28 bytes of the datagram in question, that datagram is IPv4 with at least five words of header
/// and protocol 17, and its ports are there. What is reported: type and code, the source of the
/// message, the addresses and ports of the datagram, and for type 3 and code 4 the MTU.
pub proof fn law_what_reports_an_error(frame: Seq<u8>)
    requires
        frame.len() >= 14,
    ensures
        ({
            let l3 = if frame[12] == 0x81 && frame[13] == 0 {
                18int
            } else {
                14int
            };
            let start = l3 + frame[l3] % 16 * 4;
            let orig = start + 8;
            let ports = orig + frame[orig] % 16 * 4;
            let kind = frame[start];
            &&& icmp::icmp_error_of(frame) is Some <==> {
                &&& frame.len() >= l3 + 56
                &&& frame[l3 - 2] == 8 && frame[l3 - 1] == 0
                &&& frame[l3] / 16 == 4 && frame[l3] % 16 >= 5
                &&& frame[l3 + 9] == 1
                &&& start + 36 <= frame.len()
                &&& kind == 3 || kind == 5 || kind == 11 || kind == 12
                &&& frame[orig] / 16 == 4 && frame[orig] % 16 >= 5
                &&& frame[orig + 9] == 17
                &&& ports + 4 <= frame.len()
            }
            &&& icmp::icmp_error_of(frame) matches Some(info) ==> {
                &&& info.icmp_type == kind
                &&& info.icmp_code == frame[start + 1]
                &&& info.error_source == (Ipv4Addr {
                    a: frame[l3 + 12],
                    b: frame[l3 + 13],
                    c: frame[l3 + 14],
                    d: frame[l3 + 15],
                })
                &&& info.original_src_ip == (Ipv4Addr {
                    a: frame[orig + 12],
                    b: frame[orig + 13],
                    c: frame[orig + 14],
                    d: frame[orig + 15],
                })
                &&& info.original_dst_ip == (Ipv4Addr {
                    a: frame[orig + 16],
                    b: frame[orig + 17],
                    c: frame[orig + 18],
                    d: frame[orig + 19],
                })
                &&& info.original_src_port == frame[ports] * 256 + frame[ports + 1]
                &&& info.original_dst_port == frame[ports + 2] * 256 + frame[ports + 3]
                &&& info.next_hop_mtu == if kind == 3 && frame[start + 1] == 4 {
                    frame[start + 6] * 256 + frame[start + 7]
                } else {
                    0
                }
            }
        }),
{
}

/// Where the fields of an ICMP frame stand.
pub proof fn law_control_frame_bytes(v: icmp::IcmpView)
    requires
        v.src_mac.len() == 6,
        v.dst_mac.len() == 6,
        28 + v.payload.len() <= 0xFFFF,
    ensures
        ({
            let s = icmp::icmp_frame(v);
            &&& s.len() == 42 + v.payload.len()
            &&& s.subrange(0, 6) == v.dst_mac
            &&& s.subrange(6, 12) == v.src_mac
            &&& s[12] == 8 && s[13] == 0
            &&& s[14] == 0x45 && s[15] == 0 && s[16] * 256 + s[17] == 28 + v.payload.len()
            &&& s[18] == 0 && s[19] == 0 && s[20] == 0x40 && s[21] == 0
            &&& s[22] == v.ttl && s[23] == 1
            &&& s[26] == v.src_ip.a && s[27] == v.src_ip.b && s[28] == v.src_ip.c && s[29]
                == v.src_ip.d
            &&& s[30] == v.dst_ip.a && s[31] == v.dst_ip.b && s[32] == v.dst_ip.c && s[33]
                == v.dst_ip.d
            &&& s[34] == v.icmp_type && s[35] == v.icmp_code
            &&& s[38] * 256 + s[39] == v.identifier
            &&& s[40] * 256 + s[41] == v.sequence
            &&& s.skip(42) == v.payload
        }),
{
    let total_len = icmp::total_len_of(v);
    let eth = udp::eth_header(v.dst_mac, v.src_mac, 0x0800);
    let h = udp::ipv4_header(total_len, udp::dont_fragment(), v.ttl, 1, v.src_ip, v.dst_ip);
    let m = icmp::icmp_message(v);
    let s = eth + (h + m);
    assert(s == icmp::icmp_frame(v));
    lemma_ipv4_header_bytes(total_len, udp::dont_fragment(), v.ttl, 1, v.src_ip, v.dst_ip);
    assert(eth.len() == 14);
    assert(eth[12] == bytes::be16_bytes(0x0800)[0] && eth[13] == bytes::be16_bytes(0x0800)[1]);
    assert(s.subrange(0, 6) =~= v.dst_mac);
    assert(s.subrange(6, 12) =~= v.src_mac);
    lemma_echo_message_bytes(v);
    assert(forall|k: int| 0 <= k < 20 ==> #[trigger] h[k] == s[14 + k]);
    assert(forall|k: int| 0 <= k < m.len() ==> #[trigger] m[k] == s[34 + k]);
    lemma_header_at_fourteen(s, h);
    assert(s[34] == m[0] && s[35] == m[1] && s[38] == m[4] && s[39] == m[5]);
    assert(s[40] == m[6] && s[41] == m[7]);
    assert(s.skip(42) =~= v.payload) by {
        assert forall|k: int| 0 <= k < v.payload.len() implies #[trigger] s[42 + k] == v.payload[k] by {
            assert(m[8 + k] == v.payload[k]);
            assert(m[8 + k] == s[34 + (8 + k)]);
        }
    }
}

/// A header that stands behind an Ethernet header.
proof fn lemma_header_at_fourteen(s: Seq<u8>, h: Seq<u8>)
    requires
        h.len() == 20,
        forall|k: int| 0 <= k < 20 ==> #[trigger] h[k] == s[14 + k],
    ensures
        h[0] == s[14] && h[1] == s[15] && h[2] == s[16] && h[3] == s[17],
        h[4] == s[18] && h[5] == s[19] && h[6] == s[20] && h[7] == s[21],
        h[8] == s[22] && h[9] == s[23],
        h[12] == s[26] && h[13] == s[27] && h[14] == s[28] && h[15] == s[29],
        h[16] == s[30] && h[17] == s[31] && h[18] == s[32] && h[19] == s[33],
{
}

/// Where the fields of an echo message stand.
proof fn lemma_echo_message_bytes(v: icmp::IcmpView)
    ensures
        ({
            let m = icmp::icmp_message(v);
            &&& m.len() == 8 + v.payload.len()
            &&& m[0] == v.icmp_type && m[1] == v.icmp_code
            &&& m[4] * 256 + m[5] == v.identifier
            &&& m[6] * 256 + m[7] == v.sequence
            &&& forall|k: int| 0 <= k < v.payload.len() ==> m[8 + k] == #[trigger] v.payload[k]
        }),
{
    let m = icmp::icmp_message(v);
    assert(m[4] == bytes::be16_bytes(v.identifier)[0] && m[5] == bytes::be16_bytes(v.identifier)[1]);
    assert(m[6] == bytes::be16_bytes(v.sequence)[0] && m[7] == bytes::be16_bytes(v.sequence)[1]);
}

// ---------------------------------------------------------------------------
// Tags
// ---------------------------------------------------------------------------

/// Where the network-layer header of a frame starts: behind 14 bytes, or behind 18 if the bytes at
/// 12 are 0x81 and 0x00. The EtherType is in the two bytes before it. The tag is the one in the
/// frame, and without one that which the NIC stripped off. A frame that is too short has none.
pub proof fn law_where_the_header_starts(frame: Seq<u8>, hw_vlan_tci: Option<u16>)
    ensures
        ({
            let tagged = frame[12] == 0x81 && frame[13] == 0;
            let l3 = if tagged {
                18int
            } else {
                14int
            };
            &&& vlan::layout_of(frame, hw_vlan_tci) is Some <==> frame.len() >= 14 && frame.len()
                >= l3
            &&& vlan::layout_of(frame, hw_vlan_tci) matches Some(layout) ==> {
                &&& layout.l3_offset == l3
                &&& layout.ethertype == frame[l3 - 2] * 256 + frame[l3 - 1]
                &&& tagged ==> layout.vlan_tci == Some((frame[14] * 256 + frame[15]) as u16)
                &&& !tagged ==> layout.vlan_tci == hw_vlan_tci
            }
        }),
{
}

/// Taking the tag out of a tagged frame leaves the twelve bytes before it and everything behind
/// it; an untagged frame stays.
pub proof fn law_untagged_bytes(frame: Seq<u8>, k: int)
    requires
        frame.len() >= 14,
    ensures
        frame.len() >= 18 && frame[12] == 0x81 && frame[13] == 0 ==> {
            &&& vlan::untagged(frame).len() == frame.len() - 4
            &&& 0 <= k < 12 ==> vlan::untagged(frame)[k] == frame[k]
            &&& 12 <= k < frame.len() - 4 ==> vlan::untagged(frame)[k] == frame[k + 4]
        },
        !(frame[12] == 0x81 && frame[13] == 0) ==> vlan::untagged(frame) == frame,
{
}

/// What a tag control word says: the VLAN identifier in its lower twelve bits, the drop indicator
/// in the next, and the priority in the upper three.
pub proof fn law_tag_fields(tci: u16)
    ensures
        vlan::tci_vid(tci) == tci % 4096,
        vlan::tci_dei(tci) <==> tci / 4096 % 2 == 1,
        vlan::tci_priority(tci) == tci / 8192,
        tci == vlan::tci_priority(tci) * 8192 + (if vlan::tci_dei(tci) {
            4096int
        } else {
            0
        }) + vlan::tci_vid(tci),
{
}

// ---------------------------------------------------------------------------
// More checksums
// ---------------------------------------------------------------------------

/// The UDP checksum is not zero, and completes both addresses, 17, the length, the header without
/// its checksum, and the payload to a multiple of 65535.
pub proof fn law_udp_checksum_completes(
    src: Seq<u8>,
    dst: Seq<u8>,
    header: Seq<u8>,
    payload: Seq<u8>,
)
    requires
        src.len() == 4,
        dst.len() == 4,
        header.len() == 8,
        payload.len() <= 0xFFFF,
    ensures
        ({
            let cksum = udp::udp_cksum(src, dst, header, payload);
            let sum = checksum::word_sum(src + dst) + 17 + 8 + payload.len() + checksum::word_sum(
                header.take(6),
            ) + checksum::word_sum(payload);
            &&& cksum > 0
            &&& (sum + cksum) % 65535 == 0
        }),
{
    let head = header.take(6);
    let empty = Seq::<u8>::empty();
    checksum::lemma_word_sum_concat(src, dst);
    assert(checksum::blanked(header, 6) =~= head + bytes::be16_bytes(0) + empty);
    udp::lemma_word_sum_field(head, 0, empty);
    checksum::lemma_word_sum_bounds(src);
    checksum::lemma_word_sum_bounds(dst);
    checksum::lemma_word_sum_bounds(head);
    checksum::lemma_word_sum_bounds(payload);
    let n = udp::udp_sum(src, dst, header, payload);
    checksum::lemma_complement_nonzero_missing(n);
    lemma_missing_added(n);
}

/// A number and what is missing to the next multiple of 65535.
pub proof fn lemma_missing_added(n: int)
    requires
        0 <= n,
    ensures
        (n + (65535 - n % 65535)) % 65535 == 0,
{
    let q = n / 65535;
    assert(n + (65535 - n % 65535) == (q + 1) * 65535);
    vstd::arithmetic::div_mod::lemma_mod_multiples_basic(q + 1, 65535);
}

/// The checksum of an ICMP message completes it to a multiple of 65535.
pub proof fn law_control_checksum_completes(message: Seq<u8>)
    requires
        0 < checksum::word_sum(message) < 0x1_0000_0000,
    ensures
        (checksum::word_sum(message) + icmp::icmp_cksum(message)) % 65535 == 0,
        icmp::icmp_cksum(message) < 65535,
{
    law_header_checksum_completes(message);
}

/// The pseudo-header sum is not zero, and is that of both addresses, of 17 and of the length, up
/// to multiples of 65535.
pub proof fn law_pseudo_header_sum(src: Seq<u8>, dst: Seq<u8>, len: u16)
    requires
        src.len() == 4,
        dst.len() == 4,
    ensures
        udp::pseudo_cksum(src, dst, len) > 0,
        (checksum::word_sum(src + dst) + 17 + len - udp::pseudo_cksum(src, dst, len)) % 65535 == 0,
{
    checksum::lemma_word_sum_concat(src, dst);
    checksum::lemma_word_sum_bounds(src);
    checksum::lemma_word_sum_bounds(dst);
    let n = checksum::word_sum(src) + checksum::word_sum(dst) + 17 + len;
    let q = (n - 1) / 65535;
    assert(n - checksum::folded(checksum::wrapped(n)) == q * 65535);
    vstd::arithmetic::div_mod::lemma_mod_multiples_basic(q, 65535);
}

// ---------------------------------------------------------------------------
// GUE headers
// ---------------------------------------------------------------------------

/// The four bytes of a GUE header, and which bytes are one: the version in the upper two bits of
/// the first, then the control flag and the length of the extensions in words; the protocol; and
/// two bytes of flags. It must be of version 0 and whole with its extensions.
pub proof fn law_gue_header_bytes(header: GueHeader, data: Seq<u8>)
    requires
        header.version < 4,
        header.hlen < 32,
    ensures
        ({
            let b = header.bytes();
            &&& b.len() == 4
            &&& b[0] / 64 == header.version
            &&& b[0] / 32 % 2 == 1 <==> header.c_flag
            &&& b[0] % 32 == header.hlen
            &&& b[1] == header.proto
            &&& b[2] * 256 + b[3] == header.flags
        }),
        gue::gue_parse(data) is Some <==> data.len() >= 4 && data[0] < 64 && data.len() >= 4
            + data[0] % 32 * 4,
        gue::gue_parse(data) matches Some(h) ==> {
            &&& h.version == 0
            &&& h.c_flag <==> data[0] >= 32
            &&& h.hlen == data[0] % 32
            &&& h.proto == data[1]
            &&& h.flags == data[2] * 256 + data[3]
        },
{
    let c: int = if header.c_flag {
        32
    } else {
        0
    };
    let b = header.bytes();
    assert(b[0] == header.version * 64 + c + header.hlen);
}

/// An echo request is a message of type 8 and a reply one of type 0, both with code 0 and time to
/// live 64, from the source to the destination, with the identifier, the sequence number and the
/// payload.
pub proof fn law_echo_frame_bytes(
    src_mac: Seq<u8>,
    dst_mac: Seq<u8>,
    src: Ipv4Addr,
    dst: Ipv4Addr,
    identifier: u16,
    sequence: u16,
    payload: Seq<u8>,
    reply: bool,
)
    requires
        src_mac.len() == 6,
        dst_mac.len() == 6,
        28 + payload.len() <= 0xFFFF,
    ensures
        ({
            let kind = if reply {
                icmp::ICMP_TYPE_ECHO_REPLY
            } else {
                icmp::ICMP_TYPE_ECHO_REQUEST
            };
            let s = icmp::icmp_frame(
                icmp::echo_view(kind, src_mac, dst_mac, src, dst, identifier, sequence, payload),
            );
            &&& s.len() == 42 + payload.len()
            &&& s.subrange(0, 6) == dst_mac
            &&& s.subrange(6, 12) == src_mac
            &&& s[22] == 64 && s[23] == 1
            &&& s[26] == src.a && s[27] == src.b && s[28] == src.c && s[29] == src.d
            &&& s[30] == dst.a && s[31] == dst.b && s[32] == dst.c && s[33] == dst.d
            &&& s[34] == (if reply {
                0
            } else {
                8int
            })
            &&& s[35] == 0
            &&& s[38] * 256 + s[39] == identifier
            &&& s[40] * 256 + s[41] == sequence
            &&& s.skip(42) == payload
        }),
{
    let kind = if reply {
        icmp::ICMP_TYPE_ECHO_REPLY
    } else {
        icmp::ICMP_TYPE_ECHO_REQUEST
    };
    law_control_frame_bytes(
        icmp::echo_view(kind, src_mac, dst_mac, src, dst, identifier, sequence, payload),
    );
}

} // verus!
