//! Neighbor Discovery: solicitations and advertisements, the neighbor cache, and the
//! handler that answers for local addresses.
//!
//! Time is a number of nanoseconds on a clock of the caller's choice that never
//! runs backwards.

use std::collections::HashMap;

use vstd::prelude::*;

use crate::addr;
use crate::addr::{read_ipv6, Ipv6Addr};
use crate::arp;
use crate::bytes;
use crate::bytes::{high_nibble, push_be16, push_be32, push_bytes, read_be16, read_be32, read_mac};
use crate::checksum;
use crate::icmpv6;
use crate::icmpv6::{contains_ip6, icmpv6_checksum};
use crate::ipv6;
use crate::ipv6::{push_ipv6_header, ETH_TYPE_IPV6, IP_PROTO_ICMPV6};
use crate::ipv6_addr;
use crate::ipv6_addr::{ipv6_multicast_mac, solicited_node_multicast_addr};
use crate::parse;
use crate::parse::{
    chars_of, parse_ipv6_chars, parse_mac_chars, parse_number, split_text, split_words,
};
use crate::text::string_of;
use crate::udp;
use crate::udp::push_eth_header;

verus! {

pub const ICMPV6_TYPE_NEIGHBOR_SOLICITATION: u8 = 135;

pub const ICMPV6_TYPE_NEIGHBOR_ADVERTISEMENT: u8 = 136;

/// Option with the link-layer address of the sender.
pub const NDP_OPT_SOURCE_LINK_LAYER: u8 = 1;

/// Option with the link-layer address of the target.
pub const NDP_OPT_TARGET_LINK_LAYER: u8 = 2;

/// Type, code and checksum.
pub const NDP_ICMPV6_HEADER_LEN: usize = 4;

/// Target address.
pub const NDP_TARGET_LEN: usize = 16;

/// Header, flags and target.
pub const NDP_MIN_BODY_LEN: usize = 24;

/// Link-layer address option.
pub const NDP_OPT_LINK_LAYER_LEN: usize = 8;

/// A whole solicitation frame.
pub const NDP_NS_FRAME_LEN: usize = 86;

/// A whole advertisement frame.
pub const NDP_NA_FRAME_LEN: usize = 86;

/// Nanoseconds that a cache entry lives: five minutes.
pub const NDP_CACHE_TTL: u64 = 300_000_000_000;

/// Hop limit of every Neighbor Discovery message.
pub const NDP_HOP_LIMIT: u8 = 255;

/// The sender is a router.
pub const NA_FLAG_ROUTER: u32 = 0x8000_0000;

/// The advertisement answers a solicitation.
pub const NA_FLAG_SOLICITED: u32 = 0x4000_0000;

/// The advertisement replaces an entry of the cache.
pub const NA_FLAG_OVERRIDE: u32 = 0x2000_0000;

// ---------------------------------------------------------------------------
// Packets
// ---------------------------------------------------------------------------

/// A solicitation or an advertisement.
#[derive(Debug, Clone, PartialEq, Eq)]
pub struct NdpPacket {
    pub src_mac: [u8; 6],
    pub dst_mac: [u8; 6],
    pub src_ip: Ipv6Addr,
    pub dst_ip: Ipv6Addr,
    pub icmp_type: u8,
    /// Flags of an advertisement, 0 for a solicitation.
    pub flags: u32,
    pub target: Ipv6Addr,
    /// The link-layer address option: of the sender in a solicitation, of the target
    /// in an advertisement.
    pub link_layer_addr: Option<[u8; 6]>,
}

/// What a solicitation or an advertisement says.
pub struct NdpView {
    pub src_mac: Seq<u8>,
    pub dst_mac: Seq<u8>,
    pub src_ip: Ipv6Addr,
    pub dst_ip: Ipv6Addr,
    pub icmp_type: u8,
    pub flags: u32,
    pub target: Ipv6Addr,
    pub link_layer_addr: Option<Seq<u8>>,
}

/// The bytes of an optional Ethernet address.
pub open spec fn mac_view(mac: Option<[u8; 6]>) -> Option<Seq<u8>> {
    match mac {
        Some(m) => Some(m@),
        None => None,
    }
}

impl View for NdpPacket {
    type V = NdpView;

    open spec fn view(&self) -> NdpView {
        NdpView {
            src_mac: self.src_mac@,
            dst_mac: self.dst_mac@,
            src_ip: self.src_ip,
            dst_ip: self.dst_ip,
            icmp_type: self.icmp_type,
            flags: self.flags,
            target: self.target,
            link_layer_addr: mac_view(self.link_layer_addr),
        }
    }
}

/// The type of the link-layer address option in a message of a type.
pub open spec fn option_type(icmp_type: u8) -> u8 {
    if icmp_type == ICMPV6_TYPE_NEIGHBOR_SOLICITATION {
        NDP_OPT_SOURCE_LINK_LAYER
    } else {
        NDP_OPT_TARGET_LINK_LAYER
    }
}

/// The address in the first option of type `kind` from `at` on. Options are read until
/// one has no length or does not fit.
pub open spec fn find_option(frame: Seq<u8>, at: int, kind: u8) -> Option<Seq<u8>>
    decreases frame.len() - at,
{
    if at + 2 > frame.len() {
        None
    } else {
        let len = frame[at + 1] * 8;
        if len == 0 || at + len > frame.len() {
            None
        } else if frame[at] == kind {
            Some(frame.subrange(at + 2, at + 8))
        } else {
            find_option(frame, at + len, kind)
        }
    }
}

/// Whether an untagged frame holds a solicitation or an advertisement: an ICMPv6
/// message straight behind the IPv6 header, with hop limit 255 and code 0.
pub open spec fn is_ndp(frame: Seq<u8>) -> bool {
    &&& frame.len() >= 78
    &&& bytes::be16_at(frame, 12) == ETH_TYPE_IPV6
    &&& frame[14] / 16 == 6
    &&& frame[20] == IP_PROTO_ICMPV6
    &&& frame[21] == NDP_HOP_LIMIT
    &&& frame[54] == ICMPV6_TYPE_NEIGHBOR_SOLICITATION || frame[54]
        == ICMPV6_TYPE_NEIGHBOR_ADVERTISEMENT
    &&& frame[55] == 0
}

/// What a solicitation or an advertisement says, `None` for other frames.
pub open spec fn ndp_parse(frame: Seq<u8>) -> Option<NdpView> {
    if is_ndp(frame) {
        Some(
            NdpView {
                src_mac: frame.subrange(6, 12),
                dst_mac: frame.subrange(0, 6),
                src_ip: addr::ipv6_at(frame, 22),
                dst_ip: addr::ipv6_at(frame, 38),
                icmp_type: frame[54],
                flags: if frame[54] == ICMPV6_TYPE_NEIGHBOR_ADVERTISEMENT {
                    bytes::be32_at(frame, 58)
                } else {
                    0
                },
                target: addr::ipv6_at(frame, 62),
                link_layer_addr: find_option(frame, 78, option_type(frame[54])),
            },
        )
    } else {
        None
    }
}

/// Finds the link-layer address option.
fn parse_ndp_ll_option(frame: &[u8], options_start: usize, kind: u8) -> (r: Option<[u8; 6]>)
    requires
        options_start <= frame@.len(),
    ensures
        mac_view(r) == find_option(frame@, options_start as int, kind),
{
    let end = frame.len();
    let mut at: usize = options_start;
    while end - at >= 2
        invariant
            end == frame@.len(),
            at <= end,
            find_option(frame@, at as int, kind) == find_option(
                frame@,
                options_start as int,
                kind,
            ),
        decreases end - at,
    {
        let len: usize = frame[at + 1] as usize * 8;
        if len == 0 || len > end - at {
            return None;
        }
        if frame[at] == kind {
            let mac = read_mac(frame, at + 2);
            return Some(mac);
        }
        at = at + len;
    }
    None
}

/// Parses a solicitation or an advertisement.
pub fn parse_ndp_packet(frame: &[u8]) -> (r: Option<NdpPacket>)
    ensures
        match r {
            Some(p) => ndp_parse(frame@) == Some(p@),
            None => ndp_parse(frame@) is None,
        },
{
    if frame.len() < 78 {
        return None;
    }
    if read_be16(frame, 12) != ETH_TYPE_IPV6 {
        return None;
    }
    if high_nibble(frame[14]) != 6 {
        return None;
    }
    if frame[20] != IP_PROTO_ICMPV6 || frame[21] != NDP_HOP_LIMIT {
        return None;
    }
    let icmp_type = frame[54];
    if icmp_type != ICMPV6_TYPE_NEIGHBOR_SOLICITATION && icmp_type
        != ICMPV6_TYPE_NEIGHBOR_ADVERTISEMENT {
        return None;
    }
    if frame[55] != 0 {
        return None;
    }
    let solicitation = icmp_type == ICMPV6_TYPE_NEIGHBOR_SOLICITATION;
    let kind = if solicitation {
        NDP_OPT_SOURCE_LINK_LAYER
    } else {
        NDP_OPT_TARGET_LINK_LAYER
    };
    let flags = if solicitation {
        0
    } else {
        read_be32(frame, 58)
    };
    Some(
        NdpPacket {
            src_mac: read_mac(frame, 6),
            dst_mac: read_mac(frame, 0),
            src_ip: read_ipv6(frame, 22),
            dst_ip: read_ipv6(frame, 38),
            icmp_type,
            flags,
            target: read_ipv6(frame, 62),
            link_layer_addr: parse_ndp_ll_option(frame, 78, kind),
        },
    )
}

/// A message with a link-layer address option and the given checksum field.
pub open spec fn ndp_message_with(kind: u8, cksum: u16, flags: u32, target: Ipv6Addr, mac: Seq<u8>) -> Seq<
    u8,
> {
    seq![kind, 0u8] + bytes::be16_bytes(cksum) + (bytes::be32_bytes(flags) + target.bytes() + (seq![
        option_type(kind),
        1u8,
    ] + mac))
}

/// The checksum that a message is sent with.
pub open spec fn ndp_cksum(
    src_ip: Ipv6Addr,
    dst_ip: Ipv6Addr,
    kind: u8,
    flags: u32,
    target: Ipv6Addr,
    mac: Seq<u8>,
) -> u16 {
    icmpv6::icmpv6_cksum(src_ip, dst_ip, ndp_message_with(kind, 0, flags, target, mac))
}

/// A message with its checksum.
pub open spec fn ndp_message(
    src_ip: Ipv6Addr,
    dst_ip: Ipv6Addr,
    kind: u8,
    flags: u32,
    target: Ipv6Addr,
    mac: Seq<u8>,
) -> Seq<u8> {
    ndp_message_with(kind, ndp_cksum(src_ip, dst_ip, kind, flags, target, mac), flags, target, mac)
}

/// The frame of a message, sent from `mac`.
pub open spec fn ndp_frame(
    dst_mac: Seq<u8>,
    src_ip: Ipv6Addr,
    dst_ip: Ipv6Addr,
    kind: u8,
    flags: u32,
    target: Ipv6Addr,
    mac: Seq<u8>,
) -> Seq<u8> {
    udp::eth_header(dst_mac, mac, ETH_TYPE_IPV6) + (ipv6::ipv6_header(
        32,
        IP_PROTO_ICMPV6,
        NDP_HOP_LIMIT,
        src_ip,
        dst_ip,
    ) + ndp_message(src_ip, dst_ip, kind, flags, target, mac))
}

/// A solicitation for the link-layer address of `target`, sent to its solicited-node
/// multicast group.
pub open spec fn solicitation_frame(src_mac: Seq<u8>, src_ip: Ipv6Addr, target: Ipv6Addr) -> Seq<u8> {
    ndp_frame(
        ipv6_addr::multicast_mac(ipv6_addr::solicited_node(target)),
        src_ip,
        ipv6_addr::solicited_node(target),
        ICMPV6_TYPE_NEIGHBOR_SOLICITATION,
        0,
        target,
        src_mac,
    )
}

/// An advertisement of the address `src_ip` at `src_mac`.
pub open spec fn advertisement_frame(
    src_mac: Seq<u8>,
    src_ip: Ipv6Addr,
    dst_mac: Seq<u8>,
    dst_ip: Ipv6Addr,
    flags: u32,
) -> Seq<u8> {
    ndp_frame(
        dst_mac,
        src_ip,
        dst_ip,
        ICMPV6_TYPE_NEIGHBOR_ADVERTISEMENT,
        flags,
        src_ip,
        src_mac,
    )
}

/// The group of all nodes on the link, ff02::1.
pub open spec fn all_nodes() -> Ipv6Addr {
    Ipv6Addr { s0: 0xff02, s1: 0, s2: 0, s3: 0, s4: 0, s5: 0, s6: 0, s7: 1 }
}

/// The bytes of a vector of frame length.
fn to_ndp_frame(v: &Vec<u8>) -> (r: [u8; NDP_NS_FRAME_LEN])
    requires
        v@.len() == NDP_NS_FRAME_LEN,
    ensures
        r@ == v@,
{
    let mut r = [0u8; NDP_NS_FRAME_LEN];
    let mut i: usize = 0;
    while i < NDP_NS_FRAME_LEN
        invariant
            v@.len() == NDP_NS_FRAME_LEN,
            r@.len() == NDP_NS_FRAME_LEN,
            i <= NDP_NS_FRAME_LEN,
            forall|k: int| 0 <= k < i ==> r@[k] == v@[k],
        decreases NDP_NS_FRAME_LEN - i,
    {
        r[i] = v[i];
        i = i + 1;
    }
    assert(r@ =~= v@);
    r
}

/// Appends a message with the given checksum field.
fn push_ndp_message_with(
    out: &mut Vec<u8>,
    kind: u8,
    cksum: u16,
    flags: u32,
    target: &Ipv6Addr,
    mac: &[u8; 6],
)
    ensures
        final(out)@ == old(out)@ + ndp_message_with(kind, cksum, flags, *target, mac@),
{
    out.push(kind);
    out.push(0);
    push_be16(out, cksum);
    push_be32(out, flags);
    push_bytes(out, &target.octets());
    let option = if kind == ICMPV6_TYPE_NEIGHBOR_SOLICITATION {
        NDP_OPT_SOURCE_LINK_LAYER
    } else {
        NDP_OPT_TARGET_LINK_LAYER
    };
    out.push(option);
    out.push(1);
    push_bytes(out, mac);
    assert(out@ =~= old(out)@ + ndp_message_with(kind, cksum, flags, *target, mac@));
}

/// Builds the frame of a message.
fn build_ndp_frame(
    dst_mac: &[u8; 6],
    src_ip: &Ipv6Addr,
    dst_ip: &Ipv6Addr,
    kind: u8,
    flags: u32,
    target: &Ipv6Addr,
    mac: &[u8; 6],
) -> (r: [u8; NDP_NS_FRAME_LEN])
    ensures
        r@ == ndp_frame(dst_mac@, *src_ip, *dst_ip, kind, flags, *target, mac@),
{
    let mut blank: Vec<u8> = Vec::new();
    push_ndp_message_with(&mut blank, kind, 0, flags, target, mac);
    assert(blank@ =~= ndp_message_with(kind, 0, flags, *target, mac@));
    let cksum = icmpv6_checksum(src_ip, dst_ip, blank.as_slice());
    let mut frame: Vec<u8> = Vec::new();
    push_eth_header(&mut frame, dst_mac, mac, ETH_TYPE_IPV6);
    push_ipv6_header(&mut frame, 32, IP_PROTO_ICMPV6, NDP_HOP_LIMIT, src_ip, dst_ip);
    push_ndp_message_with(&mut frame, kind, cksum, flags, target, mac);
    assert(frame@ =~= ndp_frame(dst_mac@, *src_ip, *dst_ip, kind, flags, *target, mac@));
    to_ndp_frame(&frame)
}

/// Builds a solicitation for the link-layer address of `target_ip`.
pub fn build_neighbor_solicitation(
    src_mac: &[u8; 6],
    src_ip: &Ipv6Addr,
    target_ip: &Ipv6Addr,
) -> (r: [u8; NDP_NS_FRAME_LEN])
    ensures
        r@ == solicitation_frame(src_mac@, *src_ip, *target_ip),
{
    let group = solicited_node_multicast_addr(target_ip);
    let dst_mac = ipv6_multicast_mac(&group);
    build_ndp_frame(
        &dst_mac,
        src_ip,
        &group,
        ICMPV6_TYPE_NEIGHBOR_SOLICITATION,
        0,
        target_ip,
        src_mac,
    )
}

/// Builds an advertisement of the address `src_ip` at `src_mac`.
pub fn build_neighbor_advertisement(
    src_mac: &[u8; 6],
    src_ip: &Ipv6Addr,
    dst_mac: &[u8; 6],
    dst_ip: &Ipv6Addr,
    flags: u32,
) -> (r: [u8; NDP_NA_FRAME_LEN])
    ensures
        r@ == advertisement_frame(src_mac@, *src_ip, dst_mac@, *dst_ip, flags),
{
    build_ndp_frame(
        dst_mac,
        src_ip,
        dst_ip,
        ICMPV6_TYPE_NEIGHBOR_ADVERTISEMENT,
        flags,
        src_ip,
        src_mac,
    )
}

/// Builds an unsolicited advertisement to all nodes on the link.
pub fn build_gratuitous_na(src_mac: &[u8; 6], src_ip: &Ipv6Addr) -> (r: [u8; NDP_NA_FRAME_LEN])
    ensures
        r@ == advertisement_frame(
            src_mac@,
            *src_ip,
            ipv6_addr::multicast_mac(all_nodes()),
            all_nodes(),
            NA_FLAG_OVERRIDE,
        ),
{
    let group = Ipv6Addr::new(0xff02, 0, 0, 0, 0, 0, 0, 1);
    let dst_mac = ipv6_multicast_mac(&group);
    build_neighbor_advertisement(src_mac, src_ip, &dst_mac, &group, NA_FLAG_OVERRIDE)
}

// ---------------------------------------------------------------------------
// Cache
// ---------------------------------------------------------------------------

/// An entry of the neighbor cache.
#[derive(Debug, Clone, Copy)]
pub struct NdpCacheEntry {
    pub mac: [u8; 6],
    /// When the entry was made.
    pub timestamp: u64,
}

impl NdpCacheEntry {
    pub fn new(mac: [u8; 6], now: u64) -> (r: Self)
        ensures
            r == (NdpCacheEntry { mac, timestamp: now }),
    {
        NdpCacheEntry { mac, timestamp: now }
    }

    /// Whether the entry is older than five minutes.
    pub fn is_expired(&self, now: u64) -> (r: bool)
        ensures
            r == arp::outlived(self.timestamp, now, NDP_CACHE_TTL),
    {
        now > self.timestamp && now - self.timestamp > NDP_CACHE_TTL
    }
}

/// The high and the low half of an address as numbers.
pub open spec fn half_number(a: u16, b: u16, c: u16, d: u16) -> int {
    a * 0x1_0000_0000_0000 + b * 0x1_0000_0000 + c * 0x1_0000 + d
}

/// The number that the cache keeps an address under.
pub open spec fn cache_key6(ip: Ipv6Addr) -> u128 {
    (half_number(ip.s0, ip.s1, ip.s2, ip.s3) * 0x1_0000_0000_0000_0000 + half_number(
        ip.s4,
        ip.s5,
        ip.s6,
        ip.s7,
    )) as u128
}

/// Different halves of addresses have different numbers.
proof fn lemma_half_number_injective(
    a: u16,
    b: u16,
    c: u16,
    d: u16,
    e: u16,
    f: u16,
    g: u16,
    h: u16,
)
    by (bit_vector)
    requires
        a * 0x1_0000_0000_0000 + b * 0x1_0000_0000 + c * 0x1_0000 + d == e * 0x1_0000_0000_0000 + f
            * 0x1_0000_0000 + g * 0x1_0000 + h,
    ensures
        a == e && b == f && c == g && d == h,
{
}

/// Different addresses have different numbers.
pub proof fn lemma_cache_key6_injective(a: Ipv6Addr, b: Ipv6Addr)
    ensures
        cache_key6(a) == cache_key6(b) <==> a == b,
{
    let a_hi = half_number(a.s0, a.s1, a.s2, a.s3);
    let a_lo = half_number(a.s4, a.s5, a.s6, a.s7);
    let b_hi = half_number(b.s0, b.s1, b.s2, b.s3);
    let b_lo = half_number(b.s4, b.s5, b.s6, b.s7);
    if cache_key6(a) == cache_key6(b) {
        assert(a_hi == b_hi && a_lo == b_lo);
        lemma_half_number_injective(a.s0, a.s1, a.s2, a.s3, b.s0, b.s1, b.s2, b.s3);
        lemma_half_number_injective(a.s4, a.s5, a.s6, a.s7, b.s4, b.s5, b.s6, b.s7);
    }
}

/// The number whose six big-endian bytes are `mac`.
pub open spec fn mac_number(mac: Seq<u8>) -> int {
    mac[0] * 0x100_0000_0000 + mac[1] * 0x1_0000_0000 + mac[2] * 0x100_0000 + mac[3] * 0x1_0000 + mac[4]
        * 0x100 + mac[5]
}

/// The six low bytes of a number.
pub open spec fn mac_bytes(v: u64) -> Seq<u8> {
    seq![
        (v / 0x100_0000_0000 % 0x100) as u8,
        (v / 0x1_0000_0000 % 0x100) as u8,
        (v / 0x100_0000 % 0x100) as u8,
        (v / 0x1_0000 % 0x100) as u8,
        (v / 0x100 % 0x100) as u8,
        (v % 0x100) as u8,
    ]
}

/// The bytes of the number that was put together from six bytes.
proof fn lemma_mac_digits(a: u8, b: u8, c: u8, d: u8, e: u8, f: u8, v: u64)
    by (bit_vector)
    requires
        v == a * 0x100_0000_0000 + b * 0x1_0000_0000 + c * 0x100_0000 + d * 0x1_0000 + e * 0x100 + f,
    ensures
        v / 0x100_0000_0000 % 0x100 == a,
        v / 0x1_0000_0000 % 0x100 == b,
        v / 0x100_0000 % 0x100 == c,
        v / 0x1_0000 % 0x100 == d,
        v / 0x100 % 0x100 == e,
        v % 0x100 == f,
        v < 0x1_0000_0000_0000,
{
}

/// A number of 48 bits is put together from its six bytes.
pub proof fn lemma_mac_undigits(v: u64)
    by (bit_vector)
    requires
        v < 0x1_0000_0000_0000,
    ensures
        v == (v / 0x100_0000_0000 % 0x100) * 0x100_0000_0000 + (v / 0x1_0000_0000 % 0x100)
            * 0x1_0000_0000 + (v / 0x100_0000 % 0x100) * 0x100_0000 + (v / 0x1_0000 % 0x100)
            * 0x1_0000 + (v / 0x100 % 0x100) * 0x100 + v % 0x100,
{
}

/// The two halves of an IPv6 address as numbers.
pub fn ipv6_to_u64_pair(addr: &Ipv6Addr) -> (r: (u64, u64))
    ensures
        r.0 == half_number(addr.s0, addr.s1, addr.s2, addr.s3),
        r.1 == half_number(addr.s4, addr.s5, addr.s6, addr.s7),
        r.0 * 0x1_0000_0000_0000_0000 + r.1 == cache_key6(*addr),
{
    let hi = addr.s0 as u64 * 0x1_0000_0000_0000 + addr.s1 as u64 * 0x1_0000_0000 + addr.s2 as u64
        * 0x1_0000 + addr.s3 as u64;
    let lo = addr.s4 as u64 * 0x1_0000_0000_0000 + addr.s5 as u64 * 0x1_0000_0000 + addr.s6 as u64
        * 0x1_0000 + addr.s7 as u64;
    (hi, lo)
}

/// The number that the cache keeps an address under.
fn key6(addr: &Ipv6Addr) -> (r: u128)
    ensures
        r == cache_key6(*addr),
{
    let (hi, lo) = ipv6_to_u64_pair(addr);
    hi as u128 * 0x1_0000_0000_0000_0000 + lo as u128
}

/// The bytes of an Ethernet address in one number.
pub fn mac_to_u64(mac: &[u8; 6]) -> (r: u64)
    ensures
        r == mac_number(mac@),
        mac_bytes(r) == mac@,
        r < 0x1_0000_0000_0000,
{
    let r = mac[0] as u64 * 0x100_0000_0000 + mac[1] as u64 * 0x1_0000_0000 + mac[2] as u64
        * 0x100_0000 + mac[3] as u64 * 0x1_0000 + mac[4] as u64 * 0x100 + mac[5] as u64;
    proof {
        lemma_mac_digits(mac@[0], mac@[1], mac@[2], mac@[3], mac@[4], mac@[5], r);
        assert(mac_bytes(r) =~= mac@);
    }
    r
}

/// The Ethernet address whose bytes are in the low 48 bits of a number.
pub fn u64_to_mac(val: u64) -> (r: [u8; 6])
    ensures
        r@ == mac_bytes(val),
{
    let r = [
        (val / 0x100_0000_0000 % 0x100) as u8,
        (val / 0x1_0000_0000 % 0x100) as u8,
        (val / 0x100_0000 % 0x100) as u8,
        (val / 0x1_0000 % 0x100) as u8,
        (val / 0x100 % 0x100) as u8,
        (val % 0x100) as u8,
    ];
    assert(r@ =~= mac_bytes(val));
    r
}

/// The neighbor that a cache has seen last.
#[derive(Debug, Clone, Copy)]
struct RecentNeighbor {
    /// The two halves of the address.
    ip_hi: u64,
    ip_lo: u64,
    /// The link-layer address, in the low 48 bits.
    mac: u64,
    /// When it was seen.
    timestamp: u64,
}

impl RecentNeighbor {
    /// The number that the cache keeps the address under.
    spec fn key(self) -> u128 {
        (self.ip_hi * 0x1_0000_0000_0000_0000 + self.ip_lo) as u128
    }

    /// Whether this agrees with the entry of the address, if there is one.
    spec fn agrees_with(self, entries: Map<u128, NdpCacheEntry>) -> bool {
        &&& self.mac < 0x1_0000_0000_0000
        &&& entries.contains_key(self.key()) ==> {
            &&& entries[self.key()].mac@ == mac_bytes(self.mac)
            &&& entries[self.key()].timestamp <= self.timestamp
        }
    }

    /// Whether this is about the address with the halves `hi` and `lo`.
    fn is_about(&self, hi: u64, lo: u64) -> (r: bool)
        ensures
            r == (self.key() == hi * 0x1_0000_0000_0000_0000 + lo),
    {
        self.ip_hi == hi && self.ip_lo == lo
    }

    /// Whether it was seen more than five minutes ago.
    fn is_expired(&self, now: u64) -> (r: bool)
        ensures
            r == arp::outlived(self.timestamp, now, NDP_CACHE_TTL),
    {
        now > self.timestamp && now - self.timestamp > NDP_CACHE_TTL
    }
}

/// What a cache remembers of the neighbor that it has seen last.
pub struct RecentView {
    /// The number that the cache keeps the address under.
    pub key: u128,
    pub mac: Seq<u8>,
    pub timestamp: u64,
}

/// What a cache knows of a neighbor.
pub struct Known {
    pub mac: Seq<u8>,
    pub since: u64,
}

/// The link-layer addresses of IPv6 neighbors.
///
/// An address is found for five minutes after it was seen. Besides its entries the cache
/// remembers the neighbor that it has seen last, which is found without a search.
#[derive(Debug)]
pub struct NdpCache {
    entries: HashMap<u128, NdpCacheEntry>,
    recent: Option<RecentNeighbor>,
}

impl NdpCache {
    /// The entries, by the numbers of the addresses.
    pub closed spec fn entries(self) -> Map<u128, NdpCacheEntry> {
        self.entries@
    }

    /// The neighbor that was seen last.
    pub closed spec fn recent(self) -> Option<RecentView> {
        match self.recent {
            Some(recent) => Some(
                RecentView {
                    key: recent.key(),
                    mac: mac_bytes(recent.mac),
                    timestamp: recent.timestamp,
                },
            ),
            None => None,
        }
    }

    /// What the cache remembers of the last neighbor agrees with its entry, and is not older.
    pub closed spec fn wf(self) -> bool {
        self.recent matches Some(recent) ==> recent.agrees_with(self.entries@)
    }

    /// Where `ip` is, and since when the cache knows: from the neighbor that it has seen last,
    /// or from an entry.
    pub open spec fn known(self, ip: Ipv6Addr) -> Option<Known> {
        match self.recent() {
            Some(recent) if recent.key == cache_key6(ip) => Some(
                Known { mac: recent.mac, since: recent.timestamp },
            ),
            _ => if self.entries().contains_key(cache_key6(ip)) {
                Some(
                    Known {
                        mac: self.entries()[cache_key6(ip)].mac@,
                        since: self.entries()[cache_key6(ip)].timestamp,
                    },
                )
            } else {
                None
            },
        }
    }

    /// The link-layer address of `ip` at time `now`, unless what is known has expired.
    pub open spec fn find(self, ip: Ipv6Addr, now: u64) -> Option<Seq<u8>> {
        match self.known(ip) {
            Some(known) => if arp::outlived(known.since, now, NDP_CACHE_TTL) {
                None
            } else {
                Some(known.mac)
            },
            None => None,
        }
    }

    /// Whether the neighbor that was seen last is `ip` at `mac`.
    pub open spec fn remembers(self, ip: Ipv6Addr, mac: Seq<u8>) -> bool {
        self.recent() matches Some(recent) && recent.key == cache_key6(ip) && recent.mac == mac
    }

    /// Whether an entry says of `ip` what the cache remembers, if `ip` is the neighbor that it
    /// has seen last: it has not been seen again since it was inserted, nor was its entry
    /// purged.
    pub open spec fn is_settled(self, ip: Ipv6Addr) -> bool {
        match self.recent() {
            Some(recent) if recent.key == cache_key6(ip) => {
                &&& self.entries().contains_key(recent.key)
                &&& self.entries()[recent.key].timestamp == recent.timestamp
            },
            _ => true,
        }
    }

    /// The cache after `ip` was inserted at `mac`.
    pub open spec fn inserted(
        self,
        before: NdpCache,
        ip: Ipv6Addr,
        mac: [u8; 6],
        now: u64,
    ) -> bool {
        &&& self.entries() == before.entries().insert(
            cache_key6(ip),
            (NdpCacheEntry { mac, timestamp: now }),
        )
        &&& self.recent() == Some(
            RecentView { key: cache_key6(ip), mac: mac@, timestamp: now },
        )
        &&& self.wf()
    }

    /// The cache after `ip` was learned to be at `mac`. If that is the neighbor that it has seen
    /// last, nothing is inserted, and when it was seen changes only if that has expired.
    pub open spec fn learned(
        self,
        before: NdpCache,
        ip: Ipv6Addr,
        mac: [u8; 6],
        now: u64,
    ) -> bool {
        if !before.remembers(ip, mac@) {
            self.inserted(before, ip, mac, now)
        } else if arp::outlived(before.recent()->Some_0.timestamp, now, NDP_CACHE_TTL) {
            &&& self.entries() == before.entries()
            &&& self.recent() == Some(
                RecentView { key: cache_key6(ip), mac: mac@, timestamp: now },
            )
        } else {
            self == before
        }
    }

    pub fn new() -> (r: Self)
        ensures
            r.wf(),
            r.entries() == Map::<u128, NdpCacheEntry>::empty(),
            r.recent() is None,
    {
        NdpCache { entries: HashMap::new(), recent: None }
    }

    /// Looks up the link-layer address of `ip`.
    pub fn lookup(&self, ip: &Ipv6Addr, now: u64) -> (r: Option<[u8; 6]>)
        ensures
            mac_view(r) == self.find(*ip, now),
    {
        broadcast use vstd::std_specs::hash::group_hash_axioms;

        let (hi, lo) = ipv6_to_u64_pair(ip);
        if let Some(recent) = self.recent {
            if recent.is_about(hi, lo) {
                return if recent.is_expired(now) {
                    None
                } else {
                    Some(u64_to_mac(recent.mac))
                };
            }
        }
        match self.entries.get(&key6(ip)) {
            Some(entry) => if entry.is_expired(now) {
                None
            } else {
                Some(entry.mac)
            },
            None => None,
        }
    }

    /// Inserts or replaces an entry.
    pub fn insert(&mut self, ip: Ipv6Addr, mac: [u8; 6], now: u64)
        ensures
            final(self).inserted(*old(self), ip, mac, now),
    {
        broadcast use vstd::std_specs::hash::group_hash_axioms;

        let (ip_hi, ip_lo) = ipv6_to_u64_pair(&ip);
        self.recent = Some(
            RecentNeighbor { ip_hi, ip_lo, mac: mac_to_u64(&mac), timestamp: now },
        );
        self.entries.insert(key6(&ip), NdpCacheEntry::new(mac, now));
    }

    /// Inserts an entry unless it is the neighbor that was seen last. If that was too long ago,
    /// it has been seen again now.
    pub fn insert_if_changed(&mut self, ip: &Ipv6Addr, mac: &[u8; 6], now: u64)
        requires
            old(self).wf(),
        ensures
            final(self).wf(),
            final(self).learned(*old(self), *ip, *mac, now),
    {
        let (hi, lo) = ipv6_to_u64_pair(ip);
        let mac_bits = mac_to_u64(mac);
        if let Some(recent) = self.recent {
            proof {
                lemma_mac_bytes_injective(recent.mac, mac_bits);
            }
            if recent.is_about(hi, lo) && recent.mac == mac_bits {
                if recent.is_expired(now) {
                    self.recent = Some(RecentNeighbor { timestamp: now, ..recent });
                }
                return ;
            }
        }
        self.insert(*ip, *mac, now);
    }

    /// Removes an entry, and what is remembered of its address.
    pub fn remove(&mut self, ip: &Ipv6Addr)
        requires
            old(self).wf(),
        ensures
            final(self).wf(),
            final(self).removed(*old(self), *ip),
    {
        broadcast use vstd::std_specs::hash::group_hash_axioms;

        let (hi, lo) = ipv6_to_u64_pair(ip);
        if let Some(recent) = self.recent {
            if recent.is_about(hi, lo) {
                self.recent = None;
            }
        }
        self.entries.remove(&key6(ip));
    }

    /// The cache after `ip` was removed.
    pub open spec fn removed(self, before: NdpCache, ip: Ipv6Addr) -> bool {
        &&& self.entries() == before.entries().remove(cache_key6(ip))
        &&& self.recent() == match before.recent() {
            Some(recent) if recent.key == cache_key6(ip) => None,
            other => other,
        }
    }

    /// How many entries there are, expired ones too.
    pub fn len(&self) -> (r: usize)
        ensures
            r == self.entries().len(),
    {
        broadcast use vstd::std_specs::hash::group_hash_axioms;

        self.entries.len()
    }

    pub fn is_empty(&self) -> (r: bool)
        ensures
            r == self.entries().is_empty(),
    {
        self.entries.is_empty()
    }

    /// Removes all entries.
    pub fn clear(&mut self)
        ensures
            final(self).wf(),
            final(self).entries() == Map::<u128, NdpCacheEntry>::empty(),
            final(self).recent() is None,
    {
        self.recent = None;
        self.entries.clear();
    }

    /// The keys of the entries, in no particular order.
    fn keys_of(&self) -> (r: Vec<u128>)
        ensures
            forall|k: u128| #[trigger] self.entries().contains_key(k) <==> r@.contains(k),
            r@.no_duplicates(),
    {
        broadcast use vstd::std_specs::hash::group_hash_axioms;

        let mut r: Vec<u128> = Vec::new();
        let all = self.entries.keys();
        let ghost order = vstd::std_specs::iter::IteratorSpec::remaining(&all);
        assert(order.unref().to_set() == self.entries().dom());
        for k in it: all
            invariant
                it.seq() == order,
                r@ == order.unref().take(it.index()),
        {
            r.push(*k);
            assert(r@ =~= order.unref().take(it.index() + 1));
        }
        assert(r@ =~= order.unref());
        assert forall|k: u128| #[trigger] self.entries().contains_key(k) <==> r@.contains(k) by {
            assert(self.entries().dom().contains(k) <==> r@.to_set().contains(k));
        }
        r
    }

    /// The cache after the entries that have expired at `now` were removed.
    pub open spec fn purged(self, before: NdpCache, now: u64) -> bool {
        &&& forall|k: u128| #[trigger]
            self.entries().contains_key(k) <==> before.entries().contains_key(k) && !arp::outlived(
                before.entries()[k].timestamp,
                now,
                NDP_CACHE_TTL,
            )
        &&& forall|k: u128| #[trigger]
            self.entries().contains_key(k) ==> self.entries()[k] == before.entries()[k]
        &&& self.recent() == before.recent()
    }

    /// Removes the entries that have expired. The neighbor that was seen last stays remembered,
    /// but is not found either once it has expired.
    pub fn purge_expired(&mut self, now: u64)
        requires
            old(self).wf(),
        ensures
            final(self).wf(),
            final(self).purged(*old(self), now),
    {
        broadcast use vstd::std_specs::hash::group_hash_axioms;

        let keys = self.keys_of();
        let ghost before = self.entries();
        let mut i: usize = 0;
        while i < keys.len()
            invariant
                i <= keys@.len(),
                self.recent == old(self).recent,
                before == old(self).entries(),
                forall|k: u128| #[trigger] before.contains_key(k) <==> keys@.contains(k),
                keys@.no_duplicates(),
                forall|k: u128| #[trigger]
                    self.entries().contains_key(k) <==> before.contains_key(k) && !(keys@.take(
                        i as int,
                    ).contains(k) && arp::outlived(before[k].timestamp, now, NDP_CACHE_TTL)),
                forall|k: u128| #[trigger]
                    self.entries().contains_key(k) ==> self.entries()[k] == before[k],
            decreases keys@.len() - i,
        {
            let k: u128 = keys[i];
            proof {
                assert(keys@[i as int] == k);
                assert(keys@.contains(k));
                assert(before.contains_key(k));
                assert(!keys@.take(i as int).contains(k)) by {
                    if keys@.take(i as int).contains(k) {
                        let j = choose|j: int| 0 <= j < i && keys@.take(i as int)[j] == k;
                        assert(keys@[j] == k);
                    }
                }
                assert(self.entries().contains_key(k));
                assert forall|q: u128| #[trigger] keys@.take(i + 1).contains(q) <==> keys@.take(
                    i as int,
                ).contains(q) || q == k by {
                    let now_taken = keys@.take(i + 1);
                    let was_taken = keys@.take(i as int);
                    if now_taken.contains(q) {
                        let j = choose|j: int| 0 <= j < i + 1 && now_taken[j] == q;
                        if j < i {
                            assert(was_taken[j] == q);
                        }
                    }
                    if was_taken.contains(q) {
                        let j = choose|j: int| 0 <= j < i && was_taken[j] == q;
                        assert(now_taken[j] == q);
                    }
                    assert(now_taken[i as int] == k);
                }
            }
            let stale = match self.entries.get(&k) {
                Some(entry) => entry.is_expired(now),
                None => false,
            };
            if stale {
                self.entries.remove(&k);
            }
            i = i + 1;
        }
        proof {
            assert(keys@.take(keys@.len() as int) =~= keys@);
            if let Some(recent) = self.recent {
                assert(self.entries().contains_key(recent.key()) ==> before.contains_key(
                    recent.key(),
                ));
            }
        }
    }
}

/// Numbers of 48 bits with the same six bytes are the same.
proof fn lemma_mac_bytes_injective(a: u64, b: u64)
    requires
        a < 0x1_0000_0000_0000,
        b < 0x1_0000_0000_0000,
    ensures
        mac_bytes(a) == mac_bytes(b) <==> a == b,
{
    if mac_bytes(a) == mac_bytes(b) {
        lemma_mac_undigits(a);
        lemma_mac_undigits(b);
        assert(mac_number(mac_bytes(a)) == a);
        assert(mac_number(mac_bytes(b)) == b);
    }
}

impl Default for NdpCache {
    fn default() -> (r: Self)
        ensures
            r.wf(),
            r.entries() == Map::<u128, NdpCacheEntry>::empty(),
            r.recent() is None,
    {
        NdpCache::new()
    }
}

// ---------------------------------------------------------------------------
// Handler
// ---------------------------------------------------------------------------

/// Answers solicitations for local addresses and learns the addresses of others.
pub struct NdpHandler {
    pub local_mac: [u8; 6],
    pub local_ips: Vec<Ipv6Addr>,
    pub cache: NdpCache,
}

/// What a frame teaches of a neighbor: a solicitation where its sender is, an
/// advertisement where its target is.
pub open spec fn lesson(v: NdpView) -> Option<(Ipv6Addr, Seq<u8>)> {
    match v.link_layer_addr {
        Some(mac) => if v.icmp_type == ICMPV6_TYPE_NEIGHBOR_ADVERTISEMENT {
            Some((v.target, mac))
        } else if v.src_ip != addr::ipv6_unspecified() {
            Some((v.src_ip, mac))
        } else {
            None
        },
        None => None,
    }
}

/// The cache after a lesson.
pub open spec fn taught(
    before: NdpCache,
    after: NdpCache,
    lesson: Option<(Ipv6Addr, Seq<u8>)>,
    now: u64,
) -> bool {
    match lesson {
        Some((ip, mac)) => exists|m: [u8; 6]| #[trigger] m@ == mac && after.learned(before, ip, m, now),
        None => after == before,
    }
}

/// The advertisement that answers a message, if it is a solicitation for an address
/// in `ips`.
pub open spec fn answer(v: NdpView, local_mac: Seq<u8>, ips: Seq<Ipv6Addr>) -> Option<Seq<u8>> {
    if v.icmp_type == ICMPV6_TYPE_NEIGHBOR_SOLICITATION && ips.contains(v.target) {
        Some(
            advertisement_frame(
                local_mac,
                v.target,
                v.src_mac,
                v.src_ip,
                SOLICITED_OVERRIDE,
            ),
        )
    } else {
        None
    }
}

/// Flags of an answer: solicited and override.
pub const SOLICITED_OVERRIDE: u32 = 0x6000_0000;

/// The bytes of an optional vector.
pub open spec fn bytes_view(v: Option<Vec<u8>>) -> Option<Seq<u8>> {
    match v {
        Some(b) => Some(b@),
        None => None,
    }
}

impl NdpHandler {
    pub fn new(local_mac: [u8; 6], local_ip: Ipv6Addr) -> (r: Self)
        ensures
            r.local_mac == local_mac,
            r.local_ips@ == seq![local_ip],
            r.cache.wf(),
            r.cache.entries() == Map::<u128, NdpCacheEntry>::empty(),
            r.cache.recent() is None,
    {
        NdpHandler::with_cache(local_mac, local_ip, NdpCache::new())
    }

    /// A handler that starts with what `cache` knows.
    pub fn with_cache(local_mac: [u8; 6], local_ip: Ipv6Addr, cache: NdpCache) -> (r: Self)
        ensures
            r.local_mac == local_mac,
            r.local_ips@ == seq![local_ip],
            r.cache == cache,
    {
        let mut local_ips: Vec<Ipv6Addr> = Vec::new();
        local_ips.push(local_ip);
        assert(local_ips@ =~= seq![local_ip]);
        NdpHandler { local_mac, local_ips, cache }
    }

    /// Adds a local address.
    pub fn add_local_ip(&mut self, ip: Ipv6Addr)
        ensures
            final(self).local_ips@ == icmpv6::with_ip6(old(self).local_ips@, ip),
            final(self).local_mac == old(self).local_mac,
            final(self).cache == old(self).cache,
    {
        if !contains_ip6(&self.local_ips, &ip) {
            self.local_ips.push(ip);
        }
    }

    /// Learns from a message, and gives the advertisement that answers it if it is a
    /// solicitation for a local address.
    pub fn process_ndp(&mut self, frame: &[u8], now: u64) -> (r: Option<Vec<u8>>)
        requires
            old(self).cache.wf(),
        ensures
            final(self).cache.wf(),
            final(self).local_mac == old(self).local_mac,
            final(self).local_ips == old(self).local_ips,
            match ndp_parse(frame@) {
                Some(v) => {
                    &&& taught(old(self).cache, final(self).cache, lesson(v), now)
                    &&& bytes_view(r) == answer(v, old(self).local_mac@, old(self).local_ips@)
                },
                None => r is None && final(self).cache == old(self).cache,
            },
    {
        let packet = match parse_ndp_packet(frame) {
            Some(packet) => packet,
            None => return None,
        };
        if packet.icmp_type == ICMPV6_TYPE_NEIGHBOR_SOLICITATION {
            if let Some(mac) = packet.link_layer_addr {
                if !packet.src_ip.is_unspecified() {
                    self.cache.insert_if_changed(&packet.src_ip, &mac, now);
                }
            }
            if contains_ip6(&self.local_ips, &packet.target) {
                let frame = build_neighbor_advertisement(
                    &self.local_mac,
                    &packet.target,
                    &packet.src_mac,
                    &packet.src_ip,
                    SOLICITED_OVERRIDE,
                );
                return Some(bytes::copy_bytes(&frame));
            }
        } else {
            if let Some(mac) = packet.link_layer_addr {
                self.cache.insert_if_changed(&packet.target, &mac, now);
            }
        }
        None
    }

    /// The link-layer address of `ip`: that of the group for a multicast address,
    /// otherwise what the cache knows.
    pub fn resolve(&self, ip: &Ipv6Addr, now: u64) -> (r: Option<[u8; 6]>)
        ensures
            mac_view(r) == if ip.s0 / 256 == 0xFF {
                Some(ipv6_addr::multicast_mac(*ip))
            } else {
                self.cache.find(*ip, now)
            },
    {
        if ip.s0 / 256 == 0xFF {
            return Some(ipv6_multicast_mac(ip));
        }
        self.cache.lookup(ip, now)
    }

    /// The solicitation for `target_ip`, sent from the first local address.
    pub fn make_solicitation(&self, target_ip: &Ipv6Addr) -> (r: Option<[u8; NDP_NS_FRAME_LEN]>)
        ensures
            r is Some <==> self.local_ips@.len() > 0,
            r matches Some(frame) ==> frame@ == solicitation_frame(
                self.local_mac@,
                self.local_ips@[0],
                *target_ip,
            ),
    {
        if self.local_ips.len() == 0 {
            return None;
        }
        Some(build_neighbor_solicitation(&self.local_mac, &self.local_ips[0], target_ip))
    }

    /// The unsolicited advertisement of the first local address.
    pub fn make_gratuitous_na(&self) -> (r: Option<[u8; NDP_NA_FRAME_LEN]>)
        ensures
            r is Some <==> self.local_ips@.len() > 0,
            r matches Some(frame) ==> frame@ == advertisement_frame(
                self.local_mac@,
                self.local_ips@[0],
                ipv6_addr::multicast_mac(all_nodes()),
                all_nodes(),
                NA_FLAG_OVERRIDE,
            ),
    {
        if self.local_ips.len() == 0 {
            return None;
        }
        Some(build_gratuitous_na(&self.local_mac, &self.local_ips[0]))
    }

    /// The cache.
    pub fn cache(&self) -> (r: &NdpCache)
        ensures
            *r == self.cache,
    {
        &self.cache
    }
}

// ---------------------------------------------------------------------------
// The neighbor table of the kernel
// ---------------------------------------------------------------------------

/// An entry of the neighbor table.
#[derive(Debug, Clone, PartialEq, Eq)]
pub struct ProcNeighEntry {
    pub ip: Ipv6Addr,
    pub mac: [u8; 6],
    pub interface: String,
}

/// What an entry of the neighbor table says.
pub struct NeighView {
    pub ip: Ipv6Addr,
    pub mac: Seq<u8>,
    pub interface: Seq<char>,
}

impl View for ProcNeighEntry {
    type V = NeighView;

    open spec fn view(&self) -> NeighView {
        NeighView { ip: self.ip, mac: self.mac@, interface: self.interface@ }
    }
}

/// A text without the prefixes `0x` that it starts with.
pub open spec fn without_0x(t: Seq<char>) -> Seq<char>
    decreases t.len(),
{
    if t.len() >= 2 && t[0] == '0' && t[1] == 'x' {
        without_0x(t.skip(2))
    } else {
        t
    }
}

/// The state of a neighbor in hexadecimal.
pub open spec fn neigh_state(t: Seq<char>) -> Option<int> {
    parse::number_upto(without_0x(t), 16, 0xFFFF_FFFF)
}

/// The entry on a line of the neighbor table: address, device number, link-layer
/// address, state, flags and device name. Only entries in state 1 or 2 with a
/// link-layer address other than zero count.
pub open spec fn neigh_line(line: Seq<char>) -> Option<NeighView> {
    let w = parse::words(line);
    if w.len() >= 6 && parse::ipv6_of(w[0]) is Some && parse::mac_of(w[2]) is Some && (neigh_state(
        w[3],
    ) == Some(1int) || neigh_state(w[3]) == Some(2int)) && parse::mac_of(w[2]).unwrap()
        != arp::zero_mac() {
        Some(
            NeighView {
                ip: parse::ipv6_of(w[0]).unwrap(),
                mac: parse::mac_of(w[2]).unwrap(),
                interface: w[5],
            },
        )
    } else {
        None
    }
}

/// The entries on a row of lines.
pub open spec fn neigh_lines(lines: Seq<Seq<char>>) -> Seq<NeighView>
    decreases lines.len(),
{
    if lines.len() == 0 {
        Seq::<NeighView>::empty()
    } else {
        match neigh_line(lines.last()) {
            Some(v) => neigh_lines(lines.drop_last()).push(v),
            None => neigh_lines(lines.drop_last()),
        }
    }
}

/// What entries say.
pub open spec fn neigh_views(entries: Seq<ProcNeighEntry>) -> Seq<NeighView> {
    entries.map_values(|e: ProcNeighEntry| e@)
}

/// Drops the prefixes `0x` that a text starts with.
fn strip_0x(t: &Vec<char>) -> (r: Vec<char>)
    ensures
        r@ == without_0x(t@),
{
    let end = t.len();
    let mut at: usize = 0;
    assert(t@.skip(0) =~= t@);
    while end - at >= 2 && t[at] == '0' && t[at + 1] == 'x'
        invariant
            end == t@.len(),
            at <= end,
            without_0x(t@.skip(at as int)) == without_0x(t@),
        decreases end - at,
    {
        assert(t@.skip(at as int).skip(2) =~= t@.skip(at + 2));
        at = at + 2;
    }
    assert(t@.skip(at as int) =~= t@.subrange(at as int, end as int));
    parse::text_between(t, at, end)
}

fn is_zero_mac(mac: &[u8; 6]) -> (r: bool)
    ensures
        r == (mac@ == arp::zero_mac()),
{
    let r = mac[0] == 0 && mac[1] == 0 && mac[2] == 0 && mac[3] == 0 && mac[4] == 0 && mac[5] == 0;
    proof {
        if r {
            assert(mac@ =~= arp::zero_mac());
        } else if mac@ == arp::zero_mac() {
            assert(mac@[0] == 0 && mac@[1] == 0 && mac@[2] == 0 && mac@[3] == 0 && mac@[4] == 0
                && mac@[5] == 0);
        }
    }
    r
}

/// Parses a line of the neighbor table.
fn parse_neigh_line(line: &Vec<char>) -> (r: Option<ProcNeighEntry>)
    ensures
        match r {
            Some(e) => neigh_line(line@) == Some(e@),
            None => neigh_line(line@) is None,
        },
{
    let parts = split_words(line);
    let ghost w = parse::words(line@);
    if parts.len() < 6 {
        return None;
    }
    assert(w[0] == parts@[0]@ && w[2] == parts@[2]@ && w[3] == parts@[3]@ && w[5] == parts@[5]@);
    let ip = match parse_ipv6_chars(&parts[0]) {
        Some(ip) => ip,
        None => return None,
    };
    let mac = match parse_mac_chars(&parts[2]) {
        Some(mac) => mac,
        None => return None,
    };
    let state: u64 = match parse_number(&strip_0x(&parts[3]), 16, 0xFFFF_FFFF) {
        Some(state) => state,
        None => return None,
    };
    if state != 1 && state != 2 {
        return None;
    }
    if is_zero_mac(&mac) {
        return None;
    }
    let interface = string_of(&parts[5]);
    Some(ProcNeighEntry { ip, mac, interface })
}

/// The entries of a neighbor table that can be used.
pub fn parse_proc_ipv6_neigh(content: &str) -> (r: Vec<ProcNeighEntry>)
    ensures
        neigh_views(r@) == neigh_lines(parse::split(content@, '\n')),
{
    let lines = split_text(&chars_of(content), '\n');
    let ghost texts = parse::split(content@, '\n');
    let mut entries: Vec<ProcNeighEntry> = Vec::new();
    let mut i: usize = 0;
    assert(neigh_views(entries@) =~= neigh_lines(texts.take(0)));
    while i < lines.len()
        invariant
            i <= lines@.len(),
            texts == parse::texts(lines@),
            neigh_views(entries@) == neigh_lines(texts.take(i as int)),
        decreases lines@.len() - i,
    {
        let ghost before = neigh_views(entries@);
        proof {
            assert(texts.take(i + 1).drop_last() =~= texts.take(i as int));
            assert(texts[i as int] == lines@[i as int]@);
        }
        match parse_neigh_line(&lines[i]) {
            Some(entry) => {
                let ghost v = entry@;
                entries.push(entry);
                assert(neigh_views(entries@) =~= before.push(v));
            },
            None => {},
        }
        i = i + 1;
    }
    assert(texts.take(texts.len() as int) =~= texts);
    entries
}

/// The cache after the entries were inserted one after the other.
pub open spec fn seeded(
    before: Map<u128, NdpCacheEntry>,
    entries: Seq<ProcNeighEntry>,
    now: u64,
) -> Map<u128, NdpCacheEntry>
    decreases entries.len(),
{
    if entries.len() == 0 {
        before
    } else {
        seeded(before, entries.drop_last(), now).insert(
            cache_key6(entries.last().ip),
            (NdpCacheEntry { mac: entries.last().mac, timestamp: now }),
        )
    }
}

/// Inserts the entries of a neighbor table into a cache.
pub fn seed_cache_from_proc(cache: &mut NdpCache, entries: &[ProcNeighEntry], now: u64)
    requires
        old(cache).wf(),
    ensures
        final(cache).wf(),
        final(cache).entries() == seeded(old(cache).entries(), entries@, now),
        entries@.len() == 0 ==> *final(cache) == *old(cache),
        entries@.len() > 0 ==> final(cache).recent() == Some(
            RecentView {
                key: cache_key6(entries@.last().ip),
                mac: entries@.last().mac@,
                timestamp: now,
            },
        ),
{
    let mut i: usize = 0;
    while i < entries.len()
        invariant
            i <= entries@.len(),
            cache.wf(),
            cache.entries() == seeded(old(cache).entries(), entries@.take(i as int), now),
            i == 0 ==> *cache == *old(cache),
            i > 0 ==> cache.recent() == Some(
                RecentView {
                    key: cache_key6(entries@[i - 1].ip),
                    mac: entries@[i - 1].mac@,
                    timestamp: now,
                },
            ),
        decreases entries@.len() - i,
    {
        assert(entries@.take(i + 1).drop_last() =~= entries@.take(i as int));
        cache.insert(entries[i].ip, entries[i].mac, now);
        i = i + 1;
    }
    assert(entries@.take(entries@.len() as int) =~= entries@);
}

// ---------------------------------------------------------------------------
// Laws
// ---------------------------------------------------------------------------

/// Computing the checksum again over a sent message gives the checksum that the
/// message was sent with.
pub proof fn law_ndp_message_verifies(
    src_ip: Ipv6Addr,
    dst_ip: Ipv6Addr,
    kind: u8,
    flags: u32,
    target: Ipv6Addr,
    mac: Seq<u8>,
)
    ensures
        icmpv6::icmpv6_cksum(src_ip, dst_ip, ndp_message(src_ip, dst_ip, kind, flags, target, mac))
            == ndp_cksum(src_ip, dst_ip, kind, flags, target, mac),
{
    assert(checksum::blanked(ndp_message(src_ip, dst_ip, kind, flags, target, mac), 2)
        =~= checksum::blanked(ndp_message_with(kind, 0, flags, target, mac), 2));
}

/// A built message parses back to what it was built from.
pub proof fn law_ndp_round_trip(
    dst_mac: Seq<u8>,
    src_ip: Ipv6Addr,
    dst_ip: Ipv6Addr,
    kind: u8,
    flags: u32,
    target: Ipv6Addr,
    mac: Seq<u8>,
)
    requires
        dst_mac.len() == 6,
        mac.len() == 6,
        kind == ICMPV6_TYPE_NEIGHBOR_ADVERTISEMENT || (kind == ICMPV6_TYPE_NEIGHBOR_SOLICITATION
            && flags == 0),
    ensures
        ndp_frame(dst_mac, src_ip, dst_ip, kind, flags, target, mac).len() == NDP_NS_FRAME_LEN,
        ndp_parse(ndp_frame(dst_mac, src_ip, dst_ip, kind, flags, target, mac)) == Some(
            NdpView {
                src_mac: mac,
                dst_mac,
                src_ip,
                dst_ip,
                icmp_type: kind,
                flags,
                target,
                link_layer_addr: Some(mac),
            },
        ),
{
    let eth = udp::eth_header(dst_mac, mac, ETH_TYPE_IPV6);
    let cksum = ndp_cksum(src_ip, dst_ip, kind, flags, target, mac);
    let message = ndp_message_with(kind, cksum, flags, target, mac);
    lemma_ndp_message_fields(kind, cksum, flags, target, mac);
    assert(eth.len() == 14);
    bytes::lemma_be16_round_trip(ETH_TYPE_IPV6);
    assert(eth[12] == bytes::be16_bytes(ETH_TYPE_IPV6)[0]);
    assert(eth[13] == bytes::be16_bytes(ETH_TYPE_IPV6)[1]);
    assert(eth.subrange(0, 6) =~= dst_mac);
    assert(eth.subrange(6, 12) =~= mac);
    ipv6::lemma_ipv6_header_at(eth, 32, IP_PROTO_ICMPV6, NDP_HOP_LIMIT, src_ip, dst_ip, message);
    let header = ipv6::ipv6_header(32, IP_PROTO_ICMPV6, NDP_HOP_LIMIT, src_ip, dst_ip);
    assert(ndp_frame(dst_mac, src_ip, dst_ip, kind, flags, target, mac) == eth + (header + message));
    assert((eth + (header + message)).subrange(0, 14) =~= eth);
    lemma_ndp_parse_message(eth, eth + (header + message), message, kind, flags, target, mac);
}

/// Where the fields of a message are.
proof fn lemma_ndp_message_fields(kind: u8, cksum: u16, flags: u32, target: Ipv6Addr, mac: Seq<u8>)
    requires
        mac.len() == 6,
    ensures
        ({
            let message = ndp_message_with(kind, cksum, flags, target, mac);
            &&& message.len() == 32
            &&& message[0] == kind
            &&& message[1] == 0
            &&& message.subrange(4, 8) == bytes::be32_bytes(flags)
            &&& message.subrange(8, 24) == target.bytes()
            &&& message[24] == option_type(kind)
            &&& message[25] == 1
            &&& message.subrange(26, 32) == mac
        }),
{
    let message = ndp_message_with(kind, cksum, flags, target, mac);
    bytes::lemma_be32_round_trip(flags);
    assert(message.subrange(4, 8) =~= bytes::be32_bytes(flags));
    assert(message.subrange(8, 24) =~= target.bytes());
    assert(message.subrange(26, 32) =~= mac);
}

/// A frame that ends in a message parses to the fields of the message.
proof fn lemma_ndp_parse_message(
    eth: Seq<u8>,
    frame: Seq<u8>,
    message: Seq<u8>,
    kind: u8,
    flags: u32,
    target: Ipv6Addr,
    mac: Seq<u8>,
)
    requires
        eth.len() == 14,
        frame.len() == 86,
        message.len() == 32,
        mac.len() == 6,
        frame.subrange(0, 14) == eth,
        frame.subrange(54, 86) == message,
        bytes::be16_at(eth, 12) == ETH_TYPE_IPV6,
        frame[14] / 16 == 6,
        frame[20] == IP_PROTO_ICMPV6,
        frame[21] == NDP_HOP_LIMIT,
        kind == ICMPV6_TYPE_NEIGHBOR_ADVERTISEMENT || (kind == ICMPV6_TYPE_NEIGHBOR_SOLICITATION
            && flags == 0),
        message[0] == kind,
        message[1] == 0,
        message.subrange(4, 8) == bytes::be32_bytes(flags),
        message.subrange(8, 24) == target.bytes(),
        message[24] == option_type(kind),
        message[25] == 1,
        message.subrange(26, 32) == mac,
    ensures
        ndp_parse(frame) == Some(
            NdpView {
                src_mac: eth.subrange(6, 12),
                dst_mac: eth.subrange(0, 6),
                src_ip: addr::ipv6_at(frame, 22),
                dst_ip: addr::ipv6_at(frame, 38),
                icmp_type: kind,
                flags,
                target,
                link_layer_addr: Some(mac),
            },
        ),
{
    assert forall|k: int| 0 <= k < 14 implies frame[k] == #[trigger] eth[k] by {
        assert(frame.subrange(0, 14)[k] == frame[k]);
    }
    assert forall|k: int| 0 <= k < 32 implies frame[54 + k] == #[trigger] message[k] by {
        assert(frame.subrange(54, 86)[k] == frame[54 + k]);
    }
    assert(eth[12] == frame[12] && eth[13] == frame[13]);
    assert(frame.subrange(6, 12) =~= eth.subrange(6, 12));
    assert(frame.subrange(0, 6) =~= eth.subrange(0, 6));
    assert(frame[54] == kind && frame[55] == 0);
    assert(frame.subrange(62, 78) =~= message.subrange(8, 24));
    addr::lemma_ipv6_at_bytes(frame, 62, target);
    bytes::lemma_be32_round_trip(flags);
    let word = message.subrange(4, 8);
    assert(word[0] == message[4] && word[1] == message[5] && word[2] == message[6] && word[3]
        == message[7]);
    assert(frame[58] == message[4] && frame[59] == message[5] && frame[60] == message[6] && frame[61]
        == message[7]);
    assert(bytes::be32_at(frame, 58) == bytes::be32_at(word, 0));
    assert(frame[78] == option_type(kind) && frame[79] == 1);
    assert(frame.subrange(80, 86) =~= message.subrange(26, 32));
    assert(find_option(frame, 78, option_type(kind)) == Some(mac));
}

/// A neighbor that asks for an address learns it from the answer: the solicitation
/// for a local address is answered, and the answer teaches where that address is.
pub proof fn law_solicitation_is_answered(
    asker_mac: Seq<u8>,
    asker_ip: Ipv6Addr,
    owner_mac: Seq<u8>,
    owner_ip: Ipv6Addr,
    owner_ips: Seq<Ipv6Addr>,
)
    requires
        asker_mac.len() == 6,
        owner_mac.len() == 6,
        owner_ips.contains(owner_ip),
    ensures
        ({
            let asked = ndp_parse(solicitation_frame(asker_mac, asker_ip, owner_ip));
            &&& asked is Some
            &&& asker_ip != addr::ipv6_unspecified() ==> lesson(asked.unwrap()) == Some(
                (asker_ip, asker_mac),
            )
            &&& answer(asked.unwrap(), owner_mac, owner_ips) is Some
            &&& ({
                let told = ndp_parse(answer(asked.unwrap(), owner_mac, owner_ips).unwrap());
                told is Some && lesson(told.unwrap()) == Some((owner_ip, owner_mac))
            })
        }),
{
    let group = ipv6_addr::solicited_node(owner_ip);
    assert(ipv6_addr::multicast_mac(group).len() == 6);
    law_ndp_round_trip(
        ipv6_addr::multicast_mac(group),
        asker_ip,
        group,
        ICMPV6_TYPE_NEIGHBOR_SOLICITATION,
        0,
        owner_ip,
        asker_mac,
    );
    law_ndp_round_trip(
        asker_mac,
        owner_ip,
        asker_ip,
        ICMPV6_TYPE_NEIGHBOR_ADVERTISEMENT,
        SOLICITED_OVERRIDE,
        owner_ip,
        owner_mac,
    );
}

/// What is found of other addresses once a neighbor was inserted: from then on the neighbor
/// that was seen last before is found by its entry.
proof fn lemma_others_after_insertion(
    before: NdpCache,
    after: NdpCache,
    ip: Ipv6Addr,
    mac: [u8; 6],
    inserted_at: u64,
    other: Ipv6Addr,
    now: u64,
)
    requires
        before.wf(),
        after.inserted(before, ip, mac, inserted_at),
        other != ip,
    ensures
        before.is_settled(other) ==> after.find(other, now) == before.find(other, now),
        after.find(other, now) is Some ==> after.find(other, now) == before.find(other, now),
{
    lemma_cache_key6_injective(other, ip);
    let key = cache_key6(other);
    assert(key != cache_key6(ip));
    assert(after.entries().contains_key(key) == before.entries().contains_key(key));
    assert(after.entries()[key] == before.entries()[key]);
}

/// An inserted address is found for five minutes. Other addresses are found as before; the
/// one that was seen last before by its entry, so that no more is found of it.
pub proof fn law_inserted_neighbor_is_found(
    before: NdpCache,
    after: NdpCache,
    ip: Ipv6Addr,
    mac: [u8; 6],
    inserted_at: u64,
    now: u64,
)
    requires
        before.wf(),
        after.inserted(before, ip, mac, inserted_at),
    ensures
        now - inserted_at <= 300_000_000_000 ==> after.find(ip, now) == Some(mac@),
        now - inserted_at > 300_000_000_000 ==> after.find(ip, now) is None,
        forall|other: Ipv6Addr|
            other != ip && before.is_settled(other) ==> #[trigger] after.find(other, now)
                == before.find(other, now),
        forall|other: Ipv6Addr|
            other != ip && #[trigger] after.find(other, now) is Some ==> after.find(other, now)
                == before.find(other, now),
{
    assert forall|other: Ipv6Addr| other != ip implies ({
        &&& before.is_settled(other) ==> after.find(other, now) == before.find(other, now)
        &&& (#[trigger] after.find(other, now)) is Some ==> after.find(other, now) == before.find(
            other,
            now,
        )
    }) by {
        lemma_others_after_insertion(before, after, ip, mac, inserted_at, other, now);
    }
}

/// A learned address is found at once, and for five minutes from then on; or, if the cache has
/// seen the same neighbor last and still finds it, from when it was seen. Other addresses are
/// found as before; if there was an insertion, the one that was seen last before by its entry.
pub proof fn law_learned_neighbor_is_found(
    before: NdpCache,
    after: NdpCache,
    ip: Ipv6Addr,
    mac: [u8; 6],
    learned_at: u64,
    now: u64,
)
    requires
        before.wf(),
        after.learned(before, ip, mac, learned_at),
    ensures
        ({
            let since = if before.remembers(ip, mac@) && before.find(ip, learned_at) is Some {
                before.recent()->Some_0.timestamp
            } else {
                learned_at
            };
            &&& after.known(ip) == Some(Known { mac: mac@, since })
            &&& learned_at - since <= 300_000_000_000
            &&& now - since <= 300_000_000_000 ==> after.find(ip, now) == Some(mac@)
            &&& now - since > 300_000_000_000 ==> after.find(ip, now) is None
        }),
        after.find(ip, learned_at) == Some(mac@),
        forall|other: Ipv6Addr|
            other != ip && before.is_settled(other) ==> #[trigger] after.find(other, now)
                == before.find(other, now),
        forall|other: Ipv6Addr|
            other != ip && #[trigger] after.find(other, now) is Some ==> after.find(other, now)
                == before.find(other, now),
{
    if before.remembers(ip, mac@) {
        assert forall|other: Ipv6Addr| other != ip implies #[trigger] after.find(other, now)
            == before.find(other, now) by {
            lemma_cache_key6_injective(other, ip);
        }
    } else {
        law_inserted_neighbor_is_found(before, after, ip, mac, learned_at, now);
    }
}

/// A neighbor that the cache has seen last and sees again is not inserted again: the entries
/// stay as they are.
pub proof fn law_unchanged_neighbor_is_not_inserted(
    before: NdpCache,
    after: NdpCache,
    ip: Ipv6Addr,
    mac: [u8; 6],
    now: u64,
)
    requires
        after.learned(before, ip, mac, now),
        before.remembers(ip, mac@),
    ensures
        after.entries() == before.entries(),
        after.remembers(ip, mac@),
{
}

/// A purge does not change what is found from then on: what had expired is not found, and the
/// rest is.
pub proof fn law_purge_keeps_what_is_found(
    before: NdpCache,
    after: NdpCache,
    ip: Ipv6Addr,
    purged_at: u64,
    now: u64,
)
    requires
        after.purged(before, purged_at),
        purged_at <= now,
    ensures
        after.find(ip, now) == before.find(ip, now),
        before.find(ip, purged_at) is None ==> after.find(ip, now) is None,
{
    let key = cache_key6(ip);
    assert(after.entries().contains_key(key) ==> after.entries()[key] == before.entries()[key]);
}

/// A removed address is not found, and the other addresses are found as before.
pub proof fn law_removed_neighbor_is_not_found(
    before: NdpCache,
    after: NdpCache,
    ip: Ipv6Addr,
    now: u64,
)
    requires
        after.removed(before, ip),
    ensures
        after.find(ip, now) is None,
        forall|other: Ipv6Addr|
            other != ip ==> #[trigger] after.find(other, now) == before.find(other, now),
{
    assert forall|other: Ipv6Addr| other != ip implies #[trigger] after.find(other, now)
        == before.find(other, now) by {
        lemma_cache_key6_injective(other, ip);
    }
}

} // verus!
