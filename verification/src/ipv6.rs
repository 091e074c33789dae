//! UDP over IPv6: the fixed header, extension headers, checksums, frame building,
//! parsing and verification.

use vstd::prelude::*;

use crate::addr;
use crate::addr::{read_ipv6, Ipv6Addr};
use crate::bytes;
use crate::bytes::{copy_bytes, high_nibble, push_bytes, read_be16, read_mac, slice_of, truncate16};
use crate::checksum;
use crate::checksum::{checksum_add, fold32, fold_complement_nonzero, sum_add};
use crate::constants::{ETH_HEADER_LEN, IP_PROTO_UDP, MAX_FRAME_SIZE, UDP_HEADER_LEN};
use crate::error::{UdpError, UdpResult};
use crate::udp;
use crate::udp::{checksum_add_blanked, push_eth_header, push_udp_header};
use crate::vlan;
use crate::vlan::{detect_vlan, vlan_id_of};

verus! {

/// Size of the fixed IPv6 header.
pub const IPV6_HEADER_LEN: usize = 40;

/// EtherType of IPv6.
pub const ETH_TYPE_IPV6: u16 = 0x86DD;

/// Header overhead of an untagged UDP frame over IPv6.
pub const TOTAL_HEADER_LEN_V6: usize = 62;

/// Header overhead of a VLAN-tagged UDP frame over IPv6.
pub const TOTAL_HEADER_LEN_V6_VLAN: usize = 66;

/// Largest UDP payload over IPv6 for an MTU of 1500.
pub const MAX_UDP_PAYLOAD_V6: usize = 1452;

/// Next header: Hop-by-Hop Options.
pub const IP_PROTO_HOPOPT: u8 = 0;

/// Next header: Routing.
pub const IP_PROTO_ROUTING: u8 = 43;

/// Next header: Fragment.
pub const IP_PROTO_FRAGMENT: u8 = 44;

/// Next header: ICMPv6.
pub const IP_PROTO_ICMPV6: u8 = 58;

/// Next header: Destination Options.
pub const IP_PROTO_DSTOPTS: u8 = 60;

/// No next header.
pub const IP_PROTO_NONE: u8 = 59;

// ---------------------------------------------------------------------------
// Extension headers
// ---------------------------------------------------------------------------

/// Where the chain of extension headers ends.
#[derive(Debug, Clone, Copy, PartialEq, Eq, Structural)]
pub struct Ipv6NextHeader {
    /// Upper-layer protocol.
    pub protocol: u8,
    /// Offset of the upper-layer header from the start of the IPv6 header.
    pub payload_offset: usize,
}

/// Whether `next` announces an extension header with a length field.
pub open spec fn is_sized_extension(next: u8) -> bool {
    next == IP_PROTO_HOPOPT || next == IP_PROTO_ROUTING || next == IP_PROTO_DSTOPTS
}

/// Length of the extension header of kind `next` at `offset`. A fragment header
/// has 8 bytes; the others tell their length in units of 8 bytes, the first not
/// counted.
pub open spec fn extension_len(data: Seq<u8>, next: u8, offset: int) -> int {
    if next == IP_PROTO_FRAGMENT {
        8
    } else {
        (data[offset + 1] + 1) * 8
    }
}

/// The end of the chain of extension headers that continues at `offset` with a
/// header of kind `next`, `None` if a header runs past the end of `data`.
pub open spec fn chain_end(data: Seq<u8>, next: u8, offset: int) -> Option<Ipv6NextHeader>
    decreases data.len() - offset,
{
    if !is_sized_extension(next) && next != IP_PROTO_FRAGMENT {
        Some(Ipv6NextHeader { protocol: next, payload_offset: offset as usize })
    } else if offset + 2 > data.len() || offset + extension_len(data, next, offset) > data.len() {
        None
    } else {
        chain_end(data, data[offset], offset + extension_len(data, next, offset))
    }
}

/// The upper-layer protocol of the IPv6 packet `data` and its offset.
pub open spec fn upper_layer(data: Seq<u8>) -> Option<Ipv6NextHeader> {
    if data.len() < IPV6_HEADER_LEN {
        None
    } else {
        chain_end(data, data[6], IPV6_HEADER_LEN as int)
    }
}

/// An upper-layer offset lies within the data.
pub proof fn lemma_chain_end_bounds(data: Seq<u8>, next: u8, offset: int)
    requires
        0 <= offset <= data.len(),
        data.len() <= usize::MAX,
    ensures
        chain_end(data, next, offset) matches Some(nh) ==> offset <= nh.payload_offset
            <= data.len(),
    decreases data.len() - offset,
{
    if is_sized_extension(next) || next == IP_PROTO_FRAGMENT {
        let len = extension_len(data, next, offset);
        if offset + 2 <= data.len() && offset + len <= data.len() {
            lemma_chain_end_bounds(data, data[offset], offset + len);
        }
    }
}

/// Follows the chain of extension headers of the IPv6 packet `data` to the
/// upper-layer header. Gives `None` if a header is cut off.
pub fn walk_extension_headers(data: &[u8]) -> (r: Option<Ipv6NextHeader>)
    ensures
        r == upper_layer(data@),
        r matches Some(nh) ==> IPV6_HEADER_LEN <= nh.payload_offset <= data@.len(),
{
    if data.len() < IPV6_HEADER_LEN {
        return None;
    }
    let mut next: u8 = data[6];
    let mut offset: usize = IPV6_HEADER_LEN;
    proof {
        lemma_chain_end_bounds(data@, next, offset as int);
    }
    loop
        invariant
            IPV6_HEADER_LEN <= offset <= data@.len(),
            chain_end(data@, next, offset as int) == upper_layer(data@),
        decreases data@.len() - offset,
    {
        if next == IP_PROTO_HOPOPT || next == IP_PROTO_ROUTING || next == IP_PROTO_DSTOPTS {
            if data.len() - offset < 2 {
                return None;
            }
            let ext_len: usize = (data[offset + 1] as usize + 1) * 8;
            if data.len() - offset < ext_len {
                return None;
            }
            next = data[offset];
            offset = offset + ext_len;
        } else if next == IP_PROTO_FRAGMENT {
            if data.len() - offset < 8 {
                return None;
            }
            next = data[offset];
            offset = offset + 8;
        } else {
            return Some(Ipv6NextHeader { protocol: next, payload_offset: offset });
        }
    }
}

// ---------------------------------------------------------------------------
// Wire format
// ---------------------------------------------------------------------------

/// A fixed IPv6 header with traffic class and flow label 0.
pub open spec fn ipv6_header(
    payload_len: u16,
    next_header: u8,
    hop_limit: u8,
    src_ip: Ipv6Addr,
    dst_ip: Ipv6Addr,
) -> Seq<u8> {
    seq![
        0x60u8,
        0u8,
        0u8,
        0u8,
        (payload_len / 256) as u8,
        (payload_len % 256) as u8,
        next_header,
        hop_limit,
    ] + src_ip.bytes() + dst_ip.bytes()
}

/// The IPv6 pseudo-header sum: addresses, the two halves of the 32-bit length,
/// and the next header.
pub open spec fn pseudo_sum6(src_ip: Ipv6Addr, dst_ip: Ipv6Addr, len: int, next_header: u8) -> int {
    checksum::word_sum(src_ip.bytes()) + checksum::word_sum(dst_ip.bytes()) + checksum::wrapped(len)
        / 0x1_0000 + checksum::wrapped(len) % 0x1_0000 + next_header
}

/// What the UDP checksum over IPv6 adds up.
pub open spec fn udp6_sum(
    src_ip: Ipv6Addr,
    dst_ip: Ipv6Addr,
    header: Seq<u8>,
    payload: Seq<u8>,
) -> int {
    pseudo_sum6(src_ip, dst_ip, UDP_HEADER_LEN + payload.len(), IP_PROTO_UDP)
        + checksum::word_sum(checksum::blanked(header, 6)) + checksum::word_sum(payload)
}

/// The UDP checksum over IPv6, never zero.
pub open spec fn udp6_cksum(
    src_ip: Ipv6Addr,
    dst_ip: Ipv6Addr,
    header: Seq<u8>,
    payload: Seq<u8>,
) -> u16 {
    checksum::complement_nonzero(udp6_sum(src_ip, dst_ip, header, payload))
}

/// What the checksum of an upper-layer message adds up: the pseudo-header and the
/// message with its checksum field, at offset `field`, read as zero.
pub open spec fn message_sum6(
    src_ip: Ipv6Addr,
    dst_ip: Ipv6Addr,
    next_header: u8,
    message: Seq<u8>,
    field: int,
) -> int {
    pseudo_sum6(src_ip, dst_ip, message.len() as int, next_header) + checksum::word_sum(
        checksum::blanked(message, field),
    )
}

/// A UDP datagram over IPv6 with its checksum.
pub open spec fn udp6_datagram(
    src_ip: Ipv6Addr,
    dst_ip: Ipv6Addr,
    src_port: u16,
    dst_port: u16,
    payload: Seq<u8>,
) -> Seq<u8> {
    let udp_len = ((UDP_HEADER_LEN + payload.len()) % 0x1_0000) as u16;
    let cksum = udp6_cksum(
        src_ip,
        dst_ip,
        udp::udp_header(src_port, dst_port, udp_len, 0),
        payload,
    );
    udp::udp_header(src_port, dst_port, udp_len, cksum) + payload
}

/// An IPv6 packet that carries a UDP datagram.
pub open spec fn udp6_packet(
    src_ip: Ipv6Addr,
    dst_ip: Ipv6Addr,
    src_port: u16,
    dst_port: u16,
    payload: Seq<u8>,
    hop_limit: u8,
) -> Seq<u8> {
    ipv6_header(
        ((UDP_HEADER_LEN + payload.len()) % 0x1_0000) as u16,
        IP_PROTO_UDP,
        hop_limit,
        src_ip,
        dst_ip,
    ) + udp6_datagram(src_ip, dst_ip, src_port, dst_port, payload)
}

/// An Ethernet frame that carries a UDP datagram over IPv6.
pub open spec fn udp6_frame(
    src_mac: Seq<u8>,
    dst_mac: Seq<u8>,
    src_ip: Ipv6Addr,
    dst_ip: Ipv6Addr,
    src_port: u16,
    dst_port: u16,
    payload: Seq<u8>,
    hop_limit: u8,
) -> Seq<u8> {
    udp::eth_header(dst_mac, src_mac, ETH_TYPE_IPV6) + udp6_packet(
        src_ip,
        dst_ip,
        src_port,
        dst_port,
        payload,
        hop_limit,
    )
}

/// Largest payload of a frame.
pub open spec fn max_payload6() -> int {
    MAX_FRAME_SIZE - TOTAL_HEADER_LEN_V6
}

// ---------------------------------------------------------------------------
// Checksums
// ---------------------------------------------------------------------------

/// Adds the IPv6 pseudo-header to a running sum.
pub fn add_pseudo_header6(
    sum: &mut u32,
    src_ip: &Ipv6Addr,
    dst_ip: &Ipv6Addr,
    len: u32,
    next_header: u8,
)
    ensures
        *final(sum) == checksum::wrapped(
            *old(sum) + pseudo_sum6(*src_ip, *dst_ip, len as int, next_header),
        ),
{
    checksum_add(sum, &src_ip.octets());
    checksum_add(sum, &dst_ip.octets());
    *sum = sum_add(*sum, len / 0x1_0000);
    *sum = sum_add(*sum, len % 0x1_0000);
    *sum = sum_add(*sum, next_header as u32);
    proof {
        let s0 = *old(sum) as int;
        let s1 = s0 + checksum::word_sum(src_ip.bytes());
        let s2 = s1 + checksum::word_sum(dst_ip.bytes());
        let s3 = s2 + len / 0x1_0000;
        let s4 = s3 + len % 0x1_0000;
        checksum::lemma_wrapped_add(s1, checksum::word_sum(dst_ip.bytes()));
        checksum::lemma_wrapped_add(s2, (len / 0x1_0000) as int);
        checksum::lemma_wrapped_add(s3, (len % 0x1_0000) as int);
        checksum::lemma_wrapped_add(s4, next_header as int);
    }
}

/// The UDP checksum over the IPv6 pseudo-header, the UDP header without its
/// checksum field, and the payload. A computed 0 is given as 0xFFFF.
pub fn udp6_checksum(
    src_ip: &Ipv6Addr,
    dst_ip: &Ipv6Addr,
    udp_header: &[u8],
    payload: &[u8],
) -> (r: u16)
    requires
        payload@.len() + UDP_HEADER_LEN <= usize::MAX,
    ensures
        r == udp6_cksum(*src_ip, *dst_ip, udp_header@, payload@),
        r != 0,
{
    let mut sum: u32 = 0;
    let udp_len: u32 = ((UDP_HEADER_LEN + payload.len()) as u64 % 0x1_0000_0000) as u32;
    add_pseudo_header6(&mut sum, src_ip, dst_ip, udp_len, IP_PROTO_UDP);
    checksum_add_blanked(&mut sum, udp_header, 6);
    checksum_add(&mut sum, payload);
    proof {
        let p = pseudo_sum6(*src_ip, *dst_ip, udp_len as int, IP_PROTO_UDP);
        let head = checksum::word_sum(checksum::blanked(udp_header@, 6));
        let data = checksum::word_sum(payload@);
        checksum::lemma_wrapped_add(UDP_HEADER_LEN + payload@.len(), 0);
        checksum::lemma_wrapped_add(p, head);
        checksum::lemma_wrapped_add(p + head, data);
        checksum::lemma_wrapped_add(p + head + data, 0);
    }
    fold_complement_nonzero(sum)
}

/// The checksum of an upper-layer message whose checksum field is at offset
/// `field`. A computed 0 is given as 0xFFFF.
pub fn message_checksum6(
    src_ip: &Ipv6Addr,
    dst_ip: &Ipv6Addr,
    next_header: u8,
    message: &[u8],
    field: usize,
) -> (r: u16)
    requires
        field % 2 == 0,
    ensures
        r == checksum::complement_nonzero(
            message_sum6(*src_ip, *dst_ip, next_header, message@, field as int),
        ),
        r != 0,
{
    let mut sum: u32 = 0;
    let len: u32 = (message.len() as u64 % 0x1_0000_0000) as u32;
    add_pseudo_header6(&mut sum, src_ip, dst_ip, len, next_header);
    checksum_add_blanked(&mut sum, message, field);
    proof {
        let p = pseudo_sum6(*src_ip, *dst_ip, len as int, next_header);
        let body = checksum::word_sum(checksum::blanked(message@, field as int));
        checksum::lemma_wrapped_add(message@.len() as int, 0);
        checksum::lemma_wrapped_add(p, body);
        checksum::lemma_wrapped_add(p + body, 0);
    }
    fold_complement_nonzero(sum)
}

/// The folded pseudo-header sum, not complemented, for a NIC that computes the
/// UDP checksum.
pub fn udp6_pseudo_header_checksum(src_ip: &Ipv6Addr, dst_ip: &Ipv6Addr, udp_len: u32) -> (r: u16)
    ensures
        r == checksum::folded(
            checksum::wrapped(pseudo_sum6(*src_ip, *dst_ip, udp_len as int, IP_PROTO_UDP)),
        ),
{
    let mut sum: u32 = 0;
    add_pseudo_header6(&mut sum, src_ip, dst_ip, udp_len, IP_PROTO_UDP);
    fold32(sum)
}

// ---------------------------------------------------------------------------
// Building
// ---------------------------------------------------------------------------

/// Appends a fixed IPv6 header.
pub fn push_ipv6_header(
    out: &mut Vec<u8>,
    payload_len: u16,
    next_header: u8,
    hop_limit: u8,
    src_ip: &Ipv6Addr,
    dst_ip: &Ipv6Addr,
)
    ensures
        final(out)@ == old(out)@ + ipv6_header(
            payload_len,
            next_header,
            hop_limit,
            *src_ip,
            *dst_ip,
        ),
{
    let head = [
        0x60u8,
        0u8,
        0u8,
        0u8,
        bytes::high_byte(payload_len),
        bytes::low_byte(payload_len),
        next_header,
        hop_limit,
    ];
    push_bytes(out, &head);
    push_bytes(out, &src_ip.octets());
    push_bytes(out, &dst_ip.octets());
    assert(head@ =~= seq![
        0x60u8,
        0u8,
        0u8,
        0u8,
        (payload_len / 256) as u8,
        (payload_len % 256) as u8,
        next_header,
        hop_limit,
    ]);
    assert(out@ =~= old(out)@ + ipv6_header(payload_len, next_header, hop_limit, *src_ip, *dst_ip));
}

/// Appends an IPv6 packet that carries a UDP datagram.
pub fn push_udp6_packet(
    out: &mut Vec<u8>,
    src_ip: &Ipv6Addr,
    dst_ip: &Ipv6Addr,
    src_port: u16,
    dst_port: u16,
    payload: &[u8],
    hop_limit: u8,
)
    requires
        payload@.len() + UDP_HEADER_LEN <= usize::MAX,
    ensures
        final(out)@ == old(out)@ + udp6_packet(
            *src_ip,
            *dst_ip,
            src_port,
            dst_port,
            payload@,
            hop_limit,
        ),
{
    let udp_len = truncate16(UDP_HEADER_LEN + payload.len());
    push_ipv6_header(out, udp_len, IP_PROTO_UDP, hop_limit, src_ip, dst_ip);
    let mut blank: Vec<u8> = Vec::new();
    push_udp_header(&mut blank, src_port, dst_port, udp_len, 0);
    assert(blank@ =~= udp::udp_header(src_port, dst_port, udp_len, 0));
    let cksum = udp6_checksum(src_ip, dst_ip, blank.as_slice(), payload);
    push_udp_header(out, src_port, dst_port, udp_len, cksum);
    push_bytes(out, payload);
    assert(out@ =~= old(out)@ + udp6_packet(
        *src_ip,
        *dst_ip,
        src_port,
        dst_port,
        payload@,
        hop_limit,
    ));
}

/// Replaces the contents of `out` by a UDP frame over IPv6.
pub fn write_udp6_frame(
    out: &mut Vec<u8>,
    src_mac: &[u8; 6],
    dst_mac: &[u8; 6],
    src_ip: Ipv6Addr,
    dst_ip: Ipv6Addr,
    src_port: u16,
    dst_port: u16,
    payload: &[u8],
    hop_limit: u8,
)
    requires
        payload@.len() + UDP_HEADER_LEN <= usize::MAX,
    ensures
        final(out)@ == udp6_frame(
            src_mac@,
            dst_mac@,
            src_ip,
            dst_ip,
            src_port,
            dst_port,
            payload@,
            hop_limit,
        ),
        final(out)@.len() == TOTAL_HEADER_LEN_V6 + payload@.len(),
{
    out.clear();
    push_eth_header(out, dst_mac, src_mac, ETH_TYPE_IPV6);
    push_udp6_packet(out, &src_ip, &dst_ip, src_port, dst_port, payload, hop_limit);
    assert(out@ =~= udp6_frame(
        src_mac@,
        dst_mac@,
        src_ip,
        dst_ip,
        src_port,
        dst_port,
        payload@,
        hop_limit,
    ));
}

/// Builds a UDP frame over IPv6 into `out`, reusing its allocation, and returns
/// the frame length.
pub fn build_udp6_frame_into(
    out: &mut Vec<u8>,
    src_mac: &[u8; 6],
    dst_mac: &[u8; 6],
    src_ip: Ipv6Addr,
    dst_ip: Ipv6Addr,
    src_port: u16,
    dst_port: u16,
    payload: &[u8],
    hop_limit: u8,
) -> (r: UdpResult<usize>)
    ensures
        payload@.len() <= max_payload6() ==> {
            &&& r == Ok::<usize, UdpError>((TOTAL_HEADER_LEN_V6 + payload@.len()) as usize)
            &&& final(out)@ == udp6_frame(
                src_mac@,
                dst_mac@,
                src_ip,
                dst_ip,
                src_port,
                dst_port,
                payload@,
                hop_limit,
            )
            &&& final(out)@.len() == TOTAL_HEADER_LEN_V6 + payload@.len()
        },
        payload@.len() > max_payload6() ==> {
            &&& r == Err::<usize, UdpError>(
                udp::payload_too_large(max_payload6(), payload@.len() as int),
            )
            &&& final(out)@ == old(out)@
        },
{
    let max_len: usize = MAX_FRAME_SIZE - TOTAL_HEADER_LEN_V6;
    if payload.len() > max_len {
        return Err(UdpError::PayloadTooLarge { max: max_len, actual: payload.len() });
    }
    write_udp6_frame(
        out,
        src_mac,
        dst_mac,
        src_ip,
        dst_ip,
        src_port,
        dst_port,
        payload,
        hop_limit,
    );
    Ok(TOTAL_HEADER_LEN_V6 + payload.len())
}

/// Builds a UDP frame over IPv6 into a vector of its own.
pub fn build_udp6_frame(
    src_mac: &[u8; 6],
    dst_mac: &[u8; 6],
    src_ip: Ipv6Addr,
    dst_ip: Ipv6Addr,
    src_port: u16,
    dst_port: u16,
    payload: &[u8],
    hop_limit: u8,
) -> (r: UdpResult<Vec<u8>>)
    ensures
        match r {
            Ok(frame) => payload@.len() <= max_payload6() && frame@ == udp6_frame(
                src_mac@,
                dst_mac@,
                src_ip,
                dst_ip,
                src_port,
                dst_port,
                payload@,
                hop_limit,
            ),
            Err(e) => payload@.len() > max_payload6() && e == udp::payload_too_large(
                max_payload6(),
                payload@.len() as int,
            ),
        },
{
    let mut frame: Vec<u8> = Vec::new();
    match build_udp6_frame_into(
        &mut frame,
        src_mac,
        dst_mac,
        src_ip,
        dst_ip,
        src_port,
        dst_port,
        payload,
        hop_limit,
    ) {
        Ok(_) => Ok(frame),
        Err(e) => Err(e),
    }
}

// ---------------------------------------------------------------------------
// Parsing
// ---------------------------------------------------------------------------

/// A parsed UDP datagram over IPv6 that owns its payload.
#[derive(Debug, Clone)]
pub struct ParsedUdp6Packet {
    pub src_mac: [u8; 6],
    pub dst_mac: [u8; 6],
    pub src_ip: Ipv6Addr,
    pub dst_ip: Ipv6Addr,
    pub src_port: u16,
    pub dst_port: u16,
    pub payload: Vec<u8>,
    pub vlan_id: Option<u16>,
}

/// A parsed UDP datagram over IPv6 that borrows its payload from the frame.
#[derive(Debug)]
pub struct ParsedUdp6PacketRef<'a> {
    pub src_mac: [u8; 6],
    pub src_ip: Ipv6Addr,
    pub dst_ip: Ipv6Addr,
    pub src_port: u16,
    pub dst_port: u16,
    pub payload: &'a [u8],
    pub vlan_id: Option<u16>,
}

/// The offset, in `frame`, of the header of protocol `protocol` that the IPv6
/// packet at `l3` carries; `None` if it carries another or is cut off.
pub open spec fn upper_layer_at(frame: Seq<u8>, l3: int, protocol: u8) -> Option<int> {
    match upper_layer(frame.subrange(l3, frame.len() as int)) {
        Some(nh) => if nh.protocol == protocol {
            Some(l3 + nh.payload_offset)
        } else {
            None
        },
        None => None,
    }
}

/// Where the IPv6 header of a version-6 frame starts.
pub open spec fn ipv6_start(frame: Seq<u8>) -> Option<int> {
    match vlan::layout_of(frame, None) {
        Some(layout) => if layout.ethertype == ETH_TYPE_IPV6 && layout.l3_offset + IPV6_HEADER_LEN
            <= frame.len() && frame[layout.l3_offset as int] / 16 == 6 {
            Some(layout.l3_offset as int)
        } else {
            None
        },
        None => None,
    }
}

/// Whether `frame` is an Ethernet frame, tagged or not, with a whole UDP datagram
/// over IPv6.
pub open spec fn is_udp6_frame(frame: Seq<u8>) -> bool {
    match ipv6_start(frame) {
        Some(l3) => match upper_layer_at(frame, l3, IP_PROTO_UDP) {
            Some(start) => udp::holds_udp_at(frame, start),
            None => false,
        },
        None => false,
    }
}

/// The fields of the UDP frame over IPv6 `frame`.
pub open spec fn udp6_fields(
    frame: Seq<u8>,
    src_mac: Seq<u8>,
    src_ip: Ipv6Addr,
    dst_ip: Ipv6Addr,
    src_port: u16,
    dst_port: u16,
    payload: Seq<u8>,
    vlan_id: Option<u16>,
) -> bool {
    let l3 = ipv6_start(frame)->Some_0;
    let start = upper_layer_at(frame, l3, IP_PROTO_UDP)->Some_0;
    &&& src_mac == frame.subrange(6, 12)
    &&& src_ip == addr::ipv6_at(frame, l3 + 8)
    &&& dst_ip == addr::ipv6_at(frame, l3 + 24)
    &&& src_port == bytes::be16_at(frame, start)
    &&& dst_port == bytes::be16_at(frame, start + 2)
    &&& payload == udp::udp_payload_at(frame, start)
    &&& vlan_id == vlan::layout_vid(vlan::layout_of(frame, None)->Some_0)
}

impl ParsedUdp6Packet {
    /// Whether this is what the UDP frame `frame` says.
    pub open spec fn describes(self, frame: Seq<u8>) -> bool {
        &&& self.dst_mac@ == frame.subrange(0, 6)
        &&& udp6_fields(
            frame,
            self.src_mac@,
            self.src_ip,
            self.dst_ip,
            self.src_port,
            self.dst_port,
            self.payload@,
            self.vlan_id,
        )
    }
}

impl<'a> ParsedUdp6PacketRef<'a> {
    /// Whether this is what the UDP frame `frame` says.
    pub open spec fn describes(self, frame: Seq<u8>) -> bool {
        udp6_fields(
            frame,
            self.src_mac@,
            self.src_ip,
            self.dst_ip,
            self.src_port,
            self.dst_port,
            self.payload@,
            self.vlan_id,
        )
    }
}

/// Finds the header of protocol `protocol` in the IPv6 packet at `l3`.
pub fn find_upper_layer(frame: &[u8], l3: usize, protocol: u8) -> (r: Option<usize>)
    requires
        l3 <= frame@.len(),
    ensures
        match r {
            Some(start) => upper_layer_at(frame@, l3 as int, protocol) == Some(start as int) && l3
                + IPV6_HEADER_LEN <= start <= frame@.len(),
            None => upper_layer_at(frame@, l3 as int, protocol) is None,
        },
{
    match walk_extension_headers(slice_of(frame, l3, frame.len())) {
        Some(nh) => if nh.protocol == protocol {
            Some(l3 + nh.payload_offset)
        } else {
            None
        },
        None => None,
    }
}

/// Finds the IPv6 header of a version-6 frame.
pub fn find_ipv6(frame: &[u8]) -> (r: Option<usize>)
    ensures
        match r {
            Some(l3) => ipv6_start(frame@) == Some(l3 as int) && l3 + IPV6_HEADER_LEN
                <= frame@.len() && l3 >= ETH_HEADER_LEN,
            None => ipv6_start(frame@) is None,
        },
{
    let layout = match detect_vlan(frame, None) {
        Some(layout) => layout,
        None => return None,
    };
    let l3: usize = layout.l3_offset;
    if layout.ethertype != ETH_TYPE_IPV6 {
        return None;
    }
    if frame.len() < l3 + IPV6_HEADER_LEN {
        return None;
    }
    if high_nibble(frame[l3]) != 6 {
        return None;
    }
    Some(l3)
}

/// Parses a UDP frame over IPv6, tagged or not, borrowing its payload.
pub fn parse_udp6_packet_ref(frame: &[u8]) -> (r: Option<ParsedUdp6PacketRef<'_>>)
    ensures
        r is Some <==> is_udp6_frame(frame@),
        r matches Some(p) ==> p.describes(frame@),
{
    let l3: usize = match find_ipv6(frame) {
        Some(l3) => l3,
        None => return None,
    };
    let start: usize = match find_upper_layer(frame, l3, IP_PROTO_UDP) {
        Some(start) => start,
        None => return None,
    };
    if frame.len() - start < UDP_HEADER_LEN {
        return None;
    }
    let udp_len: usize = read_be16(frame, start + 4) as usize;
    if udp_len < UDP_HEADER_LEN || frame.len() - start < udp_len {
        return None;
    }
    let vlan_id = match detect_vlan(frame, None) {
        Some(layout) => vlan_id_of(&layout),
        None => None,
    };
    Some(
        ParsedUdp6PacketRef {
            src_mac: read_mac(frame, 6),
            src_ip: read_ipv6(frame, l3 + 8),
            dst_ip: read_ipv6(frame, l3 + 24),
            src_port: read_be16(frame, start),
            dst_port: read_be16(frame, start + 2),
            payload: slice_of(frame, start + UDP_HEADER_LEN, start + udp_len),
            vlan_id,
        },
    )
}

/// Parses a UDP frame over IPv6, tagged or not.
pub fn parse_udp6_packet(frame: &[u8]) -> (r: Option<ParsedUdp6Packet>)
    ensures
        r is Some <==> is_udp6_frame(frame@),
        r matches Some(p) ==> p.describes(frame@),
{
    match parse_udp6_packet_ref(frame) {
        Some(p) => Some(
            ParsedUdp6Packet {
                src_mac: p.src_mac,
                dst_mac: read_mac(frame, 0),
                src_ip: p.src_ip,
                dst_ip: p.dst_ip,
                src_port: p.src_port,
                dst_port: p.dst_port,
                payload: copy_bytes(p.payload),
                vlan_id: p.vlan_id,
            },
        ),
        None => None,
    }
}

/// Whether the frame carries a whole UDP datagram over IPv6 whose stored checksum
/// is not zero and is the one computed. The version nibble is not looked at.
pub open spec fn udp6_cksum_valid(frame: Seq<u8>) -> bool {
    match vlan::layout_of(frame, None) {
        Some(layout) => {
            let l3 = layout.l3_offset as int;
            &&& layout.ethertype == ETH_TYPE_IPV6
            &&& l3 + IPV6_HEADER_LEN <= frame.len()
            &&& upper_layer_at(frame, l3, IP_PROTO_UDP) matches Some(start) && {
                &&& udp::holds_udp_at(frame, start)
                &&& bytes::be16_at(frame, start + 6) != 0
                &&& bytes::be16_at(frame, start + 6) == udp6_cksum(
                    addr::ipv6_at(frame, l3 + 8),
                    addr::ipv6_at(frame, l3 + 24),
                    frame.subrange(start, start + UDP_HEADER_LEN),
                    udp::udp_payload_at(frame, start),
                )
            }
        },
        None => false,
    }
}

/// Verifies the UDP checksum of a frame over IPv6. A zero checksum field is
/// invalid there.
pub fn verify_udp6_checksum(frame: &[u8]) -> (r: bool)
    ensures
        r == udp6_cksum_valid(frame@),
{
    let layout = match detect_vlan(frame, None) {
        Some(layout) => layout,
        None => return false,
    };
    if layout.ethertype != ETH_TYPE_IPV6 {
        return false;
    }
    let l3: usize = layout.l3_offset;
    if frame.len() < l3 + IPV6_HEADER_LEN {
        return false;
    }
    let start: usize = match find_upper_layer(frame, l3, IP_PROTO_UDP) {
        Some(start) => start,
        None => return false,
    };
    if frame.len() - start < UDP_HEADER_LEN {
        return false;
    }
    let stored = read_be16(frame, start + 6);
    if stored == 0 {
        return false;
    }
    let udp_len: usize = read_be16(frame, start + 4) as usize;
    if udp_len < UDP_HEADER_LEN || frame.len() - start < udp_len {
        return false;
    }
    let src_ip = read_ipv6(frame, l3 + 8);
    let dst_ip = read_ipv6(frame, l3 + 24);
    let header = slice_of(frame, start, start + UDP_HEADER_LEN);
    let payload = slice_of(frame, start + UDP_HEADER_LEN, start + udp_len);
    udp6_checksum(&src_ip, &dst_ip, header, payload) == stored
}

// ---------------------------------------------------------------------------
// Laws
// ---------------------------------------------------------------------------

/// What an IPv6 header says of itself wherever it stands in a frame, when what
/// follows is not an extension header.
pub proof fn lemma_ipv6_header_at(
    pre: Seq<u8>,
    payload_len: u16,
    next_header: u8,
    hop_limit: u8,
    src_ip: Ipv6Addr,
    dst_ip: Ipv6Addr,
    rest: Seq<u8>,
)
    requires
        !is_sized_extension(next_header),
        next_header != IP_PROTO_FRAGMENT,
    ensures
        ({
            let frame = pre + (ipv6_header(payload_len, next_header, hop_limit, src_ip, dst_ip)
                + rest);
            let l3 = pre.len() as int;
            &&& frame.len() == l3 + 40 + rest.len()
            &&& frame[l3] / 16 == 6
            &&& frame[l3 + 6] == next_header
            &&& frame[l3 + 7] == hop_limit
            &&& bytes::be16_at(frame, l3 + 4) == payload_len
            &&& addr::ipv6_at(frame, l3 + 8) == src_ip
            &&& addr::ipv6_at(frame, l3 + 24) == dst_ip
            &&& upper_layer_at(frame, l3, next_header) == Some(l3 + 40)
            &&& frame.subrange(l3 + 40, frame.len() as int) == rest
        }),
{
    let header = ipv6_header(payload_len, next_header, hop_limit, src_ip, dst_ip);
    let frame = pre + (header + rest);
    let l3 = pre.len() as int;
    assert(header.len() == 40);
    assert(frame[l3] == header[0]);
    assert(frame[l3 + 4] == header[4]);
    assert(frame[l3 + 5] == header[5]);
    assert(frame[l3 + 6] == header[6]);
    assert(frame[l3 + 7] == header[7]);
    assert(frame.subrange(l3 + 8, l3 + 24) =~= src_ip.bytes());
    assert(frame.subrange(l3 + 24, l3 + 40) =~= dst_ip.bytes());
    addr::lemma_ipv6_at_bytes(frame, l3 + 8, src_ip);
    addr::lemma_ipv6_at_bytes(frame, l3 + 24, dst_ip);
    assert(frame.subrange(l3 + 40, frame.len() as int) =~= rest);
    let data = frame.subrange(l3, frame.len() as int);
    assert(data[6] == frame[l3 + 6]);
}

/// What an IPv6 packet with a UDP datagram says of itself wherever it stands in a
/// frame.
pub proof fn lemma_udp6_packet_at(
    pre: Seq<u8>,
    src_ip: Ipv6Addr,
    dst_ip: Ipv6Addr,
    src_port: u16,
    dst_port: u16,
    payload: Seq<u8>,
    hop_limit: u8,
)
    requires
        UDP_HEADER_LEN + payload.len() <= 0xFFFF,
    ensures
        ({
            let frame = pre + udp6_packet(
                src_ip,
                dst_ip,
                src_port,
                dst_port,
                payload,
                hop_limit,
            );
            let l3 = pre.len() as int;
            let start = l3 + 40;
            &&& frame.len() == l3 + 48 + payload.len()
            &&& frame[l3] / 16 == 6
            &&& frame[l3 + 6] == IP_PROTO_UDP
            &&& upper_layer_at(frame, l3, IP_PROTO_UDP) == Some(start)
            &&& addr::ipv6_at(frame, l3 + 8) == src_ip
            &&& addr::ipv6_at(frame, l3 + 24) == dst_ip
            &&& udp::holds_udp_at(frame, start)
            &&& bytes::be16_at(frame, start) == src_port
            &&& bytes::be16_at(frame, start + 2) == dst_port
            &&& udp::udp_payload_at(frame, start) == payload
            &&& bytes::be16_at(frame, start + 6) == udp6_cksum(
                src_ip,
                dst_ip,
                frame.subrange(start, start + 8),
                payload,
            )
        }),
{
    let udp_len = ((UDP_HEADER_LEN + payload.len()) % 0x1_0000) as u16;
    let blank = udp::udp_header(src_port, dst_port, udp_len, 0);
    let cksum = udp6_cksum(src_ip, dst_ip, blank, payload);
    let header = udp::udp_header(src_port, dst_port, udp_len, cksum);
    let datagram = header + payload;
    lemma_ipv6_header_at(pre, udp_len, IP_PROTO_UDP, hop_limit, src_ip, dst_ip, datagram);
    let frame = pre + udp6_packet(src_ip, dst_ip, src_port, dst_port, payload, hop_limit);
    let start = pre.len() as int + 40;
    let rest = frame.subrange(start, frame.len() as int);
    assert(rest == datagram);
    bytes::lemma_be16_round_trip(src_port);
    bytes::lemma_be16_round_trip(dst_port);
    bytes::lemma_be16_round_trip(udp_len);
    bytes::lemma_be16_round_trip(cksum);
    assert(frame[start] == rest[0] && rest[0] == bytes::be16_bytes(src_port)[0]);
    assert(frame[start + 1] == rest[1] && rest[1] == bytes::be16_bytes(src_port)[1]);
    assert(frame[start + 2] == rest[2] && rest[2] == bytes::be16_bytes(dst_port)[0]);
    assert(frame[start + 3] == rest[3] && rest[3] == bytes::be16_bytes(dst_port)[1]);
    assert(frame[start + 4] == rest[4] && rest[4] == bytes::be16_bytes(udp_len)[0]);
    assert(frame[start + 5] == rest[5] && rest[5] == bytes::be16_bytes(udp_len)[1]);
    assert(frame[start + 6] == rest[6] && rest[6] == bytes::be16_bytes(cksum)[0]);
    assert(frame[start + 7] == rest[7] && rest[7] == bytes::be16_bytes(cksum)[1]);
    assert(frame.subrange(start, start + 8) =~= header) by {
        assert(header.len() == 8);
        assert(forall|k: int| 0 <= k < 8 ==> frame[start + k] == #[trigger] rest[k]);
        assert(forall|k: int| 0 <= k < 8 ==> rest[k] == #[trigger] header[k]);
    }
    assert(udp::udp_payload_at(frame, start) =~= payload) by {
        assert(forall|k: int|
            0 <= k < payload.len() ==> frame[start + 8 + k] == #[trigger] rest[8 + k]);
        assert(forall|k: int| 0 <= k < payload.len() ==> rest[8 + k] == #[trigger] payload[k]);
    }
    udp::lemma_udp_header_blanked(src_port, dst_port, udp_len, cksum);
    udp::lemma_udp_header_blanked(src_port, dst_port, udp_len, 0);
}

/// A built frame parses back to what it was built from, and its checksum
/// verifies.
pub proof fn law_udp6_frame_round_trip(
    src_mac: [u8; 6],
    dst_mac: [u8; 6],
    src_ip: Ipv6Addr,
    dst_ip: Ipv6Addr,
    src_port: u16,
    dst_port: u16,
    payload: Seq<u8>,
    hop_limit: u8,
)
    requires
        payload.len() <= max_payload6(),
    ensures
        ({
            let frame = udp6_frame(
                src_mac@,
                dst_mac@,
                src_ip,
                dst_ip,
                src_port,
                dst_port,
                payload,
                hop_limit,
            );
            &&& is_udp6_frame(frame)
            &&& udp6_cksum_valid(frame)
            &&& forall|p: ParsedUdp6Packet| #[trigger]
                p.describes(frame) <==> {
                    &&& p.src_mac@ == src_mac@
                    &&& p.dst_mac@ == dst_mac@
                    &&& p.src_ip == src_ip
                    &&& p.dst_ip == dst_ip
                    &&& p.src_port == src_port
                    &&& p.dst_port == dst_port
                    &&& p.payload@ == payload
                    &&& p.vlan_id is None
                }
        }),
{
    let eth = udp::eth_header(dst_mac@, src_mac@, ETH_TYPE_IPV6);
    let frame = udp6_frame(
        src_mac@,
        dst_mac@,
        src_ip,
        dst_ip,
        src_port,
        dst_port,
        payload,
        hop_limit,
    );
    lemma_udp6_packet_at(eth, src_ip, dst_ip, src_port, dst_port, payload, hop_limit);
    bytes::lemma_be16_round_trip(ETH_TYPE_IPV6);
    assert(frame[12] == bytes::be16_bytes(ETH_TYPE_IPV6)[0]);
    assert(frame[13] == bytes::be16_bytes(ETH_TYPE_IPV6)[1]);
    assert(frame.subrange(0, 6) =~= dst_mac@);
    assert(frame.subrange(6, 12) =~= src_mac@);
}

/// Bytes behind do not change where the extension headers end.
proof fn lemma_chain_end_padded(data: Seq<u8>, pad: Seq<u8>, next: u8, offset: int)
    requires
        0 <= offset <= data.len(),
        chain_end(data, next, offset) is Some,
    ensures
        chain_end(data + pad, next, offset) == chain_end(data, next, offset),
    decreases data.len() - offset,
{
    if is_sized_extension(next) || next == IP_PROTO_FRAGMENT {
        let len = extension_len(data, next, offset);
        assert((data + pad)[offset] == data[offset]);
        assert(extension_len(data + pad, next, offset) == len);
        lemma_chain_end_padded(data, pad, data[offset], offset + len);
    }
}

/// Bytes behind a packet do not change where its upper-layer header is found.
pub proof fn law_bytes_behind_leave_the_upper_layer(data: Seq<u8>, pad: Seq<u8>)
    requires
        upper_layer(data) is Some,
    ensures
        upper_layer(data + pad) == upper_layer(data),
{
    assert((data + pad)[6] == data[6]);
    lemma_chain_end_padded(data, pad, data[6], IPV6_HEADER_LEN as int);
}

/// Whether `header` is a whole extension header of kind `kind`: a fragment header of 8 bytes,
/// or one that tells its own length.
pub open spec fn is_extension(kind: u8, header: Seq<u8>) -> bool {
    if kind == IP_PROTO_FRAGMENT {
        header.len() == 8
    } else {
        is_sized_extension(kind) && header.len() >= 8 && header.len() == (header[1] + 1) * 8
    }
}

/// A packet with one more extension header, of kind `kind`, right behind the fixed header.
pub open spec fn with_extension(data: Seq<u8>, kind: u8, header: Seq<u8>) -> Seq<u8> {
    data.take(IPV6_HEADER_LEN as int).update(6, kind) + header.update(0, data[6]) + data.skip(
        IPV6_HEADER_LEN as int,
    )
}

/// The end of a chain of extension headers that stands `by` bytes further behind.
pub open spec fn moved(end: Option<Ipv6NextHeader>, by: int) -> Option<Ipv6NextHeader> {
    match end {
        Some(nh) => Some(
            Ipv6NextHeader {
                protocol: nh.protocol,
                payload_offset: (nh.payload_offset + by) as usize,
            },
        ),
        None => None,
    }
}

/// A chain of extension headers that stands further behind ends further behind.
proof fn lemma_chain_end_moved(data: Seq<u8>, longer: Seq<u8>, by: int, next: u8, offset: int)
    requires
        0 <= offset <= data.len(),
        0 <= by,
        longer.len() == data.len() + by,
        longer.len() <= usize::MAX,
        forall|k: int| offset <= k < data.len() ==> longer[k + by] == #[trigger] data[k],
    ensures
        chain_end(longer, next, offset + by) == moved(chain_end(data, next, offset), by),
    decreases data.len() - offset,
{
    if is_sized_extension(next) || next == IP_PROTO_FRAGMENT {
        if offset + 2 <= data.len() {
            let len = extension_len(data, next, offset);
            assert(longer[offset + by] == data[offset]);
            assert(longer[offset + 1 + by] == data[offset + 1]);
            assert(extension_len(longer, next, offset + by) == len);
            if offset + len <= data.len() {
                lemma_chain_end_moved(data, longer, by, data[offset], offset + len);
                assert(offset + by + len == offset + len + by);
            }
        }
    }
}

/// One more extension header moves the upper-layer header back by its length, 8 bytes for the
/// shortest, and does not change its protocol; a chain that is cut off stays so.
pub proof fn law_extension_header_moves_the_upper_layer(data: Seq<u8>, kind: u8, header: Seq<u8>)
    requires
        data.len() >= IPV6_HEADER_LEN,
        is_extension(kind, header),
        data.len() + header.len() <= usize::MAX,
    ensures
        upper_layer(with_extension(data, kind, header)) == moved(
            upper_layer(data),
            header.len() as int,
        ),
{
    let longer = with_extension(data, kind, header);
    let start = IPV6_HEADER_LEN as int;
    let by = header.len() as int;
    assert(longer[6] == kind);
    assert(longer[start] == data[6]);
    assert(longer[start + 1] == header[1]);
    assert(extension_len(longer, kind, start) == by);
    lemma_chain_end_moved(data, longer, by, data[6], start);
}

/// Bytes behind the datagram, such as those that fill a short frame up, change nothing of what
/// a frame says, nor that its checksum holds.
pub proof fn law_padding6_is_ignored(frame: Seq<u8>, pad: Seq<u8>)
    requires
        is_udp6_frame(frame),
    ensures
        is_udp6_frame(frame + pad),
        udp6_cksum_valid(frame + pad) == udp6_cksum_valid(frame),
        forall|p: ParsedUdp6Packet| #[trigger] p.describes(frame + pad) <==> p.describes(frame),
        forall|p: ParsedUdp6PacketRef<'_>| #[trigger]
            p.describes(frame + pad) <==> p.describes(frame),
{
    let padded = frame + pad;
    let l3 = ipv6_start(frame)->Some_0;
    let data = frame.subrange(l3, frame.len() as int);
    let start = upper_layer_at(frame, l3, IP_PROTO_UDP)->Some_0;
    assert(vlan::layout_of(padded, None) == vlan::layout_of(frame, None));
    assert(padded.subrange(l3, padded.len() as int) =~= data + pad);
    law_bytes_behind_leave_the_upper_layer(data, pad);
    assert(upper_layer_at(padded, l3, IP_PROTO_UDP) == Some(start));
    assert(padded.subrange(0, 6) =~= frame.subrange(0, 6));
    assert(padded.subrange(6, 12) =~= frame.subrange(6, 12));
    assert(udp::udp_len_at(padded, start) == udp::udp_len_at(frame, start));
    assert(udp::udp_payload_at(padded, start) =~= udp::udp_payload_at(frame, start));
    assert(padded.subrange(start, start + 8) =~= frame.subrange(start, start + 8));
    assert(addr::ipv6_at(padded, l3 + 8) == addr::ipv6_at(frame, l3 + 8));
    assert(addr::ipv6_at(padded, l3 + 24) == addr::ipv6_at(frame, l3 + 24));
    assert(bytes::be16_at(padded, start + 6) == bytes::be16_at(frame, start + 6));
}

/// A change in the addresses or in what follows the extension headers does not change where
/// they end. They end at an even offset.
proof fn lemma_chain_end_unchanged(data: Seq<u8>, next: u8, offset: int, i: int, b: u8)
    requires
        40 <= offset <= data.len() <= usize::MAX,
        offset % 2 == 0,
        0 <= i < data.len(),
        chain_end(data, next, offset) matches Some(nh) && (i < 40 || nh.payload_offset <= i),
    ensures
        chain_end(data.update(i, b), next, offset) == chain_end(data, next, offset),
        chain_end(data, next, offset)->Some_0.payload_offset % 2 == 0,
    decreases data.len() - offset,
{
    if is_sized_extension(next) || next == IP_PROTO_FRAGMENT {
        let len = extension_len(data, next, offset);
        lemma_chain_end_bounds(data, data[offset], offset + len);
        lemma_chain_end_unchanged(data, data[offset], offset + len, i, b);
        assert(data.update(i, b)[offset] == data[offset]);
        assert(data.update(i, b)[offset + 1] == data[offset + 1]);
    }
}

/// What the UDP checksum adds up for the datagram at `start` behind the IPv6 header at `l3`.
#[verifier::opaque]
spec fn udp6_sum_at(frame: Seq<u8>, l3: int, start: int) -> int {
    udp6_sum(
        addr::ipv6_at(frame, l3 + 8),
        addr::ipv6_at(frame, l3 + 24),
        frame.subrange(start, start + UDP_HEADER_LEN),
        udp::udp_payload_at(frame, start),
    )
}

/// The sum stays below what 32 bits can hold.
proof fn lemma_udp6_sum_bounds(frame: Seq<u8>, l3: int, start: int)
    requires
        0 <= l3,
        l3 + 40 <= start,
        udp::holds_udp_at(frame, start),
    ensures
        0 <= udp6_sum_at(frame, l3, start) < 0x1_0000_0000,
{
    reveal(udp6_sum_at);
    checksum::lemma_word_sum_bounds(addr::ipv6_at(frame, l3 + 8).bytes());
    checksum::lemma_word_sum_bounds(addr::ipv6_at(frame, l3 + 24).bytes());
    checksum::lemma_word_sum_bounds(
        checksum::blanked(frame.subrange(start, start + UDP_HEADER_LEN), 6),
    );
    checksum::lemma_word_sum_bounds(udp::udp_payload_at(frame, start));
}

/// The sum of the words of the address at `at`.
#[verifier::opaque]
spec fn address_sum(frame: Seq<u8>, at: int) -> int {
    checksum::word_sum(addr::ipv6_at(frame, at).bytes())
}

/// The sum of the words of the UDP header at `start`, its checksum read as zero.
#[verifier::opaque]
spec fn header_sum(frame: Seq<u8>, start: int) -> int {
    checksum::word_sum(checksum::blanked(frame.subrange(start, start + 8), 6))
}

/// The sum of the words of the payload of the datagram at `start`.
#[verifier::opaque]
spec fn payload_sum(frame: Seq<u8>, start: int) -> int {
    checksum::word_sum(udp::udp_payload_at(frame, start))
}

/// By how much the change of a byte to `b` changes a sum that covers the byte.
#[verifier::opaque]
spec fn change(frame: Seq<u8>, i: int, b: u8) -> int {
    (b - frame[i]) * checksum::weight(i)
}

/// The parts of the sum.
#[verifier::rlimit(40)]
proof fn lemma_udp6_sum_parts(frame: Seq<u8>, l3: int, start: int)
    requires
        udp::holds_udp_at(frame, start),
        0 <= start,
    ensures
        udp6_sum_at(frame, l3, start) == address_sum(frame, l3 + 8) + address_sum(frame, l3 + 24)
            + udp::udp_len_at(frame, start) + IP_PROTO_UDP + header_sum(frame, start)
            + payload_sum(frame, start),
{
    reveal(udp6_sum_at);
    reveal(address_sum);
    reveal(header_sum);
    reveal(payload_sum);
}

/// The sum of a UDP header when one byte of the frame is changed.
proof fn lemma_changed_header_sum(frame: Seq<u8>, start: int, i: int, b: u8)
    requires
        0 <= start,
        start % 2 == 0,
        start + 8 <= frame.len(),
        0 <= i < frame.len(),
    ensures
        header_sum(frame.update(i, b), start) == header_sum(frame, start) + if start <= i < start
            + 6 {
            change(frame, i, b)
        } else {
            0
        },
{
    reveal(header_sum);
    reveal(change);
    let blank = checksum::blanked(frame.subrange(start, start + 8), 6);
    let changed = checksum::blanked(frame.update(i, b).subrange(start, start + 8), 6);
    if start <= i < start + 6 {
        assert(changed =~= blank.update(i - start, b));
        checksum::lemma_word_sum_update(blank, i - start, b);
    } else {
        assert(changed =~= blank);
    }
}

/// The sum of an address when one byte of the frame is changed.
proof fn lemma_changed_address_sum(frame: Seq<u8>, at: int, i: int, b: u8)
    requires
        0 <= at,
        at % 2 == 0,
        at + 16 <= frame.len(),
        0 <= i < frame.len(),
    ensures
        address_sum(frame.update(i, b), at) == address_sum(frame, at) + if at <= i < at + 16 {
            change(frame, i, b)
        } else {
            0
        },
{
    reveal(address_sum);
    reveal(change);
    addr::lemma_bytes_of_ipv6_at(frame, at);
    addr::lemma_bytes_of_ipv6_at(frame.update(i, b), at);
    udp::lemma_changed_part_sum(frame, i, b, at, at + 16);
}

/// The sum of a payload when one byte of the frame is changed.
proof fn lemma_changed_payload_sum(frame: Seq<u8>, start: int, i: int, b: u8)
    requires
        0 <= start,
        start % 2 == 0,
        udp::holds_udp_at(frame, start),
        0 <= i < frame.len(),
        i != start + 4 && i != start + 5,
    ensures
        payload_sum(frame.update(i, b), start) == payload_sum(frame, start) + if start + 8 <= i
            < start + udp::udp_len_at(frame, start) {
            change(frame, i, b)
        } else {
            0
        },
{
    reveal(payload_sum);
    reveal(change);
    let end = start + udp::udp_len_at(frame, start);
    udp::lemma_changed_part_sum(frame, i, b, start + 8, end);
}

/// How the sum changes with one byte of the addresses, the ports, the checksum or the
/// payload.
proof fn lemma_changed_udp6_sum(frame: Seq<u8>, l3: int, start: int, i: int, b: u8)
    requires
        0 <= l3,
        l3 % 2 == 0,
        start % 2 == 0,
        l3 + 40 <= start,
        udp::holds_udp_at(frame, start),
        l3 + 8 <= i < l3 + 40 || start <= i < start + 4 || start + 6 <= i < start
            + udp::udp_len_at(frame, start),
    ensures
        udp6_sum_at(frame.update(i, b), l3, start) == udp6_sum_at(frame, l3, start) + if start + 6
            <= i < start + 8 {
            0
        } else {
            change(frame, i, b)
        },
        udp::holds_udp_at(frame.update(i, b), start),
{
    lemma_udp6_sum_parts(frame, l3, start);
    lemma_udp6_sum_parts(frame.update(i, b), l3, start);
    lemma_changed_address_sum(frame, l3 + 8, i, b);
    lemma_changed_address_sum(frame, l3 + 24, i, b);
    lemma_changed_header_sum(frame, start, i, b);
    lemma_changed_payload_sum(frame, start, i, b);
}

/// A change in the addresses or in the datagram does not change where the datagram starts.
proof fn lemma_upper_layer_unchanged(frame: Seq<u8>, l3: int, start: int, i: int, b: u8)
    requires
        0 <= l3,
        l3 % 2 == 0,
        l3 + 40 <= frame.len() <= usize::MAX,
        upper_layer_at(frame, l3, IP_PROTO_UDP) == Some(start),
        l3 + 8 <= i < l3 + 40 || start <= i < frame.len(),
    ensures
        upper_layer_at(frame.update(i, b), l3, IP_PROTO_UDP) == Some(start),
        l3 + 40 <= start <= frame.len(),
        start % 2 == 0,
{
    let data = frame.subrange(l3, frame.len() as int);
    lemma_chain_end_bounds(data, data[6], 40);
    udp::lemma_changed_part(frame, i, b, l3, frame.len() as int);
    lemma_chain_end_unchanged(data, data[6], 40, i - l3, b);
    assert(data.update(i - l3, b)[6] == data[6]);
}

/// When the checksum of the datagram at `start` verifies.
proof fn lemma_udp6_cksum_valid_at(frame: Seq<u8>, l3: int, start: int)
    requires
        vlan::layout_of(frame, None) matches Some(layout) && layout.l3_offset == l3
            && layout.ethertype == ETH_TYPE_IPV6,
        l3 + IPV6_HEADER_LEN <= frame.len(),
        upper_layer_at(frame, l3, IP_PROTO_UDP) == Some(start),
        udp::holds_udp_at(frame, start),
    ensures
        udp6_cksum_valid(frame) <==> {
            &&& bytes::be16_at(frame, start + 6) != 0
            &&& bytes::be16_at(frame, start + 6) == checksum::complement_nonzero(
                udp6_sum_at(frame, l3, start),
            )
        },
{
    reveal(udp6_sum_at);
}

/// Damage to a datagram over IPv6 is noticed: when the UDP checksum of a frame verifies, it
/// no longer does once any one byte of the addresses, the ports, the checksum or the payload
/// is changed. The length field is left out, because it says which bytes the checksum
/// covers.
pub proof fn law_udp6_damage_is_noticed(frame: Seq<u8>, i: int, b: u8)
    requires
        frame.len() <= usize::MAX,
        udp6_cksum_valid(frame),
        ({
            let l3 = vlan::layout_of(frame, None)->Some_0.l3();
            let start = upper_layer_at(frame, l3, IP_PROTO_UDP)->Some_0;
            &&& l3 + 8 <= i < l3 + 40 || start <= i < start + 4 || start + 6 <= i < start
                + udp::udp_len_at(frame, start)
            &&& b != frame[i]
        }),
    ensures
        !udp6_cksum_valid(frame.update(i, b)),
{
    let l3 = vlan::layout_of(frame, None)->Some_0.l3();
    let start = upper_layer_at(frame, l3, IP_PROTO_UDP)->Some_0;
    let damaged = frame.update(i, b);
    lemma_upper_layer_unchanged(frame, l3, start, i, b);
    lemma_changed_udp6_sum(frame, l3, start, i, b);
    lemma_udp6_cksum_valid_at(frame, l3, start);
    lemma_udp6_cksum_valid_at(damaged, l3, start);
    if start + 6 <= i < start + 8 {
        assert(bytes::be16_at(damaged, start + 6) != bytes::be16_at(frame, start + 6));
    } else {
        assert(bytes::be16_at(damaged, start + 6) == bytes::be16_at(frame, start + 6));
        lemma_udp6_sum_bounds(frame, l3, start);
        lemma_udp6_sum_bounds(damaged, l3, start);
        reveal(change);
        checksum::lemma_byte_change(frame[i], b, i);
        checksum::lemma_complements_differ(
            udp6_sum_at(frame, l3, start),
            udp6_sum_at(damaged, l3, start),
        );
    }
}

/// A frame with a zero UDP checksum does not verify over IPv6: blanking the field of a frame
/// that verifies is noticed too.
pub proof fn law_blanked_udp6_checksum_is_invalid(frame: Seq<u8>)
    requires
        frame.len() <= usize::MAX,
        udp6_cksum_valid(frame),
    ensures
        ({
            let l3 = vlan::layout_of(frame, None)->Some_0.l3();
            let start = upper_layer_at(frame, l3, IP_PROTO_UDP)->Some_0;
            !udp6_cksum_valid(frame.update(start + 6, 0).update(start + 7, 0))
        }),
{
    let l3 = vlan::layout_of(frame, None)->Some_0.l3();
    let start = upper_layer_at(frame, l3, IP_PROTO_UDP)->Some_0;
    let half = frame.update(start + 6, 0);
    let blank = half.update(start + 7, 0);
    lemma_upper_layer_unchanged(frame, l3, start, start + 6, 0);
    lemma_upper_layer_unchanged(half, l3, start, start + 7, 0);
    assert(bytes::be16_at(blank, start + 6) == 0);
}

/// Whether damage to a frame with its IPv6 header at 14 and its UDP header at 54 is noticed:
/// the UDP checksum verifies, but not when its field is blanked, nor once the byte `i` behind
/// the Ethernet header is changed to `b`.
pub open spec fn damage6_is_noticed(frame: Seq<u8>, i: int, b: u8) -> bool {
    &&& udp6_cksum_valid(frame)
    &&& !udp6_cksum_valid(frame.update(60, 0).update(61, 0))
    &&& b != frame[14 + i] ==> !udp6_cksum_valid(frame.update(14 + i, b))
}

/// Damage is noticed in a frame without a tag or extension headers.
proof fn lemma_damage6_is_noticed_at(frame: Seq<u8>, i: int, b: u8)
    requires
        frame.len() <= usize::MAX,
        udp6_cksum_valid(frame),
        vlan::layout_of(frame, None)->Some_0.l3() == 14,
        upper_layer_at(frame, 14, IP_PROTO_UDP) == Some(54int),
        8 <= i < 44 || 46 <= i < 40 + udp::udp_len_at(frame, 54),
    ensures
        damage6_is_noticed(frame, i, b),
{
    law_blanked_udp6_checksum_is_invalid(frame);
    if b != frame[14 + i] {
        law_udp6_damage_is_noticed(frame, 14 + i, b);
    }
}

/// Where the parts of a built frame stand.
proof fn lemma_udp6_frame_at(
    src_mac: [u8; 6],
    dst_mac: [u8; 6],
    src_ip: Ipv6Addr,
    dst_ip: Ipv6Addr,
    src_port: u16,
    dst_port: u16,
    payload: Seq<u8>,
    hop_limit: u8,
)
    requires
        payload.len() <= max_payload6(),
    ensures
        ({
            let frame = udp6_frame(
                src_mac@,
                dst_mac@,
                src_ip,
                dst_ip,
                src_port,
                dst_port,
                payload,
                hop_limit,
            );
            &&& frame.len() == 62 + payload.len()
            &&& vlan::layout_of(frame, None)->Some_0.l3() == 14
            &&& upper_layer_at(frame, 14, IP_PROTO_UDP) == Some(54int)
            &&& udp::udp_len_at(frame, 54) == 8 + payload.len()
        }),
{
    let eth = udp::eth_header(dst_mac@, src_mac@, ETH_TYPE_IPV6);
    let frame = udp6_frame(
        src_mac@,
        dst_mac@,
        src_ip,
        dst_ip,
        src_port,
        dst_port,
        payload,
        hop_limit,
    );
    lemma_udp6_packet_at(eth, src_ip, dst_ip, src_port, dst_port, payload, hop_limit);
    assert(eth.len() == 14);
    bytes::lemma_be16_round_trip(ETH_TYPE_IPV6);
    assert(frame[12] == bytes::be16_bytes(ETH_TYPE_IPV6)[0]);
    assert(frame[13] == bytes::be16_bytes(ETH_TYPE_IPV6)[1]);
    assert(udp::udp_payload_at(frame, 54) == payload);
}

/// Damage to a built frame is noticed: its UDP checksum verifies, but no longer does once any
/// one byte of the addresses, the ports, the checksum or the payload is changed, or the
/// checksum field is blanked. The index `i` counts from the IPv6 header.
pub proof fn law_built_udp6_damage_is_noticed(
    src_mac: [u8; 6],
    dst_mac: [u8; 6],
    src_ip: Ipv6Addr,
    dst_ip: Ipv6Addr,
    src_port: u16,
    dst_port: u16,
    payload: Seq<u8>,
    hop_limit: u8,
    i: int,
    b: u8,
)
    requires
        payload.len() <= max_payload6(),
        8 <= i < 44 || 46 <= i < 48 + payload.len(),
    ensures
        damage6_is_noticed(
            udp6_frame(
                src_mac@,
                dst_mac@,
                src_ip,
                dst_ip,
                src_port,
                dst_port,
                payload,
                hop_limit,
            ),
            i,
            b,
        ),
{
    let frame = udp6_frame(
        src_mac@,
        dst_mac@,
        src_ip,
        dst_ip,
        src_port,
        dst_port,
        payload,
        hop_limit,
    );
    assert(udp6_cksum_valid(frame)) by {
        law_udp6_frame_round_trip(
            src_mac,
            dst_mac,
            src_ip,
            dst_ip,
            src_port,
            dst_port,
            payload,
            hop_limit,
        );
    }
    lemma_udp6_frame_at(
        src_mac,
        dst_mac,
        src_ip,
        dst_ip,
        src_port,
        dst_port,
        payload,
        hop_limit,
    );
    lemma_damage6_is_noticed_at(frame, i, b);
}

/// The UDP checksum over IPv6 comes out of the pseudo-header checksum: adding up a datagram
/// whose checksum field holds it, and taking the complement, gives the checksum of the
/// datagram.
pub proof fn law_pseudo_header6_completes(
    src_ip: Ipv6Addr,
    dst_ip: Ipv6Addr,
    src_port: u16,
    dst_port: u16,
    udp_len: u16,
    payload: Seq<u8>,
)
    requires
        udp_len == UDP_HEADER_LEN + payload.len(),
    ensures
        ({
            let start = checksum::folded(
                checksum::wrapped(pseudo_sum6(src_ip, dst_ip, udp_len as int, IP_PROTO_UDP)),
            ) as u16;
            checksum::complement_nonzero(
                checksum::word_sum(udp::udp_header(src_port, dst_port, udp_len, start) + payload),
            ) == udp6_cksum(
                src_ip,
                dst_ip,
                udp::udp_header(src_port, dst_port, udp_len, 0),
                payload,
            )
        }),
{
    let pseudo = pseudo_sum6(src_ip, dst_ip, udp_len as int, IP_PROTO_UDP);
    let start = checksum::folded(checksum::wrapped(pseudo)) as u16;
    let head = bytes::be16_bytes(src_port) + bytes::be16_bytes(dst_port) + bytes::be16_bytes(
        udp_len,
    );
    let blank = udp::udp_header(src_port, dst_port, udp_len, 0);
    udp::lemma_udp_header_blanked(src_port, dst_port, udp_len, 0);
    udp::lemma_word_sum_field(head, 0, Seq::empty());
    udp::lemma_word_sum_field(head, start, payload);
    assert(head + bytes::be16_bytes(0) + Seq::<u8>::empty() =~= blank);
    checksum::lemma_word_sum_bounds(src_ip.bytes());
    checksum::lemma_word_sum_bounds(dst_ip.bytes());
    checksum::lemma_word_sum_bounds(head);
    checksum::lemma_word_sum_bounds(payload);
    let rest = checksum::word_sum(head) + checksum::word_sum(payload);
    checksum::lemma_complement_of_folded(pseudo, rest);
    assert(udp6_sum(src_ip, dst_ip, blank, payload) == pseudo + rest);
}

} // verus!
