//! UDP over IPv4: checksums, frame building, parsing and verification.

use vstd::prelude::*;

use crate::addr;
use crate::addr::{read_ipv4, Ipv4Addr, MacAddress};
use crate::bytes;
use crate::bytes::{
    copy_bytes, copy_prefix, high_nibble, low_nibble, push_be16, push_bytes, read_be16, read_mac, slice_of,
    truncate16_behind,
};
use crate::checksum;
use crate::checksum::{checksum_add, fold32, fold_complement, fold_complement_nonzero, sum_add};
use crate::constants::{
    ETH_TYPE_IPV4, ETH_TYPE_VLAN, IPV4_HEADER_LEN, IP_PROTO_UDP, MAX_FRAME_SIZE, TOTAL_HEADER_LEN,
    TOTAL_HEADER_LEN_VLAN, UDP_HEADER_LEN,
};
use crate::error::{UdpError, UdpResult};
use crate::vlan;
use crate::vlan::{detect_vlan, vlan_id_of, VlanConfig};

verus! {

// ---------------------------------------------------------------------------
// Wire format
// ---------------------------------------------------------------------------

/// An Ethernet header.
pub open spec fn eth_header(dst_mac: Seq<u8>, src_mac: Seq<u8>, ethertype: u16) -> Seq<u8> {
    dst_mac + src_mac + bytes::be16_bytes(ethertype)
}

/// An Ethernet header with an 802.1Q tag.
pub open spec fn eth_header_tagged(
    dst_mac: Seq<u8>,
    src_mac: Seq<u8>,
    tci: u16,
    ethertype: u16,
) -> Seq<u8> {
    dst_mac + src_mac + bytes::be16_bytes(ETH_TYPE_VLAN) + bytes::be16_bytes(tci)
        + bytes::be16_bytes(ethertype)
}

/// The first ten bytes of a 20-byte IPv4 header with identification 0. The byte
/// `flags` holds the fragmentation flags.
pub open spec fn ipv4_head(total_len: u16, flags: u8, ttl: u8, protocol: u8) -> Seq<u8> {
    seq![
        0x45u8,
        0u8,
        (total_len / 256) as u8,
        (total_len % 256) as u8,
        0u8,
        0u8,
        flags,
        0u8,
        ttl,
        protocol,
    ]
}

/// A 20-byte IPv4 header with the given checksum field.
pub open spec fn ipv4_header_with(
    total_len: u16,
    flags: u8,
    ttl: u8,
    protocol: u8,
    cksum: u16,
    src_ip: Ipv4Addr,
    dst_ip: Ipv4Addr,
) -> Seq<u8> {
    ipv4_head(total_len, flags, ttl, protocol) + bytes::be16_bytes(cksum) + (src_ip.bytes()
        + dst_ip.bytes())
}

/// The checksum of an IPv4 header.
pub open spec fn ipv4_cksum(header: Seq<u8>) -> u16 {
    checksum::complement(checksum::word_sum(header))
}

/// A 20-byte IPv4 header with its checksum.
pub open spec fn ipv4_header(
    total_len: u16,
    flags: u8,
    ttl: u8,
    protocol: u8,
    src_ip: Ipv4Addr,
    dst_ip: Ipv4Addr,
) -> Seq<u8> {
    ipv4_header_with(
        total_len,
        flags,
        ttl,
        protocol,
        ipv4_cksum(ipv4_header_with(total_len, flags, ttl, protocol, 0, src_ip, dst_ip)),
        src_ip,
        dst_ip,
    )
}

/// A UDP header.
pub open spec fn udp_header(src_port: u16, dst_port: u16, udp_len: u16, cksum: u16) -> Seq<u8> {
    bytes::be16_bytes(src_port) + bytes::be16_bytes(dst_port) + bytes::be16_bytes(udp_len)
        + bytes::be16_bytes(cksum)
}

/// The IPv4 pseudo-header sum: addresses, protocol and UDP length.
pub open spec fn pseudo_sum(src_ip: Seq<u8>, dst_ip: Seq<u8>, udp_len: int) -> int {
    checksum::word_sum(src_ip) + checksum::word_sum(dst_ip) + IP_PROTO_UDP + udp_len
}

/// The folded pseudo-header sum, not complemented.
pub open spec fn pseudo_cksum(src_ip: Seq<u8>, dst_ip: Seq<u8>, udp_len: u16) -> u16 {
    checksum::folded(checksum::wrapped(pseudo_sum(src_ip, dst_ip, udp_len as int))) as u16
}

/// What the UDP checksum adds up: the pseudo-header, the UDP header with its
/// checksum field read as zero, and the payload.
pub open spec fn udp_sum(
    src_ip: Seq<u8>,
    dst_ip: Seq<u8>,
    header: Seq<u8>,
    payload: Seq<u8>,
) -> int {
    pseudo_sum(src_ip, dst_ip, UDP_HEADER_LEN + payload.len()) + checksum::word_sum(
        checksum::blanked(header, 6),
    ) + checksum::word_sum(payload)
}

/// The UDP checksum, never zero.
pub open spec fn udp_cksum(
    src_ip: Seq<u8>,
    dst_ip: Seq<u8>,
    header: Seq<u8>,
    payload: Seq<u8>,
) -> u16 {
    checksum::complement_nonzero(udp_sum(src_ip, dst_ip, header, payload))
}

/// A UDP datagram over IPv4 with its checksum.
pub open spec fn udp_datagram(
    src_ip: Ipv4Addr,
    dst_ip: Ipv4Addr,
    src_port: u16,
    dst_port: u16,
    payload: Seq<u8>,
) -> Seq<u8> {
    let udp_len = ((UDP_HEADER_LEN + payload.len()) % 0x1_0000) as u16;
    let cksum = udp_cksum(
        src_ip.bytes(),
        dst_ip.bytes(),
        udp_header(src_port, dst_port, udp_len, 0),
        payload,
    );
    udp_header(src_port, dst_port, udp_len, cksum) + payload
}

/// The fragmentation flags byte with only "don't fragment" set.
pub open spec fn dont_fragment() -> u8 {
    0x40
}

/// An IPv4 packet that carries a UDP datagram.
pub open spec fn udp4_packet(
    src_ip: Ipv4Addr,
    dst_ip: Ipv4Addr,
    src_port: u16,
    dst_port: u16,
    payload: Seq<u8>,
    ttl: u8,
) -> Seq<u8> {
    ipv4_header(
        ((IPV4_HEADER_LEN + UDP_HEADER_LEN + payload.len()) % 0x1_0000) as u16,
        dont_fragment(),
        ttl,
        IP_PROTO_UDP,
        src_ip,
        dst_ip,
    ) + udp_datagram(src_ip, dst_ip, src_port, dst_port, payload)
}

/// An untagged Ethernet frame that carries a UDP datagram over IPv4.
pub open spec fn udp4_frame(
    src_mac: Seq<u8>,
    dst_mac: Seq<u8>,
    src_ip: Ipv4Addr,
    dst_ip: Ipv4Addr,
    src_port: u16,
    dst_port: u16,
    payload: Seq<u8>,
    ttl: u8,
) -> Seq<u8> {
    eth_header(dst_mac, src_mac, ETH_TYPE_IPV4) + udp4_packet(
        src_ip,
        dst_ip,
        src_port,
        dst_port,
        payload,
        ttl,
    )
}

/// An 802.1Q-tagged Ethernet frame that carries a UDP datagram over IPv4.
pub open spec fn udp4_frame_tagged(
    src_mac: Seq<u8>,
    dst_mac: Seq<u8>,
    src_ip: Ipv4Addr,
    dst_ip: Ipv4Addr,
    src_port: u16,
    dst_port: u16,
    payload: Seq<u8>,
    ttl: u8,
    tci: u16,
) -> Seq<u8> {
    eth_header_tagged(dst_mac, src_mac, tci, ETH_TYPE_IPV4) + udp4_packet(
        src_ip,
        dst_ip,
        src_port,
        dst_port,
        payload,
        ttl,
    )
}

/// The error for a payload of `actual` bytes where `max` are allowed.
pub open spec fn payload_too_large(max: int, actual: int) -> UdpError {
    UdpError::PayloadTooLarge { max: max as usize, actual: actual as usize }
}

/// Largest payload of an untagged frame.
pub open spec fn max_payload() -> int {
    MAX_FRAME_SIZE - TOTAL_HEADER_LEN
}

/// Largest payload of a tagged frame.
pub open spec fn max_payload_tagged() -> int {
    MAX_FRAME_SIZE - TOTAL_HEADER_LEN_VLAN
}

// ---------------------------------------------------------------------------
// Facts about the wire format
// ---------------------------------------------------------------------------

/// The headers of a UDP packet over IPv4 take 28 bytes.
pub proof fn lemma_udp4_packet_len(
    src_ip: Ipv4Addr,
    dst_ip: Ipv4Addr,
    src_port: u16,
    dst_port: u16,
    payload: Seq<u8>,
    ttl: u8,
)
    ensures
        udp4_packet(src_ip, dst_ip, src_port, dst_port, payload, ttl).len() == 28 + payload.len(),
{
}

/// A 16-bit field in the middle of a byte string adds its value to the sum.
pub proof fn lemma_word_sum_field(a: Seq<u8>, v: u16, b: Seq<u8>)
    requires
        a.len() % 2 == 0,
    ensures
        checksum::word_sum(a + bytes::be16_bytes(v) + b) == checksum::word_sum(a) + v
            + checksum::word_sum(b),
{
    checksum::lemma_word_sum_concat(a, bytes::be16_bytes(v));
    checksum::lemma_word_sum_concat(a + bytes::be16_bytes(v), b);
    checksum::lemma_word_sum_pair(bytes::be16_bytes(v));
}

/// The words of an IPv4 header with its checksum fold to all ones.
pub proof fn lemma_ipv4_header_verifies(
    total_len: u16,
    flags: u8,
    ttl: u8,
    protocol: u8,
    src_ip: Ipv4Addr,
    dst_ip: Ipv4Addr,
)
    ensures
        checksum::folded(
            checksum::wrapped(
                checksum::word_sum(
                    ipv4_header(total_len, flags, ttl, protocol, src_ip, dst_ip),
                ),
            ),
        ) == 0xFFFF,
{
    let head = ipv4_head(total_len, flags, ttl, protocol);
    let ips = src_ip.bytes() + dst_ip.bytes();
    let blank = ipv4_header_with(total_len, flags, ttl, protocol, 0, src_ip, dst_ip);
    let cksum = ipv4_cksum(blank);
    lemma_word_sum_field(head, 0, ips);
    lemma_word_sum_field(head, cksum, ips);
    checksum::lemma_word_sum_bounds(blank);
    let n = checksum::word_sum(blank);
    assert(n > 0) by {
        let first = head.subrange(0, 2);
        let rest = head.subrange(2, 10);
        assert(head =~= first + rest);
        checksum::lemma_word_sum_concat(first, rest);
        checksum::lemma_word_sum_pair(first);
        checksum::lemma_word_sum_bounds(rest);
        checksum::lemma_word_sum_bounds(ips);
    }
    checksum::lemma_complement_completes(n, cksum);
}

/// Blanking the checksum field of a UDP header leaves the header with checksum
/// zero.
pub proof fn lemma_udp_header_blanked(src_port: u16, dst_port: u16, udp_len: u16, cksum: u16)
    ensures
        udp_header(src_port, dst_port, udp_len, cksum).len() == 8,
        checksum::blanked(udp_header(src_port, dst_port, udp_len, cksum), 6) == udp_header(
            src_port,
            dst_port,
            udp_len,
            0,
        ),
{
    assert(checksum::blanked(udp_header(src_port, dst_port, udp_len, cksum), 6) =~= udp_header(
        src_port,
        dst_port,
        udp_len,
        0,
    ));
}

/// The pseudo-header and the words of a UDP datagram fold to all ones.
pub proof fn lemma_udp_datagram_verifies(
    src_ip: Ipv4Addr,
    dst_ip: Ipv4Addr,
    src_port: u16,
    dst_port: u16,
    payload: Seq<u8>,
)
    requires
        UDP_HEADER_LEN + payload.len() <= 0xFFFF,
    ensures
        checksum::folded(
            checksum::wrapped(
                pseudo_sum(src_ip.bytes(), dst_ip.bytes(), UDP_HEADER_LEN + payload.len())
                    + checksum::word_sum(
                    udp_datagram(src_ip, dst_ip, src_port, dst_port, payload),
                ),
            ),
        ) == 0xFFFF,
{
    let udp_len = (UDP_HEADER_LEN + payload.len()) as u16;
    let blank = udp_header(src_port, dst_port, udp_len, 0);
    let n = udp_sum(src_ip.bytes(), dst_ip.bytes(), blank, payload);
    let cksum = checksum::complement_nonzero(n);
    let head = bytes::be16_bytes(src_port) + bytes::be16_bytes(dst_port) + bytes::be16_bytes(
        udp_len,
    );
    lemma_udp_header_blanked(src_port, dst_port, udp_len, 0);
    lemma_word_sum_field(head, 0, Seq::empty());
    lemma_word_sum_field(head, cksum, payload);
    assert(head + bytes::be16_bytes(0) + Seq::<u8>::empty() =~= blank);
    checksum::lemma_word_sum_bounds(src_ip.bytes());
    checksum::lemma_word_sum_bounds(dst_ip.bytes());
    checksum::lemma_word_sum_bounds(blank);
    checksum::lemma_word_sum_bounds(payload);
    checksum::lemma_complement_completes(n, cksum);
}

// ---------------------------------------------------------------------------
// Checksums
// ---------------------------------------------------------------------------

/// The checksum of an IPv4 header.
pub fn ipv4_checksum(header: &[u8]) -> (r: u16)
    ensures
        r == ipv4_cksum(header@),
{
    let mut sum: u32 = 0;
    checksum_add(&mut sum, header);
    fold_complement(sum)
}

/// Adds the words of `data` to a running sum, the word at `skip` excepted.
pub fn checksum_add_blanked(sum: &mut u32, data: &[u8], skip: usize)
    requires
        skip % 2 == 0,
    ensures
        *final(sum) == checksum::wrapped(
            *old(sum) + checksum::word_sum(checksum::blanked(data@, skip as int)),
        ),
{
    let ghost s0 = *sum as int;
    let ghost whole = checksum::blanked(data@, skip as int);
    if data.len() <= skip {
        checksum_add(sum, data);
        assert(whole =~= data@);
    } else {
        let head = slice_of(data, 0, skip);
        checksum_add(sum, head);
        if data.len() - skip <= 2 {
            proof {
                let tail = whole.subrange(skip as int, whole.len() as int);
                assert(whole =~= head@ + tail);
                checksum::lemma_word_sum_concat(head@, tail);
                reveal_with_fuel(checksum::word_sum, 3);
                assert(checksum::word_sum(tail) == 0) by {
                    if tail.len() == 2 {
                        checksum::lemma_word_sum_pair(tail);
                    }
                }
            }
        } else {
            let tail = slice_of(data, skip + 2, data.len());
            checksum_add(sum, tail);
            proof {
                assert(whole =~= head@ + bytes::be16_bytes(0) + tail@);
                lemma_word_sum_field(head@, 0, tail@);
            }
        }
    }
}

/// Adds the IPv4 pseudo-header to a running sum.
fn add_pseudo_header(sum: &mut u32, src_ip: &[u8; 4], dst_ip: &[u8; 4], udp_len: u32)
    ensures
        *final(sum) == checksum::wrapped(*old(sum) + pseudo_sum(src_ip@, dst_ip@, udp_len as int)),
{
    checksum_add(sum, src_ip);
    checksum_add(sum, dst_ip);
    *sum = sum_add(*sum, IP_PROTO_UDP as u32);
    *sum = sum_add(*sum, udp_len);
    proof {
        let s0 = *old(sum) as int;
        let s1 = s0 + checksum::word_sum(src_ip@);
        let s2 = s1 + checksum::word_sum(dst_ip@);
        checksum::lemma_wrapped_add(s1, checksum::word_sum(dst_ip@));
        checksum::lemma_wrapped_add(s2, IP_PROTO_UDP as int);
        checksum::lemma_wrapped_add(s2 + IP_PROTO_UDP, udp_len as int);
    }
}

/// The UDP checksum over the IPv4 pseudo-header, the UDP header without its
/// checksum field, and the payload. A computed 0 is given as 0xFFFF.
pub fn udp_checksum(src_ip: &[u8; 4], dst_ip: &[u8; 4], udp_header: &[u8], payload: &[u8]) -> (r:
    u16)
    ensures
        r == udp_cksum(src_ip@, dst_ip@, udp_header@, payload@),
        r != 0,
{
    let mut sum: u32 = 0;
    let udp_len: u32 = ((payload.len() as u64 % 0x1_0000_0000 + 8) % 0x1_0000_0000) as u32;
    add_pseudo_header(&mut sum, src_ip, dst_ip, udp_len);
    checksum_add_blanked(&mut sum, udp_header, 6);
    checksum_add(&mut sum, payload);
    proof {
        let len = UDP_HEADER_LEN + payload@.len();
        let ips = checksum::word_sum(src_ip@) + checksum::word_sum(dst_ip@) + IP_PROTO_UDP;
        let head = checksum::word_sum(checksum::blanked(udp_header@, 6));
        let data = checksum::word_sum(payload@);
        assert(udp_len == checksum::wrapped(len));
        checksum::lemma_wrapped_add(ips, len);
        checksum::lemma_wrapped_add(ips + len, head);
        checksum::lemma_wrapped_add(ips + len + head, data);
        checksum::lemma_wrapped_add(udp_sum(src_ip@, dst_ip@, udp_header@, payload@), 0);
    }
    fold_complement_nonzero(sum)
}

/// The folded pseudo-header sum, not complemented: what a NIC that computes the
/// UDP checksum expects in the checksum field.
pub fn udp_pseudo_header_checksum(src_ip: &[u8; 4], dst_ip: &[u8; 4], udp_len: u16) -> (r: u16)
    ensures
        r == pseudo_cksum(src_ip@, dst_ip@, udp_len),
{
    let mut sum: u32 = 0;
    add_pseudo_header(&mut sum, src_ip, dst_ip, udp_len as u32);
    fold32(sum)
}

// ---------------------------------------------------------------------------
// Building
// ---------------------------------------------------------------------------

/// Appends an Ethernet header.
pub fn push_eth_header(out: &mut Vec<u8>, dst_mac: &[u8; 6], src_mac: &[u8; 6], ethertype: u16)
    ensures
        final(out)@ == old(out)@ + eth_header(dst_mac@, src_mac@, ethertype),
{
    push_bytes(out, dst_mac);
    push_bytes(out, src_mac);
    push_be16(out, ethertype);
    assert(out@ =~= old(out)@ + eth_header(dst_mac@, src_mac@, ethertype));
}

/// Appends an Ethernet header with an 802.1Q tag.
pub fn push_eth_header_tagged(
    out: &mut Vec<u8>,
    dst_mac: &[u8; 6],
    src_mac: &[u8; 6],
    tci: u16,
    ethertype: u16,
)
    ensures
        final(out)@ == old(out)@ + eth_header_tagged(dst_mac@, src_mac@, tci, ethertype),
{
    push_bytes(out, dst_mac);
    push_bytes(out, src_mac);
    push_be16(out, ETH_TYPE_VLAN);
    push_be16(out, tci);
    push_be16(out, ethertype);
    assert(out@ =~= old(out)@ + eth_header_tagged(dst_mac@, src_mac@, tci, ethertype));
}

/// Appends a 20-byte IPv4 header whose checksum field is `cksum`.
fn push_ipv4_header_with(
    out: &mut Vec<u8>,
    total_len: u16,
    flags: u8,
    ttl: u8,
    protocol: u8,
    cksum: u16,
    src_ip: Ipv4Addr,
    dst_ip: Ipv4Addr,
)
    ensures
        final(out)@ == old(out)@ + ipv4_header_with(
            total_len,
            flags,
            ttl,
            protocol,
            cksum,
            src_ip,
            dst_ip,
        ),
{
    let head = [
        0x45u8,
        0u8,
        bytes::high_byte(total_len),
        bytes::low_byte(total_len),
        0u8,
        0u8,
        flags,
        0u8,
        ttl,
        protocol,
    ];
    assert(head@ =~= ipv4_head(total_len, flags, ttl, protocol));
    push_bytes(out, &head);
    push_be16(out, cksum);
    push_bytes(out, &src_ip.octets());
    push_bytes(out, &dst_ip.octets());
    assert(out@ =~= old(out)@ + ipv4_header_with(
        total_len,
        flags,
        ttl,
        protocol,
        cksum,
        src_ip,
        dst_ip,
    ));
}

/// Appends a 20-byte IPv4 header with its checksum.
pub fn push_ipv4_header(
    out: &mut Vec<u8>,
    total_len: u16,
    flags: u8,
    ttl: u8,
    protocol: u8,
    src_ip: Ipv4Addr,
    dst_ip: Ipv4Addr,
)
    ensures
        final(out)@ == old(out)@ + ipv4_header(total_len, flags, ttl, protocol, src_ip, dst_ip),
{
    let mut blank: Vec<u8> = Vec::new();
    push_ipv4_header_with(&mut blank, total_len, flags, ttl, protocol, 0, src_ip, dst_ip);
    assert(blank@ =~= ipv4_header_with(total_len, flags, ttl, protocol, 0, src_ip, dst_ip));
    let cksum = ipv4_checksum(blank.as_slice());
    push_ipv4_header_with(out, total_len, flags, ttl, protocol, cksum, src_ip, dst_ip);
}

/// Appends a UDP header.
pub fn push_udp_header(out: &mut Vec<u8>, src_port: u16, dst_port: u16, udp_len: u16, cksum: u16)
    ensures
        final(out)@ == old(out)@ + udp_header(src_port, dst_port, udp_len, cksum),
{
    push_be16(out, src_port);
    push_be16(out, dst_port);
    push_be16(out, udp_len);
    push_be16(out, cksum);
    assert(out@ =~= old(out)@ + udp_header(src_port, dst_port, udp_len, cksum));
}

/// Appends a UDP datagram over IPv4 with its checksum.
pub fn push_udp_datagram(
    out: &mut Vec<u8>,
    src_ip: Ipv4Addr,
    dst_ip: Ipv4Addr,
    src_port: u16,
    dst_port: u16,
    payload: &[u8],
)
    ensures
        final(out)@ == old(out)@ + udp_datagram(src_ip, dst_ip, src_port, dst_port, payload@),
{
    let udp_len = truncate16_behind(UDP_HEADER_LEN, payload.len());
    let mut blank: Vec<u8> = Vec::new();
    push_udp_header(&mut blank, src_port, dst_port, udp_len, 0);
    assert(blank@ =~= udp_header(src_port, dst_port, udp_len, 0));
    let cksum = udp_checksum(&src_ip.octets(), &dst_ip.octets(), blank.as_slice(), payload);
    push_udp_header(out, src_port, dst_port, udp_len, cksum);
    push_bytes(out, payload);
    assert(out@ =~= old(out)@ + udp_datagram(src_ip, dst_ip, src_port, dst_port, payload@));
}

/// Appends an IPv4 packet that carries a UDP datagram.
pub fn push_udp4_packet(
    out: &mut Vec<u8>,
    src_ip: Ipv4Addr,
    dst_ip: Ipv4Addr,
    src_port: u16,
    dst_port: u16,
    payload: &[u8],
    ttl: u8,
)
    ensures
        final(out)@ == old(out)@ + udp4_packet(src_ip, dst_ip, src_port, dst_port, payload@, ttl),
{
    let total_len = truncate16_behind(IPV4_HEADER_LEN + UDP_HEADER_LEN, payload.len());
    push_ipv4_header(out, total_len, 0x40, ttl, IP_PROTO_UDP, src_ip, dst_ip);
    push_udp_datagram(out, src_ip, dst_ip, src_port, dst_port, payload);
    assert(out@ =~= old(out)@ + udp4_packet(src_ip, dst_ip, src_port, dst_port, payload@, ttl));
}

/// Replaces the contents of `out` by an untagged UDP frame.
pub fn write_udp4_frame(
    out: &mut Vec<u8>,
    src_mac: &[u8; 6],
    dst_mac: &[u8; 6],
    src_ip: Ipv4Addr,
    dst_ip: Ipv4Addr,
    src_port: u16,
    dst_port: u16,
    payload: &[u8],
    ttl: u8,
)
    ensures
        final(out)@ == udp4_frame(
            src_mac@,
            dst_mac@,
            src_ip,
            dst_ip,
            src_port,
            dst_port,
            payload@,
            ttl,
        ),
        final(out)@.len() == TOTAL_HEADER_LEN + payload@.len(),
{
    out.clear();
    push_eth_header(out, dst_mac, src_mac, ETH_TYPE_IPV4);
    push_udp4_packet(out, src_ip, dst_ip, src_port, dst_port, payload, ttl);
    proof {
        lemma_udp4_packet_len(src_ip, dst_ip, src_port, dst_port, payload@, ttl);
        assert(out@ =~= udp4_frame(
            src_mac@,
            dst_mac@,
            src_ip,
            dst_ip,
            src_port,
            dst_port,
            payload@,
            ttl,
        ));
    }
}

/// Builds a UDP frame into `out`, reusing its allocation, and returns the frame
/// length.
pub fn build_udp_frame_into(
    out: &mut Vec<u8>,
    src_mac: &[u8; 6],
    dst_mac: &[u8; 6],
    src_ip: Ipv4Addr,
    dst_ip: Ipv4Addr,
    src_port: u16,
    dst_port: u16,
    payload: &[u8],
    ttl: u8,
) -> (r: UdpResult<usize>)
    ensures
        payload@.len() <= max_payload() ==> {
            &&& r == Ok::<usize, UdpError>((TOTAL_HEADER_LEN + payload@.len()) as usize)
            &&& final(out)@ == udp4_frame(
                src_mac@,
                dst_mac@,
                src_ip,
                dst_ip,
                src_port,
                dst_port,
                payload@,
                ttl,
            )
        },
        payload@.len() > max_payload() ==> {
            &&& r == Err::<usize, UdpError>(payload_too_large(max_payload(), payload@.len() as int))
            &&& final(out)@ == old(out)@
        },
{
    let max_len: usize = MAX_FRAME_SIZE - TOTAL_HEADER_LEN;
    if payload.len() > max_len {
        return Err(UdpError::PayloadTooLarge { max: max_len, actual: payload.len() });
    }
    write_udp4_frame(out, src_mac, dst_mac, src_ip, dst_ip, src_port, dst_port, payload, ttl);
    Ok(TOTAL_HEADER_LEN + payload.len())
}

/// Builds a UDP frame into a vector of its own.
pub fn build_udp_frame(
    src_mac: &[u8; 6],
    dst_mac: &[u8; 6],
    src_ip: Ipv4Addr,
    dst_ip: Ipv4Addr,
    src_port: u16,
    dst_port: u16,
    payload: &[u8],
    ttl: u8,
) -> (r: UdpResult<Vec<u8>>)
    ensures
        match r {
            Ok(frame) => payload@.len() <= max_payload() && frame@ == udp4_frame(
                src_mac@,
                dst_mac@,
                src_ip,
                dst_ip,
                src_port,
                dst_port,
                payload@,
                ttl,
            ),
            Err(e) => payload@.len() > max_payload() && e == payload_too_large(
                max_payload(),
                payload@.len() as int,
            ),
        },
{
    let mut frame: Vec<u8> = Vec::new();
    match build_udp_frame_into(
        &mut frame,
        src_mac,
        dst_mac,
        src_ip,
        dst_ip,
        src_port,
        dst_port,
        payload,
        ttl,
    ) {
        Ok(_) => Ok(frame),
        Err(e) => Err(e),
    }
}

/// Builds a UDP frame with an 802.1Q tag into `out` and returns the frame length.
/// The tag sits between the source MAC and the EtherType and is not covered by
/// the checksums.
pub fn build_udp_frame_into_vlan(
    out: &mut Vec<u8>,
    src_mac: &[u8; 6],
    dst_mac: &[u8; 6],
    src_ip: Ipv4Addr,
    dst_ip: Ipv4Addr,
    src_port: u16,
    dst_port: u16,
    payload: &[u8],
    ttl: u8,
    vlan: &VlanConfig,
) -> (r: UdpResult<usize>)
    ensures
        payload@.len() <= max_payload_tagged() ==> {
            &&& r == Ok::<usize, UdpError>((TOTAL_HEADER_LEN_VLAN + payload@.len()) as usize)
            &&& final(out)@ == udp4_frame_tagged(
                src_mac@,
                dst_mac@,
                src_ip,
                dst_ip,
                src_port,
                dst_port,
                payload@,
                ttl,
                vlan.tci(),
            )
        },
        payload@.len() > max_payload_tagged() ==> {
            &&& r == Err::<usize, UdpError>(
                payload_too_large(max_payload_tagged(), payload@.len() as int),
            )
            &&& final(out)@ == old(out)@
        },
{
    let max_len: usize = MAX_FRAME_SIZE - TOTAL_HEADER_LEN_VLAN;
    if payload.len() > max_len {
        return Err(UdpError::PayloadTooLarge { max: max_len, actual: payload.len() });
    }
    out.clear();
    push_eth_header_tagged(out, dst_mac, src_mac, vlan.encode_tci(), ETH_TYPE_IPV4);
    push_udp4_packet(out, src_ip, dst_ip, src_port, dst_port, payload, ttl);
    proof {
        lemma_udp4_packet_len(src_ip, dst_ip, src_port, dst_port, payload@, ttl);
        assert(out@ =~= udp4_frame_tagged(
            src_mac@,
            dst_mac@,
            src_ip,
            dst_ip,
            src_port,
            dst_port,
            payload@,
            ttl,
            vlan.tci(),
        ));
    }
    Ok(TOTAL_HEADER_LEN_VLAN + payload.len())
}

// ---------------------------------------------------------------------------
// Parsing
// ---------------------------------------------------------------------------

/// Length of the IPv4 header at offset `l3`, as its first byte tells it.
pub open spec fn ip4_header_len(frame: Seq<u8>, l3: int) -> int {
    (frame[l3] % 16) * 4
}

/// Offset of what follows the IPv4 header at offset `l3`.
pub open spec fn ip4_payload_start(frame: Seq<u8>, l3: int) -> int {
    l3 + ip4_header_len(frame, l3)
}

/// Length field of the UDP header at offset `udp`.
pub open spec fn udp_len_at(frame: Seq<u8>, udp: int) -> int {
    bytes::be16_at(frame, udp + 4) as int
}

/// Whether a whole UDP datagram starts at offset `udp`.
pub open spec fn holds_udp_at(frame: Seq<u8>, udp: int) -> bool {
    &&& udp + UDP_HEADER_LEN <= frame.len()
    &&& udp_len_at(frame, udp) >= UDP_HEADER_LEN
    &&& udp + udp_len_at(frame, udp) <= frame.len()
}

/// The payload of the UDP datagram at offset `udp`.
pub open spec fn udp_payload_at(frame: Seq<u8>, udp: int) -> Seq<u8> {
    frame.subrange(udp + UDP_HEADER_LEN, udp + udp_len_at(frame, udp))
}

/// Whether an IPv4 packet that carries a whole UDP datagram starts at `l3`.
pub open spec fn is_udp4_at(frame: Seq<u8>, l3: int) -> bool {
    &&& l3 + IPV4_HEADER_LEN + UDP_HEADER_LEN <= frame.len()
    &&& frame[l3] / 16 == 4
    &&& ip4_header_len(frame, l3) >= 20
    &&& frame[l3 + 9] == IP_PROTO_UDP
    &&& holds_udp_at(frame, ip4_payload_start(frame, l3))
}

/// Whether `frame` is an Ethernet frame, tagged or not, with a whole UDP datagram
/// over IPv4.
pub open spec fn is_udp4_frame(frame: Seq<u8>) -> bool {
    match vlan::layout_of(frame, None) {
        Some(layout) => layout.ethertype == ETH_TYPE_IPV4 && is_udp4_at(
            frame,
            layout.l3_offset as int,
        ),
        None => false,
    }
}

/// Writes a UDP frame to the front of the data of a packet buffer. What is behind it
/// stays. Gives the length of the frame. A buffer without data is refused.
pub fn build_udp_packet(
    data: Option<&mut [u8]>,
    src_mac: &MacAddress,
    dst_mac: &MacAddress,
    src_ip: Ipv4Addr,
    dst_ip: Ipv4Addr,
    src_port: u16,
    dst_port: u16,
    payload: &[u8],
    ttl: u8,
) -> (r: UdpResult<usize>)
    requires
        data matches Some(room) ==> room@.len() >= TOTAL_HEADER_LEN || payload@.len()
            > max_payload(),
    ensures
        match data {
            Some(room) => if payload@.len() > max_payload() {
                &&& r == Err::<usize, UdpError>(
                    payload_too_large(max_payload(), payload@.len() as int),
                )
                &&& final(room)@ == room@
            } else if room@.len() < TOTAL_HEADER_LEN + payload@.len() {
                &&& r == Err::<usize, UdpError>(
                    payload_too_large(room@.len() - TOTAL_HEADER_LEN, payload@.len() as int),
                )
                &&& final(room)@ == room@
            } else {
                &&& r == Ok::<usize, UdpError>((TOTAL_HEADER_LEN + payload@.len()) as usize)
                &&& final(room)@ == udp4_frame(
                    src_mac@,
                    dst_mac@,
                    src_ip,
                    dst_ip,
                    src_port,
                    dst_port,
                    payload@,
                    ttl,
                ) + room@.skip(TOTAL_HEADER_LEN + payload@.len())
            },
            None => r == Err::<usize, UdpError>(
                if payload@.len() > max_payload() {
                    payload_too_large(max_payload(), payload@.len() as int)
                } else {
                    UdpError::InvalidPacket
                },
            ),
        },
{
    let max_len: usize = MAX_FRAME_SIZE - TOTAL_HEADER_LEN;
    if payload.len() > max_len {
        return Err(UdpError::PayloadTooLarge { max: max_len, actual: payload.len() });
    }
    let room = match data {
        Some(room) => room,
        None => return Err(UdpError::InvalidPacket),
    };
    if room.len() < TOTAL_HEADER_LEN + payload.len() {
        return Err(
            UdpError::PayloadTooLarge {
                max: room.len() - TOTAL_HEADER_LEN,
                actual: payload.len(),
            },
        );
    }
    let mut frame: Vec<u8> = Vec::new();
    write_udp4_frame(
        &mut frame,
        &src_mac.octets(),
        &dst_mac.octets(),
        src_ip,
        dst_ip,
        src_port,
        dst_port,
        payload,
        ttl,
    );
    let ghost before = room@;
    let _ = copy_prefix(room, frame.as_slice());
    assert(room@ =~= frame@ + before.skip(frame@.len() as int));
    Ok(TOTAL_HEADER_LEN + payload.len())
}

/// A parsed UDP datagram that owns its payload.
#[derive(Debug, Clone)]
pub struct ParsedUdpPacket {
    pub src_mac: [u8; 6],
    pub dst_mac: [u8; 6],
    pub src_ip: Ipv4Addr,
    pub dst_ip: Ipv4Addr,
    pub src_port: u16,
    pub dst_port: u16,
    pub payload: Vec<u8>,
    /// VLAN identifier, if the frame was tagged.
    pub vlan_id: Option<u16>,
}

/// A parsed UDP datagram that borrows its payload from the frame.
#[derive(Debug)]
pub struct ParsedUdpPacketRef<'a> {
    pub src_mac: [u8; 6],
    pub src_ip: Ipv4Addr,
    pub dst_ip: Ipv4Addr,
    pub src_port: u16,
    pub dst_port: u16,
    pub payload: &'a [u8],
    /// VLAN identifier, if the frame was tagged.
    pub vlan_id: Option<u16>,
}

/// The fields of the UDP datagram over IPv4 at `l3`: addresses, ports, payload.
pub open spec fn udp4_fields_at(
    frame: Seq<u8>,
    l3: int,
    src_ip: Ipv4Addr,
    dst_ip: Ipv4Addr,
    src_port: u16,
    dst_port: u16,
    payload: Seq<u8>,
) -> bool {
    let udp = ip4_payload_start(frame, l3);
    &&& src_ip == addr::ipv4_at(frame, l3 + 12)
    &&& dst_ip == addr::ipv4_at(frame, l3 + 16)
    &&& src_port == bytes::be16_at(frame, udp)
    &&& dst_port == bytes::be16_at(frame, udp + 2)
    &&& payload == udp_payload_at(frame, udp)
}

impl ParsedUdpPacket {
    /// Whether this is what the UDP frame `frame` says.
    pub open spec fn describes(self, frame: Seq<u8>) -> bool {
        let layout = vlan::layout_of(frame, None)->Some_0;
        &&& self.dst_mac@ == frame.subrange(0, 6)
        &&& self.src_mac@ == frame.subrange(6, 12)
        &&& udp4_fields_at(
            frame,
            layout.l3_offset as int,
            self.src_ip,
            self.dst_ip,
            self.src_port,
            self.dst_port,
            self.payload@,
        )
        &&& self.vlan_id == vlan::layout_vid(layout)
    }
}

impl<'a> ParsedUdpPacketRef<'a> {
    /// Whether this is what the UDP frame `frame` says.
    pub open spec fn describes(self, frame: Seq<u8>) -> bool {
        let layout = vlan::layout_of(frame, None)->Some_0;
        &&& self.src_mac@ == frame.subrange(6, 12)
        &&& udp4_fields_at(
            frame,
            layout.l3_offset as int,
            self.src_ip,
            self.dst_ip,
            self.src_port,
            self.dst_port,
            self.payload@,
        )
        &&& self.vlan_id == vlan::layout_vid(layout)
    }
}

/// A UDP datagram over IPv4 found inside a frame.
pub struct Udp4Ref<'a> {
    pub src_ip: Ipv4Addr,
    pub dst_ip: Ipv4Addr,
    pub src_port: u16,
    pub dst_port: u16,
    pub payload: &'a [u8],
}

/// Reads the IPv4 packet with a UDP datagram at offset `l3`.
pub fn parse_udp4_at(frame: &[u8], l3: usize) -> (r: Option<Udp4Ref<'_>>)
    requires
        l3 <= frame@.len(),
    ensures
        r is Some <==> is_udp4_at(frame@, l3 as int),
        r matches Some(p) ==> udp4_fields_at(
            frame@,
            l3 as int,
            p.src_ip,
            p.dst_ip,
            p.src_port,
            p.dst_port,
            p.payload@,
        ),
{
    if frame.len() - l3 < IPV4_HEADER_LEN + UDP_HEADER_LEN {
        return None;
    }
    if high_nibble(frame[l3]) != 4 {
        return None;
    }
    let ip_header_len: usize = low_nibble(frame[l3]) * 4;
    if ip_header_len < 20 {
        return None;
    }
    if frame[l3 + 9] != IP_PROTO_UDP {
        return None;
    }
    if frame.len() - l3 < ip_header_len + UDP_HEADER_LEN {
        return None;
    }
    let udp_start: usize = l3 + ip_header_len;
    let udp_len: usize = read_be16(frame, udp_start + 4) as usize;
    if udp_len < UDP_HEADER_LEN || frame.len() - udp_start < udp_len {
        return None;
    }
    Some(
        Udp4Ref {
            src_ip: read_ipv4(frame, l3 + 12),
            dst_ip: read_ipv4(frame, l3 + 16),
            src_port: read_be16(frame, udp_start),
            dst_port: read_be16(frame, udp_start + 2),
            payload: slice_of(frame, udp_start + UDP_HEADER_LEN, udp_start + udp_len),
        },
    )
}

/// Parses a UDP frame, tagged or not, borrowing its payload.
pub fn parse_udp_packet_ref(frame: &[u8]) -> (r: Option<ParsedUdpPacketRef<'_>>)
    ensures
        r is Some <==> is_udp4_frame(frame@),
        r matches Some(p) ==> p.describes(frame@),
{
    let layout = match detect_vlan(frame, None) {
        Some(layout) => layout,
        None => return None,
    };
    if layout.ethertype != ETH_TYPE_IPV4 {
        return None;
    }
    match parse_udp4_at(frame, layout.l3_offset) {
        Some(p) => Some(
            ParsedUdpPacketRef {
                src_mac: read_mac(frame, 6),
                src_ip: p.src_ip,
                dst_ip: p.dst_ip,
                src_port: p.src_port,
                dst_port: p.dst_port,
                payload: p.payload,
                vlan_id: vlan_id_of(&layout),
            },
        ),
        None => None,
    }
}

/// Parses a UDP frame, tagged or not.
pub fn parse_udp_packet(frame: &[u8]) -> (r: Option<ParsedUdpPacket>)
    ensures
        r is Some <==> is_udp4_frame(frame@),
        r matches Some(p) ==> p.describes(frame@),
{
    match parse_udp_packet_ref(frame) {
        Some(p) => Some(
            ParsedUdpPacket {
                src_mac: p.src_mac,
                dst_mac: read_mac(frame, 0),
                src_ip: p.src_ip,
                dst_ip: p.dst_ip,
                src_port: p.src_port,
                dst_port: p.dst_port,
                payload: copy_bytes(p.payload),
                vlan_id: p.vlan_id,
            },
        ),
        None => None,
    }
}

/// Parses the UDP frame in a packet buffer that may hold no data.
pub fn parse_udp_from_mbuf(data: Option<&[u8]>) -> (r: Option<ParsedUdpPacket>)
    ensures
        match data {
            Some(frame) => {
                &&& r is Some <==> is_udp4_frame(frame@)
                &&& r matches Some(p) ==> p.describes(frame@)
            },
            None => r is None,
        },
{
    match data {
        Some(frame) => parse_udp_packet(frame),
        None => None,
    }
}

// ---------------------------------------------------------------------------
// Verification of received frames
// ---------------------------------------------------------------------------

/// Whether the words of the IPv4 header of `frame` fold to all ones.
pub open spec fn ipv4_cksum_valid(frame: Seq<u8>) -> bool {
    match vlan::layout_of(frame, None) {
        Some(layout) => {
            let l3 = layout.l3_offset as int;
            let header_len = ip4_header_len(frame, l3);
            &&& l3 + IPV4_HEADER_LEN <= frame.len()
            &&& header_len >= 20
            &&& l3 + header_len <= frame.len()
            &&& checksum::folded(
                checksum::wrapped(checksum::word_sum(frame.subrange(l3, l3 + header_len))),
            ) == 0xFFFF
        },
        None => false,
    }
}

/// Whether the UDP checksum of `frame` is absent (zero) or right: the
/// pseudo-header and the datagram then fold to all ones.
pub open spec fn udp_cksum_valid(frame: Seq<u8>) -> bool {
    match vlan::layout_of(frame, None) {
        Some(layout) => {
            let l3 = layout.l3_offset as int;
            let udp = ip4_payload_start(frame, l3);
            let udp_len = udp_len_at(frame, udp);
            &&& l3 + IPV4_HEADER_LEN + UDP_HEADER_LEN <= frame.len()
            &&& udp + UDP_HEADER_LEN <= frame.len()
            &&& bytes::be16_at(frame, udp + 6) == 0 || {
                &&& udp + udp_len <= frame.len()
                &&& checksum::folded(
                    checksum::wrapped(
                        pseudo_sum(
                            addr::ipv4_at(frame, l3 + 12).bytes(),
                            addr::ipv4_at(frame, l3 + 16).bytes(),
                            udp_len,
                        ) + checksum::word_sum(frame.subrange(udp, udp + udp_len)),
                    ),
                ) == 0xFFFF
            }
        },
        None => false,
    }
}

/// Verifies the IPv4 header checksum of a tagged or untagged frame.
pub fn verify_ipv4_checksum(frame: &[u8]) -> (r: bool)
    ensures
        r == ipv4_cksum_valid(frame@),
{
    let layout = match detect_vlan(frame, None) {
        Some(layout) => layout,
        None => return false,
    };
    let l3: usize = layout.l3_offset;
    if frame.len() < l3 + IPV4_HEADER_LEN {
        return false;
    }
    let ip_header_len: usize = low_nibble(frame[l3]) * 4;
    if ip_header_len < 20 || frame.len() < l3 + ip_header_len {
        return false;
    }
    let mut sum: u32 = 0;
    checksum_add(&mut sum, slice_of(frame, l3, l3 + ip_header_len));
    fold32(sum) == 0xFFFF
}

/// Verifies the UDP checksum of a tagged or untagged frame. A zero checksum field
/// means that none was computed, and passes.
pub fn verify_udp_checksum(frame: &[u8]) -> (r: bool)
    ensures
        r == udp_cksum_valid(frame@),
{
    let layout = match detect_vlan(frame, None) {
        Some(layout) => layout,
        None => return false,
    };
    let l3: usize = layout.l3_offset;
    if frame.len() < l3 + IPV4_HEADER_LEN + UDP_HEADER_LEN {
        return false;
    }
    let udp_start: usize = l3 + low_nibble(frame[l3]) * 4;
    if frame.len() < udp_start + UDP_HEADER_LEN {
        return false;
    }
    if read_be16(frame, udp_start + 6) == 0 {
        return true;
    }
    let udp_len: usize = read_be16(frame, udp_start + 4) as usize;
    if frame.len() - udp_start < udp_len {
        return false;
    }
    let src_ip = read_ipv4(frame, l3 + 12).octets();
    let dst_ip = read_ipv4(frame, l3 + 16).octets();
    let mut sum: u32 = 0;
    add_pseudo_header(&mut sum, &src_ip, &dst_ip, udp_len as u32);
    let datagram = slice_of(frame, udp_start, udp_start + udp_len);
    checksum_add(&mut sum, datagram);
    proof {
        let p = pseudo_sum(src_ip@, dst_ip@, udp_len as int);
        checksum::lemma_wrapped_add(p, checksum::word_sum(datagram@));
    }
    fold32(sum) == 0xFFFF
}

// ---------------------------------------------------------------------------
// Laws
// ---------------------------------------------------------------------------

/// What an IPv4 packet with a UDP datagram says of itself wherever it stands in a
/// frame.
pub proof fn lemma_udp4_packet_at(
    pre: Seq<u8>,
    src_ip: Ipv4Addr,
    dst_ip: Ipv4Addr,
    src_port: u16,
    dst_port: u16,
    payload: Seq<u8>,
    ttl: u8,
)
    requires
        UDP_HEADER_LEN + payload.len() <= 0xFFFF,
    ensures
        ({
            let packet = udp4_packet(src_ip, dst_ip, src_port, dst_port, payload, ttl);
            let frame = pre + packet;
            let l3 = pre.len() as int;
            &&& is_udp4_at(frame, l3)
            &&& udp4_fields_at(frame, l3, src_ip, dst_ip, src_port, dst_port, payload)
            &&& ip4_header_len(frame, l3) == 20
            &&& udp_len_at(frame, l3 + 20) == UDP_HEADER_LEN + payload.len()
            &&& frame.subrange(l3, l3 + 20) == ipv4_header(
                ((28 + payload.len()) % 0x1_0000) as u16,
                dont_fragment(),
                ttl,
                IP_PROTO_UDP,
                src_ip,
                dst_ip,
            )
            &&& frame.subrange(l3 + 20, frame.len() as int) == udp_datagram(
                src_ip,
                dst_ip,
                src_port,
                dst_port,
                payload,
            )
        }),
{
    let total_len = ((28 + payload.len()) % 0x1_0000) as u16;
    let header = ipv4_header(total_len, dont_fragment(), ttl, IP_PROTO_UDP, src_ip, dst_ip);
    let datagram = udp_datagram(src_ip, dst_ip, src_port, dst_port, payload);
    let packet = header + datagram;
    let frame = pre + packet;
    let l3 = pre.len() as int;
    assert(header.len() == 20);
    assert(datagram.len() == 8 + payload.len());
    assert(frame.subrange(l3, l3 + 20) =~= header);
    assert(frame.subrange(l3 + 20, frame.len() as int) =~= datagram);
    assert(frame[l3] == header[0]);
    assert(frame[l3 + 9] == header[9]);
    assert(frame.subrange(l3 + 12, l3 + 16) =~= src_ip.bytes());
    assert(frame.subrange(l3 + 16, l3 + 20) =~= dst_ip.bytes());
    addr::lemma_ipv4_at_bytes(frame, l3 + 12, src_ip);
    addr::lemma_ipv4_at_bytes(frame, l3 + 16, dst_ip);
    let udp_len = (8 + payload.len()) as u16;
    bytes::lemma_be16_round_trip(src_port);
    bytes::lemma_be16_round_trip(dst_port);
    bytes::lemma_be16_round_trip(udp_len);
    assert(frame[l3 + 20] == bytes::be16_bytes(src_port)[0]);
    assert(frame[l3 + 21] == bytes::be16_bytes(src_port)[1]);
    assert(frame[l3 + 22] == bytes::be16_bytes(dst_port)[0]);
    assert(frame[l3 + 23] == bytes::be16_bytes(dst_port)[1]);
    assert(frame[l3 + 24] == bytes::be16_bytes(udp_len)[0]);
    assert(frame[l3 + 25] == bytes::be16_bytes(udp_len)[1]);
    assert(frame.subrange(l3 + 28, frame.len() as int) =~= payload);
}

/// A built frame parses back to what it was built from.
pub proof fn law_udp_frame_round_trip(
    src_mac: [u8; 6],
    dst_mac: [u8; 6],
    src_ip: Ipv4Addr,
    dst_ip: Ipv4Addr,
    src_port: u16,
    dst_port: u16,
    payload: Seq<u8>,
    ttl: u8,
)
    requires
        payload.len() <= max_payload(),
    ensures
        ({
            let frame = udp4_frame(
                src_mac@,
                dst_mac@,
                src_ip,
                dst_ip,
                src_port,
                dst_port,
                payload,
                ttl,
            );
            &&& is_udp4_frame(frame)
            &&& forall|p: ParsedUdpPacket| #[trigger]
                p.describes(frame) <==> {
                    &&& p.src_mac@ == src_mac@
                    &&& p.dst_mac@ == dst_mac@
                    &&& p.src_ip == src_ip
                    &&& p.dst_ip == dst_ip
                    &&& p.src_port == src_port
                    &&& p.dst_port == dst_port
                    &&& p.payload@ == payload
                    &&& p.vlan_id is None
                }
        }),
{
    let eth = eth_header(dst_mac@, src_mac@, ETH_TYPE_IPV4);
    let frame = udp4_frame(src_mac@, dst_mac@, src_ip, dst_ip, src_port, dst_port, payload, ttl);
    lemma_udp4_packet_at(eth, src_ip, dst_ip, src_port, dst_port, payload, ttl);
    bytes::lemma_be16_round_trip(ETH_TYPE_IPV4);
    assert(frame[12] == bytes::be16_bytes(ETH_TYPE_IPV4)[0]);
    assert(frame[13] == bytes::be16_bytes(ETH_TYPE_IPV4)[1]);
    assert(frame.subrange(0, 6) =~= dst_mac@);
    assert(frame.subrange(6, 12) =~= src_mac@);
}

/// A built tagged frame parses back to what it was built from, and its VLAN
/// identifier is the one in the tag.
pub proof fn law_udp_frame_tagged_round_trip(
    src_mac: [u8; 6],
    dst_mac: [u8; 6],
    src_ip: Ipv4Addr,
    dst_ip: Ipv4Addr,
    src_port: u16,
    dst_port: u16,
    payload: Seq<u8>,
    ttl: u8,
    tci: u16,
)
    requires
        payload.len() <= max_payload_tagged(),
    ensures
        ({
            let frame = udp4_frame_tagged(
                src_mac@,
                dst_mac@,
                src_ip,
                dst_ip,
                src_port,
                dst_port,
                payload,
                ttl,
                tci,
            );
            &&& is_udp4_frame(frame)
            &&& forall|p: ParsedUdpPacket| #[trigger]
                p.describes(frame) <==> {
                    &&& p.src_mac@ == src_mac@
                    &&& p.dst_mac@ == dst_mac@
                    &&& p.src_ip == src_ip
                    &&& p.dst_ip == dst_ip
                    &&& p.src_port == src_port
                    &&& p.dst_port == dst_port
                    &&& p.payload@ == payload
                    &&& p.vlan_id == Some(vlan::tci_vid(tci))
                }
        }),
{
    let eth = eth_header_tagged(dst_mac@, src_mac@, tci, ETH_TYPE_IPV4);
    let frame = udp4_frame_tagged(
        src_mac@,
        dst_mac@,
        src_ip,
        dst_ip,
        src_port,
        dst_port,
        payload,
        ttl,
        tci,
    );
    lemma_udp4_packet_at(eth, src_ip, dst_ip, src_port, dst_port, payload, ttl);
    bytes::lemma_be16_round_trip(ETH_TYPE_VLAN);
    bytes::lemma_be16_round_trip(ETH_TYPE_IPV4);
    bytes::lemma_be16_round_trip(tci);
    assert(frame[12] == bytes::be16_bytes(ETH_TYPE_VLAN)[0]);
    assert(frame[13] == bytes::be16_bytes(ETH_TYPE_VLAN)[1]);
    assert(frame[14] == bytes::be16_bytes(tci)[0]);
    assert(frame[15] == bytes::be16_bytes(tci)[1]);
    assert(frame[16] == bytes::be16_bytes(ETH_TYPE_IPV4)[0]);
    assert(frame[17] == bytes::be16_bytes(ETH_TYPE_IPV4)[1]);
    assert(frame.subrange(0, 6) =~= dst_mac@);
    assert(frame.subrange(6, 12) =~= src_mac@);
}

/// Bytes behind the datagram, such as those that fill a short frame up, change nothing of what
/// a frame says, nor whether its checksums hold.
pub proof fn law_padding_is_ignored(frame: Seq<u8>, pad: Seq<u8>)
    requires
        is_udp4_frame(frame),
    ensures
        is_udp4_frame(frame + pad),
        ipv4_cksum_valid(frame + pad) == ipv4_cksum_valid(frame),
        udp_cksum_valid(frame + pad) == udp_cksum_valid(frame),
        forall|p: ParsedUdpPacket| #[trigger] p.describes(frame + pad) <==> p.describes(frame),
        forall|p: ParsedUdpPacketRef<'_>| #[trigger]
            p.describes(frame + pad) <==> p.describes(frame),
{
    let padded = frame + pad;
    let l3 = vlan::layout_of(frame, None)->Some_0.l3_offset as int;
    let udp = ip4_payload_start(frame, l3);
    let end = udp + udp_len_at(frame, udp);
    assert(vlan::layout_of(padded, None) == vlan::layout_of(frame, None));
    assert(ip4_payload_start(padded, l3) == udp);
    assert(udp_len_at(padded, udp) == udp_len_at(frame, udp));
    assert(padded.subrange(0, 6) =~= frame.subrange(0, 6));
    assert(padded.subrange(6, 12) =~= frame.subrange(6, 12));
    assert(padded.subrange(l3, udp) =~= frame.subrange(l3, udp));
    assert(padded.subrange(udp, end) =~= frame.subrange(udp, end));
    assert(udp_payload_at(padded, udp) =~= udp_payload_at(frame, udp));
    assert(addr::ipv4_at(padded, l3 + 12) == addr::ipv4_at(frame, l3 + 12));
    assert(addr::ipv4_at(padded, l3 + 16) == addr::ipv4_at(frame, l3 + 16));
    assert(bytes::be16_at(padded, udp + 6) == bytes::be16_at(frame, udp + 6));
}

/// The tag makes a frame four bytes longer and changes nothing before or behind it.
pub proof fn law_tag_adds_four_bytes(
    src_mac: [u8; 6],
    dst_mac: [u8; 6],
    src_ip: Ipv4Addr,
    dst_ip: Ipv4Addr,
    src_port: u16,
    dst_port: u16,
    payload: Seq<u8>,
    ttl: u8,
    tci: u16,
)
    ensures
        ({
            let plain = udp4_frame(
                src_mac@,
                dst_mac@,
                src_ip,
                dst_ip,
                src_port,
                dst_port,
                payload,
                ttl,
            );
            let tagged = udp4_frame_tagged(
                src_mac@,
                dst_mac@,
                src_ip,
                dst_ip,
                src_port,
                dst_port,
                payload,
                ttl,
                tci,
            );
            &&& tagged.len() == plain.len() + 4
            &&& tagged.subrange(0, 12) == plain.subrange(0, 12)
            &&& tagged.subrange(12, 16) == bytes::be16_bytes(ETH_TYPE_VLAN) + bytes::be16_bytes(tci)
            &&& tagged.subrange(16, tagged.len() as int) == plain.subrange(12, plain.len() as int)
        }),
{
    let plain = udp4_frame(src_mac@, dst_mac@, src_ip, dst_ip, src_port, dst_port, payload, ttl);
    let tagged = udp4_frame_tagged(
        src_mac@,
        dst_mac@,
        src_ip,
        dst_ip,
        src_port,
        dst_port,
        payload,
        ttl,
        tci,
    );
    assert(tagged.subrange(0, 12) =~= plain.subrange(0, 12));
    assert(tagged.subrange(12, 16) =~= bytes::be16_bytes(ETH_TYPE_VLAN) + bytes::be16_bytes(tci));
    assert(tagged.subrange(16, tagged.len() as int) =~= plain.subrange(12, plain.len() as int));
}

/// The checksums of a UDP packet verify behind any link-layer header.
pub proof fn lemma_udp4_frame_verifies(
    pre: Seq<u8>,
    src_ip: Ipv4Addr,
    dst_ip: Ipv4Addr,
    src_port: u16,
    dst_port: u16,
    payload: Seq<u8>,
    ttl: u8,
)
    requires
        UDP_HEADER_LEN + payload.len() <= 0xFFFF,
        ({
            let frame = pre + udp4_packet(src_ip, dst_ip, src_port, dst_port, payload, ttl);
            vlan::layout_of(frame, None) matches Some(layout) && layout.l3_offset == pre.len()
        }),
    ensures
        ({
            let frame = pre + udp4_packet(src_ip, dst_ip, src_port, dst_port, payload, ttl);
            &&& ipv4_cksum_valid(frame)
            &&& udp_cksum_valid(frame)
        }),
{
    let frame = pre + udp4_packet(src_ip, dst_ip, src_port, dst_port, payload, ttl);
    let l3 = pre.len() as int;
    lemma_udp4_packet_at(pre, src_ip, dst_ip, src_port, dst_port, payload, ttl);
    lemma_udp4_packet_len(src_ip, dst_ip, src_port, dst_port, payload, ttl);
    lemma_ipv4_header_verifies(
        ((28 + payload.len()) % 0x1_0000) as u16,
        dont_fragment(),
        ttl,
        IP_PROTO_UDP,
        src_ip,
        dst_ip,
    );
    lemma_udp_datagram_verifies(src_ip, dst_ip, src_port, dst_port, payload);
    assert(l3 + 20 + udp_len_at(frame, l3 + 20) == frame.len());
}

/// The UDP checksum comes out of the pseudo-header checksum: adding up a datagram whose
/// checksum field holds it, and taking the complement, gives the checksum of the datagram.
pub proof fn law_pseudo_header_completes(
    src_ip: Ipv4Addr,
    dst_ip: Ipv4Addr,
    src_port: u16,
    dst_port: u16,
    udp_len: u16,
    payload: Seq<u8>,
)
    requires
        udp_len == UDP_HEADER_LEN + payload.len(),
    ensures
        checksum::complement_nonzero(
            checksum::word_sum(
                udp_header(
                    src_port,
                    dst_port,
                    udp_len,
                    pseudo_cksum(src_ip.bytes(), dst_ip.bytes(), udp_len),
                ) + payload,
            ),
        ) == udp_cksum(
            src_ip.bytes(),
            dst_ip.bytes(),
            udp_header(src_port, dst_port, udp_len, 0),
            payload,
        ),
{
    let start = pseudo_cksum(src_ip.bytes(), dst_ip.bytes(), udp_len);
    let pseudo = pseudo_sum(src_ip.bytes(), dst_ip.bytes(), udp_len as int);
    let head = bytes::be16_bytes(src_port) + bytes::be16_bytes(dst_port) + bytes::be16_bytes(
        udp_len,
    );
    let blank = udp_header(src_port, dst_port, udp_len, 0);
    lemma_udp_header_blanked(src_port, dst_port, udp_len, 0);
    lemma_word_sum_field(head, 0, Seq::empty());
    lemma_word_sum_field(head, start, payload);
    assert(head + bytes::be16_bytes(0) + Seq::<u8>::empty() =~= blank);
    checksum::lemma_word_sum_bounds(src_ip.bytes());
    checksum::lemma_word_sum_bounds(dst_ip.bytes());
    checksum::lemma_word_sum_bounds(head);
    checksum::lemma_word_sum_bounds(payload);
    let rest = checksum::word_sum(head) + checksum::word_sum(payload);
    checksum::lemma_complement_of_folded(pseudo, rest);
    assert(udp_sum(src_ip.bytes(), dst_ip.bytes(), blank, payload) == pseudo + rest);
    assert(checksum::word_sum(udp_header(src_port, dst_port, udp_len, start) + payload) == start
        + rest);
}

/// The checksums of a built frame, tagged or not, verify.
pub proof fn law_built_checksums_verify(
    src_mac: [u8; 6],
    dst_mac: [u8; 6],
    src_ip: Ipv4Addr,
    dst_ip: Ipv4Addr,
    src_port: u16,
    dst_port: u16,
    payload: Seq<u8>,
    ttl: u8,
    tci: u16,
)
    requires
        payload.len() <= max_payload(),
    ensures
        ({
            let plain = udp4_frame(
                src_mac@,
                dst_mac@,
                src_ip,
                dst_ip,
                src_port,
                dst_port,
                payload,
                ttl,
            );
            &&& ipv4_cksum_valid(plain)
            &&& udp_cksum_valid(plain)
        }),
        ({
            let tagged = udp4_frame_tagged(
                src_mac@,
                dst_mac@,
                src_ip,
                dst_ip,
                src_port,
                dst_port,
                payload,
                ttl,
                tci,
            );
            &&& ipv4_cksum_valid(tagged)
            &&& udp_cksum_valid(tagged)
        }),
{
    let eth = eth_header(dst_mac@, src_mac@, ETH_TYPE_IPV4);
    let plain = eth + udp4_packet(src_ip, dst_ip, src_port, dst_port, payload, ttl);
    bytes::lemma_be16_round_trip(ETH_TYPE_IPV4);
    assert(plain[12] == bytes::be16_bytes(ETH_TYPE_IPV4)[0]);
    assert(plain[13] == bytes::be16_bytes(ETH_TYPE_IPV4)[1]);
    assert(eth.len() == 14);
    lemma_udp4_frame_verifies(eth, src_ip, dst_ip, src_port, dst_port, payload, ttl);

    let eth2 = eth_header_tagged(dst_mac@, src_mac@, tci, ETH_TYPE_IPV4);
    let tagged = eth2 + udp4_packet(src_ip, dst_ip, src_port, dst_port, payload, ttl);
    bytes::lemma_be16_round_trip(ETH_TYPE_VLAN);
    assert(tagged[12] == bytes::be16_bytes(ETH_TYPE_VLAN)[0]);
    assert(tagged[13] == bytes::be16_bytes(ETH_TYPE_VLAN)[1]);
    assert(eth2.len() == 18);
    lemma_udp4_frame_verifies(eth2, src_ip, dst_ip, src_port, dst_port, payload, ttl);
}

/// A built frame with bytes behind it parses back to what it was built from, and its checksums
/// verify.
pub proof fn law_padded_udp_frame_round_trip(
    src_mac: [u8; 6],
    dst_mac: [u8; 6],
    src_ip: Ipv4Addr,
    dst_ip: Ipv4Addr,
    src_port: u16,
    dst_port: u16,
    payload: Seq<u8>,
    ttl: u8,
    pad: Seq<u8>,
)
    requires
        payload.len() <= max_payload(),
    ensures
        ({
            let frame = udp4_frame(
                src_mac@,
                dst_mac@,
                src_ip,
                dst_ip,
                src_port,
                dst_port,
                payload,
                ttl,
            ) + pad;
            &&& is_udp4_frame(frame)
            &&& ipv4_cksum_valid(frame)
            &&& udp_cksum_valid(frame)
            &&& forall|p: ParsedUdpPacket| #[trigger]
                p.describes(frame) <==> {
                    &&& p.src_mac@ == src_mac@
                    &&& p.dst_mac@ == dst_mac@
                    &&& p.src_ip == src_ip
                    &&& p.dst_ip == dst_ip
                    &&& p.src_port == src_port
                    &&& p.dst_port == dst_port
                    &&& p.payload@ == payload
                    &&& p.vlan_id is None
                }
        }),
{
    law_udp_frame_round_trip(
        src_mac,
        dst_mac,
        src_ip,
        dst_ip,
        src_port,
        dst_port,
        payload,
        ttl,
    );
    law_built_checksums_verify(
        src_mac,
        dst_mac,
        src_ip,
        dst_ip,
        src_port,
        dst_port,
        payload,
        ttl,
        0,
    );
    let frame = udp4_frame(src_mac@, dst_mac@, src_ip, dst_ip, src_port, dst_port, payload, ttl);
    law_padding_is_ignored(frame, pad);
}

/// A built tagged frame with bytes behind it parses back to what it was built from, and its
/// checksums verify.
pub proof fn law_padded_udp_frame_tagged_round_trip(
    src_mac: [u8; 6],
    dst_mac: [u8; 6],
    src_ip: Ipv4Addr,
    dst_ip: Ipv4Addr,
    src_port: u16,
    dst_port: u16,
    payload: Seq<u8>,
    ttl: u8,
    tci: u16,
    pad: Seq<u8>,
)
    requires
        payload.len() <= max_payload_tagged(),
    ensures
        ({
            let frame = udp4_frame_tagged(
                src_mac@,
                dst_mac@,
                src_ip,
                dst_ip,
                src_port,
                dst_port,
                payload,
                ttl,
                tci,
            ) + pad;
            &&& is_udp4_frame(frame)
            &&& ipv4_cksum_valid(frame)
            &&& udp_cksum_valid(frame)
            &&& forall|p: ParsedUdpPacket| #[trigger]
                p.describes(frame) <==> {
                    &&& p.src_mac@ == src_mac@
                    &&& p.dst_mac@ == dst_mac@
                    &&& p.src_ip == src_ip
                    &&& p.dst_ip == dst_ip
                    &&& p.src_port == src_port
                    &&& p.dst_port == dst_port
                    &&& p.payload@ == payload
                    &&& p.vlan_id == Some(vlan::tci_vid(tci))
                }
        }),
{
    law_udp_frame_tagged_round_trip(
        src_mac,
        dst_mac,
        src_ip,
        dst_ip,
        src_port,
        dst_port,
        payload,
        ttl,
        tci,
    );
    law_built_checksums_verify(
        src_mac,
        dst_mac,
        src_ip,
        dst_ip,
        src_port,
        dst_port,
        payload,
        ttl,
        tci,
    );
    let frame = udp4_frame_tagged(
        src_mac@,
        dst_mac@,
        src_ip,
        dst_ip,
        src_port,
        dst_port,
        payload,
        ttl,
        tci,
    );
    law_padding_is_ignored(frame, pad);
}

/// A part of a changed byte string: the changed part, if the change lies in it, or the
/// part as it was.
pub proof fn lemma_changed_part(s: Seq<u8>, i: int, b: u8, from: int, to: int)
    requires
        0 <= i < s.len(),
        0 <= from <= to <= s.len(),
    ensures
        s.update(i, b).subrange(from, to) == if from <= i < to {
            s.subrange(from, to).update(i - from, b)
        } else {
            s.subrange(from, to)
        },
        from <= i < to ==> s.subrange(from, to)[i - from] == s[i],
{
    let part = s.update(i, b).subrange(from, to);
    if from <= i < to {
        assert(part =~= s.subrange(from, to).update(i - from, b));
    } else {
        assert(part =~= s.subrange(from, to));
    }
}

/// The sum of the words of a part of a byte string in which one byte is changed.
pub proof fn lemma_changed_part_sum(s: Seq<u8>, i: int, b: u8, from: int, to: int)
    requires
        0 <= i < s.len(),
        0 <= from <= to <= s.len(),
        from % 2 == 0,
    ensures
        checksum::word_sum(s.update(i, b).subrange(from, to)) == checksum::word_sum(
            s.subrange(from, to),
        ) + if from <= i < to {
            (b - s[i]) * checksum::weight(i)
        } else {
            0
        },
{
    lemma_changed_part(s, i, b, from, to);
    if from <= i < to {
        checksum::lemma_word_sum_update(s.subrange(from, to), i - from, b);
    }
}

/// Damage to an IPv4 header is noticed: when the header checksum of a frame verifies, it no
/// longer does once any one byte of the header is changed. The header length must stay as it
/// is, because it says which bytes the checksum covers.
pub proof fn law_ipv4_damage_is_noticed(frame: Seq<u8>, i: int, b: u8)
    requires
        ipv4_cksum_valid(frame),
        ({
            let l3 = vlan::layout_of(frame, None)->Some_0.l3();
            &&& l3 <= i < l3 + ip4_header_len(frame, l3)
            &&& b != frame[i]
            &&& i == l3 ==> b % 16 == frame[i] % 16
        }),
    ensures
        !ipv4_cksum_valid(frame.update(i, b)),
{
    let l3 = vlan::layout_of(frame, None)->Some_0.l3();
    let end = l3 + ip4_header_len(frame, l3);
    let damaged = frame.update(i, b);
    let part = frame.subrange(l3, end);
    let damaged_part = damaged.subrange(l3, end);
    lemma_changed_part_sum(frame, i, b, l3, end);
    checksum::lemma_byte_change(frame[i], b, i);
    checksum::lemma_word_sum_bounds(part);
    checksum::lemma_word_sum_bounds(damaged_part);
    checksum::lemma_change_is_seen(
        checksum::word_sum(part),
        checksum::word_sum(damaged_part),
    );
}

/// Damage to a datagram over IPv4 is noticed: when a frame has a UDP checksum and it
/// verifies, it no longer does once any one byte of the addresses, the ports, the checksum or
/// the payload is changed. The one exception is a change that makes the checksum field zero,
/// which says that there is no checksum. The length field is left out, because it says which
/// bytes the checksum covers.
pub proof fn law_udp_damage_is_noticed(frame: Seq<u8>, i: int, b: u8)
    requires
        is_udp4_frame(frame),
        udp_cksum_valid(frame),
        ({
            let l3 = vlan::layout_of(frame, None)->Some_0.l3();
            let start = ip4_payload_start(frame, l3);
            &&& bytes::be16_at(frame, start + 6) != 0
            &&& l3 + 12 <= i < l3 + 20 || start <= i < start + 4 || start + 6 <= i < start
                + udp_len_at(frame, start)
            &&& b != frame[i]
        }),
    ensures
        ({
            let l3 = vlan::layout_of(frame, None)->Some_0.l3();
            let start = ip4_payload_start(frame, l3);
            let damaged = frame.update(i, b);
            udp_cksum_valid(damaged) <==> bytes::be16_at(damaged, start + 6) == 0
        }),
{
    let l3 = vlan::layout_of(frame, None)->Some_0.l3();
    let start = ip4_payload_start(frame, l3);
    let udp_len = udp_len_at(frame, start);
    let damaged = frame.update(i, b);
    assert(damaged[l3] == frame[l3]);
    assert(udp_len_at(damaged, start) == udp_len);
    addr::lemma_bytes_of_ipv4_at(frame, l3 + 12);
    addr::lemma_bytes_of_ipv4_at(frame, l3 + 16);
    addr::lemma_bytes_of_ipv4_at(damaged, l3 + 12);
    addr::lemma_bytes_of_ipv4_at(damaged, l3 + 16);
    lemma_changed_part_sum(frame, i, b, l3 + 12, l3 + 16);
    lemma_changed_part_sum(frame, i, b, l3 + 16, l3 + 20);
    lemma_changed_part_sum(frame, i, b, start, start + udp_len);
    checksum::lemma_byte_change(frame[i], b, i);
    checksum::lemma_word_sum_bounds(frame.subrange(l3 + 12, l3 + 16));
    checksum::lemma_word_sum_bounds(frame.subrange(l3 + 16, l3 + 20));
    checksum::lemma_word_sum_bounds(frame.subrange(start, start + udp_len));
    checksum::lemma_word_sum_bounds(damaged.subrange(l3 + 12, l3 + 16));
    checksum::lemma_word_sum_bounds(damaged.subrange(l3 + 16, l3 + 20));
    checksum::lemma_word_sum_bounds(damaged.subrange(start, start + udp_len));
    let n = pseudo_sum(
        addr::ipv4_at(frame, l3 + 12).bytes(),
        addr::ipv4_at(frame, l3 + 16).bytes(),
        udp_len,
    ) + checksum::word_sum(frame.subrange(start, start + udp_len));
    let m = pseudo_sum(
        addr::ipv4_at(damaged, l3 + 12).bytes(),
        addr::ipv4_at(damaged, l3 + 16).bytes(),
        udp_len,
    ) + checksum::word_sum(damaged.subrange(start, start + udp_len));
    assert(m == n + (b - frame[i]) * checksum::weight(i));
    checksum::lemma_change_is_seen(n, m);
}

/// Whether damage to the datagram of a frame with its IPv4 header at `l3` is noticed: the
/// UDP checksum verifies as long as nothing is changed, and when its field is blanked. It
/// does not once the byte `i` behind `l3` is changed to `b`, unless that blanks the field.
pub open spec fn damage_is_noticed(frame: Seq<u8>, l3: int, i: int, b: u8) -> bool {
    let damaged = frame.update(l3 + i, b);
    &&& udp_cksum_valid(frame)
    &&& udp_cksum_valid(frame.update(l3 + 26, 0).update(l3 + 27, 0))
    &&& b != frame[l3 + i] ==> (udp_cksum_valid(damaged) <==> bytes::be16_at(damaged, l3 + 26)
        == 0)
}

/// Damage to the datagram of a frame is noticed when its IPv4 header has no options.
proof fn lemma_damage_is_noticed_at(frame: Seq<u8>, l3: int, i: int, b: u8)
    requires
        vlan::layout_of(frame, None) matches Some(layout) && layout.l3_offset == l3
            && layout.ethertype == ETH_TYPE_IPV4,
        is_udp4_at(frame, l3),
        ip4_header_len(frame, l3) == 20,
        udp_cksum_valid(frame),
        bytes::be16_at(frame, l3 + 26) != 0,
        12 <= i < 24 || 26 <= i < 20 + udp_len_at(frame, l3 + 20),
    ensures
        damage_is_noticed(frame, l3, i, b),
{
    let blank = frame.update(l3 + 26, 0).update(l3 + 27, 0);
    assert(blank[l3] == frame[l3]);
    assert(bytes::be16_at(blank, l3 + 26) == 0);
    if b != frame[l3 + i] {
        law_udp_damage_is_noticed(frame, l3 + i, b);
    }
}

/// The checksum field of a datagram is not zero.
proof fn lemma_datagram_has_cksum(
    src_ip: Ipv4Addr,
    dst_ip: Ipv4Addr,
    src_port: u16,
    dst_port: u16,
    payload: Seq<u8>,
)
    ensures
        udp_datagram(src_ip, dst_ip, src_port, dst_port, payload).len() == 8 + payload.len(),
        bytes::be16_at(udp_datagram(src_ip, dst_ip, src_port, dst_port, payload), 6) != 0,
{
    let udp_len = ((UDP_HEADER_LEN + payload.len()) % 0x1_0000) as u16;
    let cksum = udp_cksum(
        src_ip.bytes(),
        dst_ip.bytes(),
        udp_header(src_port, dst_port, udp_len, 0),
        payload,
    );
    let header = udp_header(src_port, dst_port, udp_len, cksum);
    let datagram = udp_datagram(src_ip, dst_ip, src_port, dst_port, payload);
    bytes::lemma_be16_round_trip(cksum);
    assert(datagram == header + payload);
    assert(header.len() == 8);
    assert(datagram[6] == header[6] && header[6] == bytes::be16_bytes(cksum)[0]);
    assert(datagram[7] == header[7] && header[7] == bytes::be16_bytes(cksum)[1]);
}

/// Damage to a UDP packet is noticed behind any link-layer header.
proof fn lemma_udp4_damage_is_noticed(
    pre: Seq<u8>,
    src_ip: Ipv4Addr,
    dst_ip: Ipv4Addr,
    src_port: u16,
    dst_port: u16,
    payload: Seq<u8>,
    ttl: u8,
    i: int,
    b: u8,
)
    requires
        UDP_HEADER_LEN + payload.len() <= 0xFFFF,
        12 <= i < 24 || 26 <= i < 28 + payload.len(),
        ({
            let frame = pre + udp4_packet(src_ip, dst_ip, src_port, dst_port, payload, ttl);
            vlan::layout_of(frame, None) matches Some(layout) && layout.l3_offset == pre.len()
                && layout.ethertype == ETH_TYPE_IPV4
        }),
    ensures
        damage_is_noticed(
            pre + udp4_packet(src_ip, dst_ip, src_port, dst_port, payload, ttl),
            pre.len() as int,
            i,
            b,
        ),
{
    let frame = pre + udp4_packet(src_ip, dst_ip, src_port, dst_port, payload, ttl);
    let l3 = pre.len() as int;
    lemma_udp4_packet_at(pre, src_ip, dst_ip, src_port, dst_port, payload, ttl);
    lemma_udp4_frame_verifies(pre, src_ip, dst_ip, src_port, dst_port, payload, ttl);
    lemma_datagram_has_cksum(src_ip, dst_ip, src_port, dst_port, payload);
    let datagram = frame.subrange(l3 + 20, frame.len() as int);
    assert(frame[l3 + 26] == datagram[6] && frame[l3 + 27] == datagram[7]);
    lemma_damage_is_noticed_at(frame, l3, i, b);
}

/// Damage to a built frame, tagged or not, is noticed: once any one byte of the addresses,
/// the ports, the checksum or the payload is changed, its UDP checksum no longer verifies,
/// unless the change makes the checksum field zero. A blanked checksum verifies. The index
/// `i` counts from the IPv4 header.
pub proof fn law_built_damage_is_noticed(
    src_mac: [u8; 6],
    dst_mac: [u8; 6],
    src_ip: Ipv4Addr,
    dst_ip: Ipv4Addr,
    src_port: u16,
    dst_port: u16,
    payload: Seq<u8>,
    ttl: u8,
    tci: u16,
    i: int,
    b: u8,
)
    requires
        payload.len() <= max_payload(),
        12 <= i < 24 || 26 <= i < 28 + payload.len(),
    ensures
        damage_is_noticed(
            udp4_frame(src_mac@, dst_mac@, src_ip, dst_ip, src_port, dst_port, payload, ttl),
            14,
            i,
            b,
        ),
        damage_is_noticed(
            udp4_frame_tagged(
                src_mac@,
                dst_mac@,
                src_ip,
                dst_ip,
                src_port,
                dst_port,
                payload,
                ttl,
                tci,
            ),
            18,
            i,
            b,
        ),
{
    let eth = eth_header(dst_mac@, src_mac@, ETH_TYPE_IPV4);
    let plain = eth + udp4_packet(src_ip, dst_ip, src_port, dst_port, payload, ttl);
    bytes::lemma_be16_round_trip(ETH_TYPE_IPV4);
    assert(eth.len() == 14);
    assert(plain[12] == bytes::be16_bytes(ETH_TYPE_IPV4)[0]);
    assert(plain[13] == bytes::be16_bytes(ETH_TYPE_IPV4)[1]);
    lemma_udp4_damage_is_noticed(eth, src_ip, dst_ip, src_port, dst_port, payload, ttl, i, b);

    let eth2 = eth_header_tagged(dst_mac@, src_mac@, tci, ETH_TYPE_IPV4);
    let tagged = eth2 + udp4_packet(src_ip, dst_ip, src_port, dst_port, payload, ttl);
    bytes::lemma_be16_round_trip(ETH_TYPE_VLAN);
    assert(eth2.len() == 18);
    assert(tagged[12] == bytes::be16_bytes(ETH_TYPE_VLAN)[0]);
    assert(tagged[13] == bytes::be16_bytes(ETH_TYPE_VLAN)[1]);
    assert(tagged[16] == bytes::be16_bytes(ETH_TYPE_IPV4)[0]);
    assert(tagged[17] == bytes::be16_bytes(ETH_TYPE_IPV4)[1]);
    lemma_udp4_damage_is_noticed(eth2, src_ip, dst_ip, src_port, dst_port, payload, ttl, i, b);
}

} // verus!
