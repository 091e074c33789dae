//! ICMPv6 and Neighbor Discovery on the wire, byte by byte: what is taken as which message, where
//! the fields of built messages stand, and what is answered.

use vstd::prelude::*;

use crate::addr;
use crate::addr::Ipv6Addr;
use crate::bytes;
use crate::checksum;
use crate::error::ErrorKind;
use crate::icmpv6;
use crate::icmpv6::Icmpv6View;
use crate::ipv6;
use crate::ipv6_addr;
use crate::ndp;
use crate::ndp::NdpView;
use crate::text;
use crate::udp;
use crate::wire6_laws;

verus! {

// ---------------------------------------------------------------------------
// ICMPv6
// ---------------------------------------------------------------------------

/// A frame is an ICMPv6 echo message exactly if it has the EtherType 0x86DD, behind the tag if it
/// has one, a fixed header of version 6, the upper-layer protocol 58, eight bytes there, and type
/// 128 or 129. The bytes hold type, code, checksum, identifier and sequence number; what follows
/// is the payload.
pub proof fn law_what_is_an_echo6_message(frame: Seq<u8>)
    requires
        frame.len() >= 14,
    ensures
        ({
            let l3 = wire6_laws::header_offset(frame);
            let upper = ipv6::upper_layer(frame.skip(l3));
            let start = l3 + upper->Some_0.payload_offset;
            &&& icmpv6::icmpv6_parse(frame) is Some <==> {
                &&& frame.len() >= l3 + 40
                &&& frame[l3 - 2] == 0x86 && frame[l3 - 1] == 0xDD
                &&& frame[l3] / 16 == 6
                &&& upper matches Some(nh) && nh.protocol == 58
                &&& start + 8 <= frame.len()
                &&& frame[start] == 128 || frame[start] == 129
            }
            &&& icmpv6::icmpv6_parse(frame) matches Some(v) ==> {
                &&& v.dst_mac == frame.subrange(0, 6)
                &&& v.src_mac == frame.subrange(6, 12)
                &&& v.src_ip.bytes() == frame.subrange(l3 + 8, l3 + 24)
                &&& v.dst_ip.bytes() == frame.subrange(l3 + 24, l3 + 40)
                &&& v.hop_limit == frame[l3 + 7]
                &&& v.icmp_type == frame[start]
                &&& v.icmp_code == frame[start + 1]
                &&& v.checksum == frame[start + 2] * 256 + frame[start + 3]
                &&& v.identifier == frame[start + 4] * 256 + frame[start + 5]
                &&& v.sequence == frame[start + 6] * 256 + frame[start + 7]
                &&& v.payload == frame.skip(start + 8)
            }
        }),
{
    let l3 = wire6_laws::header_offset(frame);
    lemma_rest_of_frame(frame, l3);
    if l3 + 40 <= frame.len() {
        addr::lemma_bytes_of_ipv6_at(frame, l3 + 8);
        addr::lemma_bytes_of_ipv6_at(frame, l3 + 24);
    }
}

/// The rest of a frame, said in two ways.
proof fn lemma_rest_of_frame(frame: Seq<u8>, at: int)
    ensures
        0 <= at <= frame.len() ==> frame.skip(at) == frame.subrange(at, seq_len(frame)),
{
}

/// The length of a sequence.
spec fn seq_len(s: Seq<u8>) -> int {
    s.len() as int
}

/// Where the ICMPv6 message of a frame starts.
proof fn lemma_control6_start(frame: Seq<u8>)
    requires
        frame.len() >= 14,
    ensures
        ({
            let l3 = wire6_laws::header_offset(frame);
            let upper = ipv6::upper_layer(frame.skip(l3));
            let start = l3 + upper->Some_0.payload_offset;
            let found = {
                &&& frame.len() >= l3 + 40
                &&& frame[l3 - 2] == 0x86 && frame[l3 - 1] == 0xDD
                &&& frame[l3] / 16 == 6
                &&& upper matches Some(nh) && nh.protocol == 58
                &&& start + 8 <= frame.len()
            };
            &&& icmpv6::icmpv6_start(frame) is Some <==> found
            &&& found ==> icmpv6::icmpv6_start(frame) == Some(start) && ipv6::ipv6_start(frame)
                == Some(l3)
        }),
{
    lemma_rest_of_frame(frame, wire6_laws::header_offset(frame));
}

/// What an error about the packet at `orig` takes.
proof fn lemma_error6_at(frame: Seq<u8>, l3: int, start: int)
    requires
        icmpv6::icmpv6_start(frame) == Some(start),
        ipv6::ipv6_start(frame) == Some(l3),
        0 <= l3,
        l3 + 40 <= frame.len(),
        l3 <= start,
    ensures
        ({
            let orig = start + 8;
            let inner = ipv6::upper_layer(frame.skip(orig));
            let ports = orig + inner->Some_0.payload_offset;
            &&& icmpv6::icmpv6_error_of(frame) is Some <==> {
                &&& orig + 48 <= frame.len()
                &&& 1 <= frame[start] <= 4
                &&& frame[orig] / 16 == 6
                &&& inner matches Some(nh) && nh.protocol == 17
                &&& ports + 4 <= frame.len()
            }
            &&& icmpv6::icmpv6_error_of(frame) matches Some(info) ==> {
                &&& info.icmp_type == frame[start]
                &&& info.icmp_code == frame[start + 1]
                &&& info.error_source.bytes() == frame.subrange(l3 + 8, l3 + 24)
                &&& info.original_src_ip.bytes() == frame.subrange(orig + 8, orig + 24)
                &&& info.original_dst_ip.bytes() == frame.subrange(orig + 24, orig + 40)
                &&& info.original_src_port == frame[ports] * 256 + frame[ports + 1]
                &&& info.original_dst_port == frame[ports + 2] * 256 + frame[ports + 3]
                &&& info.mtu == if frame[start] == 2 {
                    frame[start + 4] * 0x100_0000 + frame[start + 5] * 0x1_0000 + frame[start + 6]
                        * 256 + frame[start + 7]
                } else {
                    0
                }
            }
        }),
{
    let orig = start + 8;
    lemma_rest_of_frame(frame, orig);
    addr::lemma_bytes_of_ipv6_at(frame, l3 + 8);
    if orig + 48 <= frame.len() {
        addr::lemma_bytes_of_ipv6_at(frame, orig + 8);
        addr::lemma_bytes_of_ipv6_at(frame, orig + 24);
    }
}

/// A frame reports an error over IPv6 exactly if it is an ICMPv6 message of type 1, 2, 3 or 4 with
/// room for 48 bytes of the packet in question, and that packet is of version 6 with the
/// upper-layer protocol 17 and its ports. What is reported: type and code, the source of the
/// message, the addresses and ports of the packet, and for type 2 the MTU.
pub proof fn law_what_reports_an_error6(frame: Seq<u8>)
    requires
        frame.len() >= 14,
    ensures
        ({
            let l3 = wire6_laws::header_offset(frame);
            let upper = ipv6::upper_layer(frame.skip(l3));
            let start = l3 + upper->Some_0.payload_offset;
            let orig = start + 8;
            let inner = ipv6::upper_layer(frame.skip(orig));
            let ports = orig + inner->Some_0.payload_offset;
            &&& icmpv6::icmpv6_error_of(frame) is Some <==> {
                &&& frame.len() >= l3 + 40
                &&& frame[l3 - 2] == 0x86 && frame[l3 - 1] == 0xDD
                &&& frame[l3] / 16 == 6
                &&& upper matches Some(nh) && nh.protocol == 58
                &&& orig + 48 <= frame.len()
                &&& 1 <= frame[start] <= 4
                &&& frame[orig] / 16 == 6
                &&& inner matches Some(nh) && nh.protocol == 17
                &&& ports + 4 <= frame.len()
            }
            &&& icmpv6::icmpv6_error_of(frame) matches Some(info) ==> {
                &&& info.icmp_type == frame[start]
                &&& info.icmp_code == frame[start + 1]
                &&& info.error_source.bytes() == frame.subrange(l3 + 8, l3 + 24)
                &&& info.original_src_ip.bytes() == frame.subrange(orig + 8, orig + 24)
                &&& info.original_dst_ip.bytes() == frame.subrange(orig + 24, orig + 40)
                &&& info.original_src_port == frame[ports] * 256 + frame[ports + 1]
                &&& info.original_dst_port == frame[ports + 2] * 256 + frame[ports + 3]
                &&& info.mtu == if frame[start] == 2 {
                    frame[start + 4] * 0x100_0000 + frame[start + 5] * 0x1_0000 + frame[start + 6]
                        * 256 + frame[start + 7]
                } else {
                    0
                }
            }
        }),
{
    let l3 = wire6_laws::header_offset(frame);
    let start = l3 + ipv6::upper_layer(frame.skip(l3))->Some_0.payload_offset;
    lemma_control6_start(frame);
    if icmpv6::icmpv6_start(frame) is Some {
        lemma_error6_at(frame, l3, start);
    }
}

/// What kind of error a report over IPv6 is.
pub proof fn law_kinds_of_reports6(kind: u8, code: u8)
    ensures
        icmpv6::error_kind6(kind, code) == ErrorKind::ConnectionRefused <==> kind == 1 && code == 4,
        icmpv6::error_kind6(kind, code) == ErrorKind::PermissionDenied <==> kind == 1 && code == 1,
        icmpv6::error_kind6(kind, code) == ErrorKind::TimedOut <==> kind == 3 && (code == 0 || code
            == 1),
        icmpv6::error_kind6(kind, code) == ErrorKind::InvalidData <==> kind == 4,
        icmpv6::error_kind6(kind, code) == ErrorKind::Other <==> !(kind == 1 && (code == 1 || code
            == 4)) && !(kind == 3 && (code == 0 || code == 1)) && kind != 4,
{
}

/// What a report says: a text of its own for every unreachable destination with a code up to 4, for
/// what is exceeded and badly set, with the MTU where a packet was too big, and the code of any
/// other unreachable destination.
pub proof fn law_texts_of_reports6(info: icmpv6::Icmpv6ErrorInfo)
    ensures
        info.icmp_type == 1 && info.icmp_code == 0 ==> info.cause()
            == "ICMPv6: no route to destination"@,
        info.icmp_type == 1 && info.icmp_code == 1 ==> info.cause()
            == "ICMPv6: administratively prohibited"@,
        info.icmp_type == 1 && info.icmp_code == 2 ==> info.cause()
            == "ICMPv6: beyond scope of source address"@,
        info.icmp_type == 1 && info.icmp_code == 3 ==> info.cause()
            == "ICMPv6: address unreachable"@,
        info.icmp_type == 1 && info.icmp_code == 4 ==> info.cause() == "ICMPv6: port unreachable"@,
        info.icmp_type == 1 && info.icmp_code > 4 ==> info.cause()
            == "ICMPv6: destination unreachable code "@ + text::decimal8(info.icmp_code),
        info.icmp_type == 2 ==> info.cause() == "ICMPv6: packet too big, MTU "@ + text::decimal32(
            info.mtu,
        ),
        info.icmp_type == 3 && info.icmp_code == 0 ==> info.cause()
            == "ICMPv6: hop limit exceeded in transit"@,
        info.icmp_type == 3 && info.icmp_code == 1 ==> info.cause()
            == "ICMPv6: fragment reassembly time exceeded"@,
        info.icmp_type == 4 ==> info.cause() == "ICMPv6: parameter problem"@,
{
}

/// Where the fields of an ICMPv6 echo frame stand.
#[verifier::rlimit(40)]
pub proof fn law_control6_frame_bytes(v: Icmpv6View)
    requires
        v.src_mac.len() == 6,
        v.dst_mac.len() == 6,
        8 + v.payload.len() <= 0xFFFF,
    ensures
        ({
            let s = icmpv6::icmpv6_frame(v);
            &&& s.len() == 62 + v.payload.len()
            &&& s.subrange(0, 6) == v.dst_mac
            &&& s.subrange(6, 12) == v.src_mac
            &&& s[12] == 0x86 && s[13] == 0xDD
            &&& s[14] == 0x60 && s[15] == 0 && s[16] == 0 && s[17] == 0
            &&& s[18] * 256 + s[19] == 8 + v.payload.len()
            &&& s[20] == 58 && s[21] == v.hop_limit
            &&& s.subrange(22, 38) == v.src_ip.bytes()
            &&& s.subrange(38, 54) == v.dst_ip.bytes()
            &&& s[54] == v.icmp_type && s[55] == v.icmp_code
            &&& s[58] * 256 + s[59] == v.identifier
            &&& s[60] * 256 + s[61] == v.sequence
            &&& s.skip(62) == v.payload
        }),
{
    let len = icmpv6::payload_len_of(v);
    let eth = udp::eth_header(v.dst_mac, v.src_mac, 0x86DD);
    let h = ipv6::ipv6_header(len, 58, v.hop_limit, v.src_ip, v.dst_ip);
    let m = icmpv6::icmpv6_message(v);
    let s = eth + (h + m);
    assert(s == icmpv6::icmpv6_frame(v));
    wire6_laws::lemma_ipv6_header_bytes(len, 58, v.hop_limit, v.src_ip, v.dst_ip);
    assert(eth.len() == 14);
    assert(eth[12] == bytes::be16_bytes(0x86DD)[0] && eth[13] == bytes::be16_bytes(0x86DD)[1]);
    assert(s.subrange(0, 6) =~= v.dst_mac);
    assert(s.subrange(6, 12) =~= v.src_mac);
    lemma_echo6_message_bytes(v);
    wire6_laws::lemma_three_parts(s, eth, h, m);
    assert(s[60] == s.skip(54)[6] && s[61] == s.skip(54)[7]);
    assert(s.skip(62) =~= m.skip(8));
}

/// Where the fields of an ICMPv6 echo message stand.
proof fn lemma_echo6_message_bytes(v: Icmpv6View)
    ensures
        ({
            let m = icmpv6::icmpv6_message(v);
            &&& m.len() == 8 + v.payload.len()
            &&& m[0] == v.icmp_type && m[1] == v.icmp_code
            &&& m[4] * 256 + m[5] == v.identifier
            &&& m[6] * 256 + m[7] == v.sequence
            &&& m.skip(8) == v.payload
        }),
{
    let m = icmpv6::icmpv6_message(v);
    assert(m[4] == bytes::be16_bytes(v.identifier)[0] && m[5] == bytes::be16_bytes(v.identifier)[1]);
    assert(m[6] == bytes::be16_bytes(v.sequence)[0] && m[7] == bytes::be16_bytes(v.sequence)[1]);
    assert(m.skip(8) =~= v.payload);
}

/// An echo request over IPv6 is one of type 128 and code 0 for a local address, and is answered to
/// its sender: from the address asked, with type 129 and code 0, hop limit 64, and the identifier,
/// the sequence number and the payload of the request.
pub proof fn law_what_is_echoed6(frame: Seq<u8>, v: Icmpv6View, mac: [u8; 6], ips: Seq<Ipv6Addr>)
    requires
        icmpv6::icmpv6_parse(frame) == Some(v),
        v.src_mac.len() == 6,
        8 + v.payload.len() <= 0xFFFF,
    ensures
        icmpv6::request_for6(frame, ips) == if v.icmp_type == 128 && v.icmp_code == 0 && (exists|
            i: int,
        |
            0 <= i < ips.len() && #[trigger] ips[i] == v.dst_ip) {
            Some(v)
        } else {
            None
        },
        ({
            let s = icmpv6::icmpv6_frame(v.reply_from(mac@));
            &&& s.len() == 62 + v.payload.len()
            &&& s.subrange(0, 6) == v.src_mac
            &&& s.subrange(6, 12) == mac@
            &&& s[12] == 0x86 && s[13] == 0xDD && s[14] == 0x60
            &&& s[18] * 256 + s[19] == 8 + v.payload.len()
            &&& s[20] == 58 && s[21] == 64
            &&& s.subrange(22, 38) == v.dst_ip.bytes()
            &&& s.subrange(38, 54) == v.src_ip.bytes()
            &&& s[54] == 129 && s[55] == 0
            &&& s[58] * 256 + s[59] == v.identifier
            &&& s[60] * 256 + s[61] == v.sequence
            &&& s.skip(62) == v.payload
        }),
{
    law_control6_frame_bytes(v.reply_from(mac@));
    if ips.contains(v.dst_ip) {
        let i = choose|i: int| 0 <= i < ips.len() && ips[i] == v.dst_ip;
        assert(ips[i] == v.dst_ip);
    }
}

// ---------------------------------------------------------------------------
// Neighbor Discovery
// ---------------------------------------------------------------------------

/// A frame is a solicitation or an advertisement exactly if it has 78 bytes, the EtherType 0x86DD,
/// a fixed header of version 6 with next header 58 and hop limit 255, and behind it type 135 or
/// 136 and code 0. The target stands eight bytes into the message, the flags of an advertisement
/// four bytes into it.
pub proof fn law_what_is_a_neighbor_message(frame: Seq<u8>)
    ensures
        ndp::ndp_parse(frame) is Some <==> {
            &&& frame.len() >= 78
            &&& frame[12] == 0x86 && frame[13] == 0xDD
            &&& frame[14] / 16 == 6
            &&& frame[20] == 58 && frame[21] == 255
            &&& frame[54] == 135 || frame[54] == 136
            &&& frame[55] == 0
        },
        ndp::ndp_parse(frame) matches Some(v) ==> {
            &&& v.dst_mac == frame.subrange(0, 6)
            &&& v.src_mac == frame.subrange(6, 12)
            &&& v.src_ip.bytes() == frame.subrange(22, 38)
            &&& v.dst_ip.bytes() == frame.subrange(38, 54)
            &&& v.icmp_type == frame[54]
            &&& v.flags == if frame[54] == 136 {
                frame[58] * 0x100_0000 + frame[59] * 0x1_0000 + frame[60] * 256 + frame[61]
            } else {
                0
            }
            &&& v.target.bytes() == frame.subrange(62, 78)
            &&& v.link_layer_addr == ndp::find_option(
                frame,
                78,
                if frame[54] == 135 {
                    1
                } else {
                    2
                },
            )
        },
{
    if frame.len() >= 78 {
        addr::lemma_bytes_of_ipv6_at(frame, 22);
        addr::lemma_bytes_of_ipv6_at(frame, 38);
        addr::lemma_bytes_of_ipv6_at(frame, 62);
    }
}

/// Options are looked through one after the other: one of the wanted type gives the six bytes
/// behind its two first ones, and one of another type is passed over, by eight bytes for each in
/// its length. An option without a length, or that does not fit, ends the search.
pub proof fn law_options_are_passed_over(frame: Seq<u8>, at: int, kind: u8)
    requires
        0 <= at,
        at + 2 <= frame.len(),
    ensures
        frame[at + 1] == 0 || at + frame[at + 1] * 8 > frame.len() ==> ndp::find_option(
            frame,
            at,
            kind,
        ) is None,
        frame[at + 1] > 0 && at + frame[at + 1] * 8 <= frame.len() && frame[at] == kind
            ==> ndp::find_option(frame, at, kind) == Some(frame.subrange(at + 2, at + 8)),
        frame[at + 1] > 0 && at + frame[at + 1] * 8 <= frame.len() && frame[at] != kind
            ==> ndp::find_option(frame, at, kind) == ndp::find_option(
            frame,
            at + frame[at + 1] * 8,
            kind,
        ),
{
}

/// Where the fields of a solicitation stand: it goes, with hop limit 255, to the solicited-node
/// group of the target, ff02::1:ff with the last three bytes of the target, and to the Ethernet
/// address of that group, 33:33:ff with the same bytes. It carries the target and, in an option of
/// type 1, the Ethernet address of the sender.
pub proof fn law_solicitation_bytes(mac: [u8; 6], ip: Ipv6Addr, target: Ipv6Addr)
    ensures
        ({
            let s = ndp::solicitation_frame(mac@, ip, target);
            let t = target.bytes();
            &&& s.len() == 86
            &&& s[0] == 0x33 && s[1] == 0x33 && s[2] == 0xFF && s[3] == t[13] && s[4] == t[14]
                && s[5] == t[15]
            &&& s.subrange(6, 12) == mac@
            &&& s[12] == 0x86 && s[13] == 0xDD && s[14] == 0x60
            &&& s[18] == 0 && s[19] == 32 && s[20] == 58 && s[21] == 255
            &&& s.subrange(22, 38) == ip.bytes()
            &&& s[38] == 0xFF && s[39] == 0x02 && s[49] == 1 && s[50] == 0xFF && s[51] == t[13]
                && s[52] == t[14] && s[53] == t[15]
            &&& forall|k: int| 40 <= k < 49 ==> #[trigger] s[k] == 0
            &&& s[54] == 135 && s[55] == 0
            &&& s[58] == 0 && s[59] == 0 && s[60] == 0 && s[61] == 0
            &&& s.subrange(62, 78) == t
            &&& s[78] == 1 && s[79] == 1
            &&& s.subrange(80, 86) == mac@
        }),
{
    let group = ipv6_addr::solicited_node(target);
    let dst = ipv6_addr::multicast_mac(group);
    let t = target.bytes();
    ipv6_addr::law_solicited_node_bytes(target);
    let g = group.bytes();
    assert(g[12] == 0xFF && g[13] == t[13] && g[14] == t[14] && g[15] == t[15]);
    assert(dst.len() == 6);
    assert(dst[2] == g[12] && dst[3] == g[13] && dst[4] == g[14] && dst[5] == g[15]);
    lemma_neighbor_frame_bytes(dst, ip, group, 135, 0, target, mac@);
    let s = ndp::ndp_frame(dst, ip, group, 135, 0, target, mac@);
    assert(forall|k: int| 0 <= k < 6 ==> s.subrange(0, 6)[k] == #[trigger] s[k]);
    assert(s[0] == dst[0] && s[1] == dst[1] && s[2] == dst[2] && s[3] == dst[3]);
    assert(s[4] == dst[4] && s[5] == dst[5]);
    assert forall|k: int| 38 <= k < 54 implies #[trigger] s[k] == g[k - 38] by {
        assert(s.subrange(38, 54)[k - 38] == s[k]);
    }
}

/// Where the fields of an advertisement stand: it comes from the address it is about, with hop
/// limit 255, and carries the flags, that address as target and, in an option of type 2, the
/// Ethernet address.
pub proof fn law_advertisement_bytes(
    mac: [u8; 6],
    ip: Ipv6Addr,
    dst_mac: Seq<u8>,
    dst_ip: Ipv6Addr,
    flags: u32,
)
    requires
        dst_mac.len() == 6,
    ensures
        ({
            let s = ndp::advertisement_frame(mac@, ip, dst_mac, dst_ip, flags);
            &&& s.len() == 86
            &&& s.subrange(0, 6) == dst_mac
            &&& s.subrange(6, 12) == mac@
            &&& s[12] == 0x86 && s[13] == 0xDD && s[14] == 0x60
            &&& s[18] == 0 && s[19] == 32 && s[20] == 58 && s[21] == 255
            &&& s.subrange(22, 38) == ip.bytes()
            &&& s.subrange(38, 54) == dst_ip.bytes()
            &&& s[54] == 136 && s[55] == 0
            &&& s[58] * 0x100_0000 + s[59] * 0x1_0000 + s[60] * 256 + s[61] == flags
            &&& s.subrange(62, 78) == ip.bytes()
            &&& s[78] == 2 && s[79] == 1
            &&& s.subrange(80, 86) == mac@
        }),
{
    lemma_neighbor_frame_bytes(dst_mac, ip, dst_ip, 136, flags, ip, mac@);
}

/// Where the fields of a Neighbor Discovery frame stand.
proof fn lemma_neighbor_frame_bytes(
    dst_mac: Seq<u8>,
    src_ip: Ipv6Addr,
    dst_ip: Ipv6Addr,
    kind: u8,
    flags: u32,
    target: Ipv6Addr,
    mac: Seq<u8>,
)
    requires
        dst_mac.len() == 6,
        mac.len() == 6,
    ensures
        ({
            let s = ndp::ndp_frame(dst_mac, src_ip, dst_ip, kind, flags, target, mac);
            &&& s.len() == 86
            &&& s.subrange(0, 6) == dst_mac
            &&& s.subrange(6, 12) == mac
            &&& s[12] == 0x86 && s[13] == 0xDD && s[14] == 0x60
            &&& s[18] == 0 && s[19] == 32 && s[20] == 58 && s[21] == 255
            &&& s.subrange(22, 38) == src_ip.bytes()
            &&& s.subrange(38, 54) == dst_ip.bytes()
            &&& s[54] == kind && s[55] == 0
            &&& s[58] * 0x100_0000 + s[59] * 0x1_0000 + s[60] * 256 + s[61] == flags
            &&& s.subrange(62, 78) == target.bytes()
            &&& s[78] == ndp::option_type(kind) && s[79] == 1
            &&& s.subrange(80, 86) == mac
        }),
{
    let eth = udp::eth_header(dst_mac, mac, 0x86DD);
    let h = ipv6::ipv6_header(32, 58, 255, src_ip, dst_ip);
    let m = ndp::ndp_message(src_ip, dst_ip, kind, flags, target, mac);
    let s = eth + (h + m);
    assert(s == ndp::ndp_frame(dst_mac, src_ip, dst_ip, kind, flags, target, mac));
    wire6_laws::lemma_ipv6_header_bytes(32, 58, 255, src_ip, dst_ip);
    assert(eth.len() == 14);
    assert(eth[12] == bytes::be16_bytes(0x86DD)[0] && eth[13] == bytes::be16_bytes(0x86DD)[1]);
    assert(s.subrange(0, 6) =~= dst_mac);
    assert(s.subrange(6, 12) =~= mac);
    lemma_neighbor_message_bytes(src_ip, dst_ip, kind, flags, target, mac);
    wire6_laws::lemma_three_parts(s, eth, h, m);
    assert(s[60] == s.skip(54)[6] && s[61] == s.skip(54)[7]);
    assert(s[78] == s.skip(54)[24] && s[79] == s.skip(54)[25]);
    assert(s.subrange(62, 78) =~= m.subrange(8, 24));
    assert(s.subrange(80, 86) =~= m.subrange(26, 32));
}

/// Where the fields of a Neighbor Discovery message stand.
proof fn lemma_neighbor_message_bytes(
    src_ip: Ipv6Addr,
    dst_ip: Ipv6Addr,
    kind: u8,
    flags: u32,
    target: Ipv6Addr,
    mac: Seq<u8>,
)
    requires
        mac.len() == 6,
    ensures
        ({
            let m = ndp::ndp_message(src_ip, dst_ip, kind, flags, target, mac);
            &&& m.len() == 32
            &&& m[0] == kind && m[1] == 0
            &&& m[4] * 0x100_0000 + m[5] * 0x1_0000 + m[6] * 256 + m[7] == flags
            &&& m.subrange(8, 24) == target.bytes()
            &&& m[24] == ndp::option_type(kind) && m[25] == 1
            &&& m.subrange(26, 32) == mac
        }),
{
    let m = ndp::ndp_message(src_ip, dst_ip, kind, flags, target, mac);
    let f = bytes::be32_bytes(flags);
    assert(f.len() == 4);
    assert(m[4] == f[0] && m[5] == f[1] && m[6] == f[2] && m[7] == f[3]);
    lemma_four_bytes(flags);
    assert(m.subrange(8, 24) =~= target.bytes());
    assert(m.subrange(26, 32) =~= mac);
}

/// The four bytes of a number.
proof fn lemma_four_bytes(v: u32)
    ensures
        ({
            let f = bytes::be32_bytes(v);
            f[0] * 0x100_0000 + f[1] * 0x1_0000 + f[2] * 256 + f[3] == v
        }),
{
}

/// What a message is answered: a solicitation, of type 135, for a local address with an
/// advertisement to its sender, in which the flags for solicited and override are set; anything
/// else with nothing.
pub proof fn law_what_is_advertised(v: NdpView, mac: [u8; 6], ips: Seq<Ipv6Addr>)
    requires
        v.src_mac.len() == 6,
    ensures
        ndp::answer(v, mac@, ips) is Some <==> v.icmp_type == 135 && exists|i: int|
            0 <= i < ips.len() && #[trigger] ips[i] == v.target,
        ndp::answer(v, mac@, ips) matches Some(s) ==> {
            &&& s.len() == 86
            &&& s.subrange(0, 6) == v.src_mac
            &&& s.subrange(6, 12) == mac@
            &&& s[12] == 0x86 && s[13] == 0xDD && s[14] == 0x60
            &&& s[20] == 58 && s[21] == 255
            &&& s.subrange(22, 38) == v.target.bytes()
            &&& s.subrange(38, 54) == v.src_ip.bytes()
            &&& s[54] == 136 && s[55] == 0
            &&& s[58] == 0x60 && s[59] == 0 && s[60] == 0 && s[61] == 0
            &&& s.subrange(62, 78) == v.target.bytes()
            &&& s[78] == 2 && s[79] == 1
            &&& s.subrange(80, 86) == mac@
        },
{
    law_advertisement_bytes(mac, v.target, v.src_mac, v.src_ip, 0x6000_0000);
    if ips.contains(v.target) {
        let i = choose|i: int| 0 <= i < ips.len() && ips[i] == v.target;
        assert(ips[i] == v.target);
    }
}

/// What a message teaches: an advertisement, of type 136, that its target is at the address in its
/// option, and a solicitation that its sender is, unless it comes from `::`. Without an option
/// nothing is learned.
pub proof fn law_what_is_learned_of_neighbors(v: NdpView)
    ensures
        v.link_layer_addr is None ==> ndp::lesson(v) is None,
        v.link_layer_addr matches Some(mac) ==> {
            &&& v.icmp_type == 136 ==> ndp::lesson(v) == Some((v.target, mac))
            &&& v.icmp_type != 136 && v.src_ip != (Ipv6Addr {
                s0: 0,
                s1: 0,
                s2: 0,
                s3: 0,
                s4: 0,
                s5: 0,
                s6: 0,
                s7: 0,
            }) ==> ndp::lesson(v) == Some((v.src_ip, mac))
            &&& v.icmp_type != 136 && v.src_ip == (Ipv6Addr {
                s0: 0,
                s1: 0,
                s2: 0,
                s3: 0,
                s4: 0,
                s5: 0,
                s6: 0,
                s7: 0,
            }) ==> ndp::lesson(v) is None
        },
{
}

/// The checksum of an ICMPv6 message is that of an upper-layer message of protocol 58 with its
/// field at 2: it is not zero, and completes the sum to a multiple of 65535.
pub proof fn law_control6_checksum_completes(src: Ipv6Addr, dst: Ipv6Addr, message: Seq<u8>)
    requires
        4 <= message.len() <= 0xFFFF,
    ensures
        ({
            let cksum = icmpv6::icmpv6_cksum(src, dst, message);
            let sum = checksum::word_sum(src.bytes() + dst.bytes()) + 58 + message.len()
                + checksum::word_sum(message.take(2)) + checksum::word_sum(message.skip(4));
            &&& cksum > 0
            &&& (sum + cksum) % 65535 == 0
        }),
{
    wire6_laws::law_message6_sum(src, dst, 58, message);
}

/// An unsolicited advertisement goes to all nodes on the link, at ff02::1 and 33:33:00:00:00:01,
/// and says with its flags that it overrides what is known.
pub proof fn law_unsolicited_advertisement_bytes(mac: [u8; 6], ip: Ipv6Addr)
    ensures
        ({
            let all = ndp::all_nodes();
            let s = ndp::advertisement_frame(
                mac@,
                ip,
                ipv6_addr::multicast_mac(all),
                all,
                ndp::NA_FLAG_OVERRIDE,
            );
            &&& s.len() == 86
            &&& s[0] == 0x33 && s[1] == 0x33 && s[2] == 0 && s[3] == 0 && s[4] == 0 && s[5] == 1
            &&& s.subrange(6, 12) == mac@
            &&& s.subrange(22, 38) == ip.bytes()
            &&& s[38] == 0xFF && s[39] == 2 && s[53] == 1
            &&& forall|k: int| 40 <= k < 53 ==> #[trigger] s[k] == 0
            &&& s[54] == 136 && s[58] == 0x20 && s[59] == 0 && s[60] == 0 && s[61] == 0
            &&& s.subrange(62, 78) == ip.bytes()
            &&& s.subrange(80, 86) == mac@
        }),
{
    let all = ndp::all_nodes();
    let group = ipv6_addr::multicast_mac(all);
    let s = ndp::advertisement_frame(mac@, ip, group, all, ndp::NA_FLAG_OVERRIDE);
    law_advertisement_bytes(mac, ip, group, all, ndp::NA_FLAG_OVERRIDE);
    lemma_all_nodes_bytes();
    lemma_two_ranges(s, group, all.bytes());
    assert(ndp::NA_FLAG_OVERRIDE == 0x2000_0000);
    lemma_override_bytes(s[58], s[59], s[60], s[61]);
}

proof fn lemma_all_nodes_bytes()
    ensures
        ({
            let b = ndp::all_nodes().bytes();
            let m = ipv6_addr::multicast_mac(ndp::all_nodes());
            &&& b.len() == 16 && b[0] == 0xFF && b[1] == 2 && b[15] == 1
            &&& forall|k: int| 2 <= k < 15 ==> #[trigger] b[k] == 0
            &&& m.len() == 6 && m[0] == 0x33 && m[1] == 0x33 && m[2] == 0 && m[3] == 0
            &&& m[4] == 0 && m[5] == 1
        }),
{
    wire6_laws::law_multicast6_addresses(ndp::all_nodes(), ndp::all_nodes());
    wire6_laws::law_ipv6_address_bytes(ndp::all_nodes());
}

proof fn lemma_two_ranges(s: Seq<u8>, m: Seq<u8>, b: Seq<u8>)
    requires
        s.len() == 86,
        s.subrange(0, 6) == m,
        s.subrange(38, 54) == b,
    ensures
        forall|k: int| 0 <= k < 6 ==> #[trigger] s[k] == m[k],
        forall|k: int| 38 <= k < 54 ==> #[trigger] s[k] == b[k - 38],
{
    assert forall|k: int| 0 <= k < 6 implies #[trigger] s[k] == m[k] by {
        assert(s.subrange(0, 6)[k] == s[k]);
    }
    assert forall|k: int| 38 <= k < 54 implies #[trigger] s[k] == b[k - 38] by {
        assert(s.subrange(38, 54)[k - 38] == s[k]);
    }
}

proof fn lemma_override_bytes(a: u8, b: u8, c: u8, d: u8)
    ensures
        a * 0x100_0000 + b * 0x1_0000 + c * 256 + d == 0x2000_0000 ==> a == 0x20 && b == 0 && c == 0
            && d == 0,
{
}

/// The halves of an IPv6 address as numbers have its segments as digits of base 65536, and an
/// Ethernet address as a number has its bytes as digits of base 256.
pub proof fn law_addresses_as_numbers(a: u16, b: u16, c: u16, d: u16, mac: Seq<u8>)
    ensures
        ndp::half_number(a, b, c, d) == ((a * 65536 + b) * 65536 + c) * 65536 + d,
        ndp::mac_number(mac) == ((((mac[0] * 256 + mac[1]) * 256 + mac[2]) * 256 + mac[3]) * 256
            + mac[4]) * 256 + mac[5],
{
}

/// A number of 48 bits is the number of the six bytes that it gives.
pub proof fn law_numbers_as_addresses(v: u64)
    requires
        v < 0x1_0000_0000_0000,
    ensures
        ndp::mac_bytes(v).len() == 6,
        ndp::mac_number(ndp::mac_bytes(v)) == v,
{
    ndp::lemma_mac_undigits(v);
}

} // verus!
