//! GENEVE tunnels, and tunnels over IPv6, on the wire, byte by byte.

use vstd::prelude::*;

use crate::addr;
use crate::addr::Ipv4Addr;
use crate::geneve;
use crate::geneve::{GeneveDecapResult, GeneveDecapResult6, GeneveHeaderView, GeneveTlvView};
use crate::gue;
use crate::gue::GueDecapResult6;
use crate::tunnel;
use crate::udp;
use crate::wire_laws;

verus! {

/// The outer UDP header of a packet over IPv4 is found exactly if the IPv4 header at `l3` has at
/// least five words and protocol 17, and the UDP header behind it is whole and for the port.
pub proof fn law_outer_header(frame: Seq<u8>, l3: int, port: u16)
    requires
        0 <= l3,
    ensures
        ({
            let start = l3 + frame[l3] % 16 * 4;
            tunnel::outer_udp4(frame, l3, port) == if l3 + 20 <= frame.len() && frame[l3] % 16 >= 5
                && frame[l3 + 9] == 17 && start + 8 <= frame.len() && frame[start + 2] * 256
                + frame[start + 3] == port {
                Some(start)
            } else {
                None
            }
        }),
{
}

/// The outer UDP header of a packet over IPv6 is found exactly if the fixed header at `l3` is of
/// version 6 with next header 17, and the UDP header behind it is whole and for the port.
pub proof fn law_outer_header6(frame: Seq<u8>, l3: int, port: u16)
    requires
        0 <= l3,
    ensures
        tunnel::outer_udp6(frame, l3, port) == if l3 + 48 <= frame.len() && frame[l3] / 16 == 6
            && frame[l3 + 6] == 17 && frame[l3 + 42] * 256 + frame[l3 + 43] == port {
            Some(l3 + 40)
        } else {
            None
        },
{
}

/// What comes out of a GUE tunnel does not depend on the outer protocol: behind the UDP header at
/// `start` stands a GUE header of version 0, without the control flag, that announces IPv4 and is
/// whole with its extensions, and then an IPv4 packet with a whole UDP datagram.
pub proof fn law_what_stands_behind_a_gue_header(frame: Seq<u8>, start: int)
    requires
        0 <= start,
        start + 8 <= frame.len(),
    ensures
        ({
            let inner = start + 12 + frame[start + 8] % 32 * 4;
            let udp = inner + frame[inner] % 16 * 4;
            let len = frame[udp + 4] * 256 + frame[udp + 5];
            gue::gue_inner_start(frame, start) == if start + 12 <= frame.len() && frame[start + 8] < 32
                && frame[start + 9] == 4 && inner + 28 <= frame.len() && frame[inner] / 16 == 4
                && frame[inner] % 16 >= 5 && frame[inner + 9] == 17 && udp + 8 <= frame.len() && 8
                <= len && udp + len <= frame.len() {
                Some(inner)
            } else {
                None
            }
        }),
        forall|l3: int, port: u16| #[trigger]
            gue::gue6_inner(frame, l3, port) == match tunnel::outer_udp6(frame, l3, port) {
                Some(at) => gue::gue_inner_start(frame, at),
                None => None,
            },
{
    let behind = frame.subrange(start + 8, frame.len() as int);
    if start + 12 <= frame.len() {
        assert(behind[0] == frame[start + 8]);
        assert(behind[1] == frame[start + 9]);
    }
}

/// The bytes of a GENEVE header: the length of the options in words, two flags, 0x6558, and the
/// network identifier in three bytes.
pub proof fn law_geneve_header_bytes(header: GeneveHeaderView)
    requires
        header.version == 0,
        header.options_len % 4 == 0,
        header.options_len <= 252,
        header.vni <= 0xFF_FFFF,
    ensures
        ({
            let b = header.base_bytes();
            &&& b.len() == 8
            &&& b[0] * 4 == header.options_len
            &&& b[1] == (if header.oam {
                128int
            } else {
                0
            }) + (if header.critical {
                64int
            } else {
                0
            })
            &&& b[2] * 256 + b[3] == header.protocol_type
            &&& b[4] * 0x1_0000 + b[5] * 256 + b[6] == header.vni
            &&& b[7] == 0
        }),
        header.bytes() == header.base_bytes() + geneve::options_bytes(header.options),
{
}

/// The bytes of options, one behind the other: class, type, length of the data in words, data.
pub proof fn law_geneve_option_bytes(options: Seq<GeneveTlvView>, o: GeneveTlvView)
    requires
        o.data.len() % 4 == 0,
        o.data.len() <= 124,
    ensures
        geneve::options_bytes(Seq::<GeneveTlvView>::empty()).len() == 0,
        geneve::options_bytes(options.push(o)) == geneve::options_bytes(options) + o.bytes(),
        ({
            let b = o.bytes();
            &&& b.len() == 4 + o.data.len()
            &&& b[0] * 256 + b[1] == o.class
            &&& b[2] == o.option_type
            &&& b[3] * 4 == o.data.len()
            &&& b.skip(4) == o.data
        }),
{
    assert(options.push(o).drop_last() =~= options);
    assert(o.bytes().skip(4) =~= o.data);
}

/// Bytes are a GENEVE header exactly if there are eight of them, the version is 0, the protocol is
/// 0x6558, and the options, as long as the first byte says in words, are there and whole. The
/// fields stand where they are written.
pub proof fn law_what_is_a_geneve_header(data: Seq<u8>)
    ensures
        geneve::geneve_parse(data) is Some <==> {
            let len = data[0] * 4;
            &&& data.len() >= 8
            &&& data[0] < 64
            &&& data.len() >= 8 + len
            &&& data[2] == 0x65 && data[3] == 0x58
            &&& geneve::parse_options(data.subrange(8, 8 + len)) is Some
        },
        geneve::geneve_parse(data) matches Some(h) ==> {
            &&& h.version == 0
            &&& h.options_len == data[0] * 4
            &&& h.oam <==> data[1] >= 128
            &&& h.critical <==> data[1] % 128 >= 64
            &&& h.protocol_type == 0x6558
            &&& h.vni == data[4] * 0x1_0000 + data[5] * 256 + data[6]
            &&& Some(h.options) == geneve::parse_options(data.subrange(8, 8 + data[0] * 4))
        },
{
}

/// Options are read one after the other: fewer than four bytes hold none; four bytes and as many
/// words of data as the lower five bits of the fourth say hold one, and what follows holds the
/// others. One that does not fit spoils them all.
pub proof fn law_geneve_options_are_read(data: Seq<u8>)
    ensures
        data.len() < 4 ==> geneve::parse_options(data) == Some(Seq::<GeneveTlvView>::empty()),
        data.len() >= 4 ==> {
            let end = 4 + data[3] % 32 * 4;
            let rest = geneve::parse_options(data.skip(end));
            if end > data.len() || rest is None {
                geneve::parse_options(data) is None
            } else {
                &&& geneve::parse_options(data) matches Some(options)
                &&& options.len() == rest->Some_0.len() + 1
                &&& options[0].class == data[0] * 256 + data[1]
                &&& options[0].option_type == data[2]
                &&& options[0].data == data.subrange(4, end)
                &&& options.skip(1) == rest->Some_0
            }
        },
{
    if data.len() >= 4 {
        let end = 4 + data[3] % 32 * 4;
        if end <= data.len() {
            assert(data.skip(end) =~= data.subrange(end, data.len() as int));
            match geneve::parse_options(data.skip(end)) {
                Some(rest) => {
                    let options = geneve::parse_options(data)->Some_0;
                    assert(options.skip(1) =~= rest);
                },
                None => {},
            }
        }
    }
}

/// What comes out of a GENEVE tunnel: behind the UDP header at `start` stands a GENEVE header, with
/// the expected network identifier if one is expected, and behind its options an Ethernet frame
/// with EtherType 0x0800 and a whole UDP datagram over IPv4. The outer protocol plays no part.
pub proof fn law_what_stands_behind_a_geneve_header(frame: Seq<u8>, start: int, vni: Option<u32>)
    requires
        0 <= start,
        start + 8 <= frame.len(),
    ensures
        ({
            let header = geneve::geneve_parse(frame.skip(start + 8));
            let eth = start + 16 + header->Some_0.options_len;
            let inner = eth + 14;
            let udp = inner + frame[inner] % 16 * 4;
            let len = frame[udp + 4] * 256 + frame[udp + 5];
            geneve::geneve_inner_start(frame, start, vni) == if header is Some && (vni is None || vni
                == Some(header->Some_0.vni)) && inner + 28 <= frame.len() && frame[eth + 12] == 8
                && frame[eth + 13] == 0 && frame[inner] / 16 == 4 && frame[inner] % 16 >= 5
                && frame[inner + 9] == 17 && udp + 8 <= frame.len() && 8 <= len && udp + len
                <= frame.len() {
                Some(eth)
            } else {
                None
            }
        }),
        forall|l3: int, port: u16| #[trigger]
            geneve::geneve4_inner(frame, l3, port, vni) == match tunnel::outer_udp4(frame, l3, port) {
                Some(at) => geneve::geneve_inner_start(frame, at, vni),
                None => None,
            },
        forall|l3: int, port: u16| #[trigger]
            geneve::geneve6_inner(frame, l3, port, vni) == match tunnel::outer_udp6(frame, l3, port) {
                Some(at) => geneve::geneve_inner_start(frame, at, vni),
                None => None,
            },
{
    assert(frame.skip(start + 8) =~= frame.subrange(start + 8, frame.len() as int));
}

/// What is read out of a GENEVE tunnel: the Ethernet addresses, addresses, ports and payload of
/// the inner frame, and the source of the outer packet.
pub proof fn law_what_a_geneve_packet_says(
    frame: Seq<u8>,
    l3: int,
    port: u16,
    vni: Option<u32>,
    eth: int,
    p: GeneveDecapResult<'_>,
)
    requires
        0 <= l3,
        geneve::geneve4_inner(frame, l3, port, vni) == Some(eth),
        p.describes(frame, l3, port, vni),
    ensures
        ({
            let inner = eth + 14;
            let udp = inner + frame[inner] % 16 * 4;
            let len = frame[udp + 4] * 256 + frame[udp + 5];
            &&& p.inner_dst_mac@ == frame.subrange(eth, eth + 6)
            &&& p.inner_src_mac@ == frame.subrange(eth + 6, eth + 12)
            &&& p.inner_src_ip.a == frame[inner + 12] && p.inner_src_ip.b == frame[inner + 13]
                && p.inner_src_ip.c == frame[inner + 14] && p.inner_src_ip.d == frame[inner + 15]
            &&& p.inner_dst_ip.a == frame[inner + 16] && p.inner_dst_ip.b == frame[inner + 17]
                && p.inner_dst_ip.c == frame[inner + 18] && p.inner_dst_ip.d == frame[inner + 19]
            &&& p.inner_src_port == frame[udp] * 256 + frame[udp + 1]
            &&& p.inner_dst_port == frame[udp + 2] * 256 + frame[udp + 3]
            &&& p.payload@ == frame.subrange(udp + 8, udp + len)
            &&& p.outer_src_ip.a == frame[l3 + 12] && p.outer_src_ip.b == frame[l3 + 13]
                && p.outer_src_ip.c == frame[l3 + 14] && p.outer_src_ip.d == frame[l3 + 15]
            &&& geneve::geneve_parse(frame.skip(l3 + frame[l3] % 16 * 4 + 8)) == Some(
                p.geneve_header@,
            )
        }),
{
    let start = l3 + frame[l3] % 16 * 4;
    assert(frame.skip(start + 8) =~= frame.subrange(start + 8, frame.len() as int));
}

/// What is read out of a GENEVE tunnel over IPv6 is read out of the same places of the inner frame,
/// and the source of the outer packet stands 8 bytes into its fixed header.
pub proof fn law_what_a_geneve6_packet_says(
    frame: Seq<u8>,
    l3: int,
    port: u16,
    vni: Option<u32>,
    eth: int,
    p: GeneveDecapResult6<'_>,
)
    requires
        0 <= l3,
        geneve::geneve6_inner(frame, l3, port, vni) == Some(eth),
        p.describes(frame, l3, port, vni),
    ensures
        ({
            let inner = eth + 14;
            let udp = inner + frame[inner] % 16 * 4;
            let len = frame[udp + 4] * 256 + frame[udp + 5];
            &&& p.inner_dst_mac@ == frame.subrange(eth, eth + 6)
            &&& p.inner_src_mac@ == frame.subrange(eth + 6, eth + 12)
            &&& p.inner_src_ip.a == frame[inner + 12] && p.inner_src_ip.b == frame[inner + 13]
                && p.inner_src_ip.c == frame[inner + 14] && p.inner_src_ip.d == frame[inner + 15]
            &&& p.inner_dst_ip.a == frame[inner + 16] && p.inner_dst_ip.b == frame[inner + 17]
                && p.inner_dst_ip.c == frame[inner + 18] && p.inner_dst_ip.d == frame[inner + 19]
            &&& p.inner_src_port == frame[udp] * 256 + frame[udp + 1]
            &&& p.inner_dst_port == frame[udp + 2] * 256 + frame[udp + 3]
            &&& p.payload@ == frame.subrange(udp + 8, udp + len)
            &&& geneve::geneve_parse(frame.skip(l3 + 48)) == Some(p.geneve_header@)
        }),
        p.outer_src_ip.bytes() == frame.subrange(l3 + 8, l3 + 24),
{
    assert(frame.skip(l3 + 48) =~= frame.subrange(l3 + 48, frame.len() as int));
    addr::lemma_bytes_of_ipv6_at(frame, l3 + 8);
}

/// What is read out of a GUE tunnel over IPv6: the addresses, ports and payload of the inner
/// packet, the GUE header, and the source of the outer packet.
pub proof fn law_what_a_gue6_packet_says(
    frame: Seq<u8>,
    l3: int,
    port: u16,
    inner: int,
    p: GueDecapResult6<'_>,
)
    requires
        0 <= l3,
        gue::gue6_inner(frame, l3, port) == Some(inner),
        p.describes(frame, l3, port),
    ensures
        ({
            let udp = inner + frame[inner] % 16 * 4;
            let len = frame[udp + 4] * 256 + frame[udp + 5];
            &&& p.inner_src_ip.a == frame[inner + 12] && p.inner_src_ip.b == frame[inner + 13]
                && p.inner_src_ip.c == frame[inner + 14] && p.inner_src_ip.d == frame[inner + 15]
            &&& p.inner_dst_ip.a == frame[inner + 16] && p.inner_dst_ip.b == frame[inner + 17]
                && p.inner_dst_ip.c == frame[inner + 18] && p.inner_dst_ip.d == frame[inner + 19]
            &&& p.inner_src_port == frame[udp] * 256 + frame[udp + 1]
            &&& p.inner_dst_port == frame[udp + 2] * 256 + frame[udp + 3]
            &&& p.payload@ == frame.subrange(udp + 8, udp + len)
            &&& gue::gue_parse(frame.skip(l3 + 48)) == Some(p.gue_header)
        }),
        p.outer_src_ip.bytes() == frame.subrange(l3 + 8, l3 + 24),
{
    assert(frame.skip(l3 + 48) =~= frame.subrange(l3 + 48, frame.len() as int));
    addr::lemma_bytes_of_ipv6_at(frame, l3 + 8);
}

/// Where the fields of what a GENEVE tunnel carries stand: the GENEVE header, and behind it the
/// inner Ethernet frame with EtherType 0x0800, the inner addresses and ports, and time to live 64.
pub proof fn law_geneve_payload_bytes(
    block: Seq<u8>,
    src_mac: [u8; 6],
    dst_mac: [u8; 6],
    src_ip: Ipv4Addr,
    dst_ip: Ipv4Addr,
    src_port: u16,
    dst_port: u16,
    payload: Seq<u8>,
)
    requires
        28 + payload.len() <= 0xFFFF,
    ensures
        ({
            let s = geneve::geneve_payload(
                block,
                src_mac@,
                dst_mac@,
                src_ip,
                dst_ip,
                src_port,
                dst_port,
                payload,
            );
            let eth = block.len() as int;
            &&& s.len() == eth + 42 + payload.len()
            &&& s.take(eth) == block
            &&& s.subrange(eth, eth + 6) == dst_mac@
            &&& s.subrange(eth + 6, eth + 12) == src_mac@
            &&& s[eth + 12] == 8 && s[eth + 13] == 0
            &&& wire_laws::datagram_stands_at(
                s,
                eth + 14,
                src_ip,
                dst_ip,
                src_port,
                dst_port,
                payload,
                64,
            )
        }),
{
    let inner = udp::udp4_frame(
        src_mac@,
        dst_mac@,
        src_ip,
        dst_ip,
        src_port,
        dst_port,
        payload,
        64,
    );
    wire_laws::law_built_frame_bytes(
        src_mac,
        dst_mac,
        src_ip,
        dst_ip,
        src_port,
        dst_port,
        payload,
        64,
    );
    let s = block + inner;
    let eth = block.len() as int;
    assert(s == geneve::geneve_payload(
        block,
        src_mac@,
        dst_mac@,
        src_ip,
        dst_ip,
        src_port,
        dst_port,
        payload,
    ));
    assert(s.take(eth) =~= block);
    assert(forall|k: int| 0 <= k < inner.len() ==> s[eth + k] == #[trigger] inner[k]);
    assert(s.subrange(eth, eth + 6) =~= dst_mac@);
    assert(s.subrange(eth + 6, eth + 12) =~= src_mac@) by {
        assert forall|k: int| 0 <= k < 6 implies s[eth + 6 + k] == src_mac@[k] by {
            assert(s[eth + (6 + k)] == inner[6 + k]);
        }
    }
    assert(s[eth + 12] == inner[12] && s[eth + 13] == inner[13]);
    wire_laws::lemma_inner_datagram(
        s,
        eth,
        inner,
        14,
        src_ip,
        dst_ip,
        src_port,
        dst_port,
        payload,
        64,
    );
}

/// Which headers and options the wire can tell: headers of version 0 for Ethernet frames, with a
/// network identifier of 24 bits and the length of their options, up to 252 bytes; options whose
/// data are up to 31 words.
pub proof fn law_what_geneve_can_tell(header: GeneveHeaderView, option: GeneveTlvView)
    ensures
        option.encodable() <==> option.data.len() % 4 == 0 && option.data.len() / 4 < 32,
        header.encodable() <==> header.version == 0 && header.protocol_type == 0x6558 && header.vni
            < 0x100_0000 && header.options_len == geneve::options_bytes(header.options).len()
            && header.options_len <= 252 && forall|i: int|
            0 <= i < header.options.len() ==> (#[trigger] header.options[i]).encodable(),
{
}

} // verus!
