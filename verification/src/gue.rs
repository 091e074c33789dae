//! GUE (Generic UDP Encapsulation) tunnels: an inner IPv4 packet inside an outer
//! UDP datagram, behind a 4-byte GUE header that names the inner protocol.
//!
//! ```text
//! [Outer Eth][Outer IP][Outer UDP][GUE 4B][Inner IPv4][Inner UDP][Payload]
//! ```
//!
//! The first byte of the GUE header holds the version in bits 7-6, the control
//! flag in bit 5 and the extension length, in 4-byte words, in bits 4-0.

use vstd::prelude::*;

use crate::addr;
use crate::addr::{read_ipv4, read_ipv6, Ipv4Addr, Ipv6Addr};
use crate::bytes;
use crate::bytes::{high_byte, low_byte, push_bytes, read_be16, slice_of};
use crate::constants::{ETH_HEADER_LEN, IPV4_HEADER_LEN, UDP_HEADER_LEN};
use crate::error::{UdpError, UdpResult};
use crate::ipv6;
use crate::ipv6::{write_udp6_frame, IPV6_HEADER_LEN};
use crate::tunnel;
use crate::tunnel::{find_outer_udp4, find_outer_udp6};
use crate::udp;
use crate::udp::{parse_udp4_at, push_udp4_packet, write_udp4_frame};

verus! {

/// GUE header size without extensions.
pub const GUE_HEADER_LEN: usize = 4;

/// UDP port of GUE.
pub const GUE_DEFAULT_PORT: u16 = 6080;

pub const GUE_VERSION: u8 = 0;

/// Protocol number of an inner IPv4 packet.
pub const GUE_PROTO_IPV4: u8 = 4;

/// Bytes that encapsulation adds over IPv4: IPv4, UDP and GUE headers.
pub const GUE_ENCAP_OVERHEAD: usize = 32;

/// Bytes that encapsulation adds over IPv6: IPv6, UDP and GUE headers.
pub const GUE_ENCAP_OVERHEAD_V6: usize = 52;

/// Time to live of the inner packet.
pub const GUE_INNER_TTL: u8 = 64;

/// A GUE tunnel endpoint over IPv4.
#[derive(Debug, Clone, Copy, PartialEq, Eq, Structural)]
pub struct GueConfig {
    /// Address of the remote endpoint.
    pub remote_ip: Ipv4Addr,
    /// Outer UDP destination port.
    pub remote_port: u16,
    /// Outer UDP source port.
    pub local_port: u16,
}

impl GueConfig {
    pub fn new(remote_ip: Ipv4Addr) -> (r: Self)
        ensures
            r == (GueConfig {
                remote_ip,
                remote_port: GUE_DEFAULT_PORT,
                local_port: GUE_DEFAULT_PORT,
            }),
    {
        GueConfig { remote_ip, remote_port: GUE_DEFAULT_PORT, local_port: GUE_DEFAULT_PORT }
    }

    pub fn with_remote_port(self, port: u16) -> (r: Self)
        ensures
            r == (GueConfig { remote_port: port, ..self }),
    {
        GueConfig { remote_port: port, ..self }
    }

    pub fn with_local_port(self, port: u16) -> (r: Self)
        ensures
            r == (GueConfig { local_port: port, ..self }),
    {
        GueConfig { local_port: port, ..self }
    }
}

/// A GUE tunnel endpoint over IPv6.
#[derive(Debug, Clone, Copy, PartialEq, Eq, Structural)]
pub struct GueConfig6 {
    /// Address of the remote endpoint.
    pub remote_ip: Ipv6Addr,
    /// Outer UDP destination port.
    pub remote_port: u16,
    /// Outer UDP source port.
    pub local_port: u16,
}

impl GueConfig6 {
    pub fn new(remote_ip: Ipv6Addr) -> (r: Self)
        ensures
            r == (GueConfig6 {
                remote_ip,
                remote_port: GUE_DEFAULT_PORT,
                local_port: GUE_DEFAULT_PORT,
            }),
    {
        GueConfig6 { remote_ip, remote_port: GUE_DEFAULT_PORT, local_port: GUE_DEFAULT_PORT }
    }

    pub fn with_remote_port(self, port: u16) -> (r: Self)
        ensures
            r == (GueConfig6 { remote_port: port, ..self }),
    {
        GueConfig6 { remote_port: port, ..self }
    }

    pub fn with_local_port(self, port: u16) -> (r: Self)
        ensures
            r == (GueConfig6 { local_port: port, ..self }),
    {
        GueConfig6 { local_port: port, ..self }
    }
}

// ---------------------------------------------------------------------------
// Header
// ---------------------------------------------------------------------------

/// A GUE header.
#[derive(Debug, Clone, Copy, PartialEq, Eq, Structural)]
pub struct GueHeader {
    pub version: u8,
    /// Set on control messages.
    pub c_flag: bool,
    /// Length of the extensions in 4-byte words.
    pub hlen: u8,
    pub proto: u8,
    pub flags: u16,
}

/// The GUE header that the bytes at offset `i` of `s` spell.
pub open spec fn gue_header_at(s: Seq<u8>, i: int) -> GueHeader {
    GueHeader {
        version: s[i] / 64,
        c_flag: (s[i] / 32) % 2 == 1,
        hlen: s[i] % 32,
        proto: s[i + 1],
        flags: bytes::be16_at(s, i + 2),
    }
}

impl GueHeader {
    /// The four bytes of the header. Two bits of the version and five of the
    /// extension length are kept.
    pub open spec fn bytes(self) -> Seq<u8> {
        seq![
            ((self.version % 4) * 64 + (if self.c_flag {
                32int
            } else {
                0
            }) + self.hlen % 32) as u8,
            self.proto,
            (self.flags / 256) as u8,
            (self.flags % 256) as u8,
        ]
    }

    /// Header length with extensions.
    pub open spec fn len(self) -> int {
        GUE_HEADER_LEN + self.hlen * 4
    }

    /// A data header for the inner protocol `proto`.
    pub fn new_data(proto: u8) -> (r: Self)
        ensures
            r == (GueHeader { version: GUE_VERSION, c_flag: false, hlen: 0, proto, flags: 0 }),
    {
        GueHeader { version: GUE_VERSION, c_flag: false, hlen: 0, proto, flags: 0 }
    }

    /// Header length with extensions.
    pub fn total_len(&self) -> (r: usize)
        ensures
            r == self.len(),
    {
        GUE_HEADER_LEN + self.hlen as usize * 4
    }

    fn first_byte(&self) -> (r: u8)
        ensures
            r == self.bytes()[0],
    {
        let c: u8 = if self.c_flag {
            32
        } else {
            0
        };
        (self.version % 4) * 64 + c + self.hlen % 32
    }

    /// Writes the header into the first four bytes of `out`.
    pub fn encode(&self, out: &mut [u8])
        requires
            old(out)@.len() >= GUE_HEADER_LEN,
        ensures
            final(out)@ == self.bytes() + old(out)@.subrange(
                GUE_HEADER_LEN as int,
                old(out)@.len() as int,
            ),
    {
        out[0] = self.first_byte();
        out[1] = self.proto;
        out[2] = high_byte(self.flags);
        out[3] = low_byte(self.flags);
        assert(out@ =~= self.bytes() + old(out)@.subrange(
            GUE_HEADER_LEN as int,
            old(out)@.len() as int,
        ));
    }

    /// Reads a header. Gives `None` if the data is shorter than the header with
    /// its extensions, or the version is not 0.
    pub fn parse(data: &[u8]) -> (r: Option<Self>)
        ensures
            r == gue_parse(data@),
    {
        if data.len() < GUE_HEADER_LEN {
            return None;
        }
        let header = GueHeader {
            version: data[0] / 64,
            c_flag: (data[0] / 32) % 2 == 1,
            hlen: data[0] % 32,
            proto: data[1],
            flags: read_be16(data, 2),
        };
        if header.version != GUE_VERSION {
            return None;
        }
        if data.len() < header.total_len() {
            return None;
        }
        Some(header)
    }
}

/// The GUE header at the start of `data`, if it is whole and of version 0.
pub open spec fn gue_parse(data: Seq<u8>) -> Option<GueHeader> {
    let header = gue_header_at(data, 0);
    if data.len() < GUE_HEADER_LEN || header.version != GUE_VERSION || data.len() < header.len() {
        None
    } else {
        Some(header)
    }
}

/// Reading an encoded header gives the header back, when the data holds its
/// extensions too.
pub proof fn law_gue_header_round_trip(header: GueHeader, rest: Seq<u8>)
    requires
        header.version == GUE_VERSION,
        header.hlen < 32,
        rest.len() >= header.hlen * 4,
    ensures
        gue_parse(header.bytes() + rest) == Some(header),
{
    let data = header.bytes() + rest;
    assert(data[0] == header.bytes()[0]);
    assert(data[1] == header.proto);
    assert(data[2] == header.flags / 256);
    assert(data[3] == header.flags % 256);
    let c: int = if header.c_flag {
        32
    } else {
        0
    };
    assert(data[0] == c + header.hlen);
    assert((data[0] / 32) % 2 == c / 32);
}

// ---------------------------------------------------------------------------
// Building
// ---------------------------------------------------------------------------

/// The outer UDP payload: the GUE header and the inner packet.
pub open spec fn gue_payload(
    inner_src_ip: Ipv4Addr,
    inner_dst_ip: Ipv4Addr,
    inner_src_port: u16,
    inner_dst_port: u16,
    payload: Seq<u8>,
) -> Seq<u8> {
    (GueHeader {
        version: GUE_VERSION,
        c_flag: false,
        hlen: 0,
        proto: GUE_PROTO_IPV4,
        flags: 0,
    }).bytes() + udp::udp4_packet(
        inner_src_ip,
        inner_dst_ip,
        inner_src_port,
        inner_dst_port,
        payload,
        GUE_INNER_TTL,
    )
}

/// Largest payload that an IPv4 tunnel packet can carry.
pub open spec fn gue_max_payload() -> int {
    0xFFFF - 60
}

/// Largest payload that an IPv6 tunnel packet can carry.
pub open spec fn gue_max_payload6() -> int {
    0xFFFF - 40
}

/// Builds the outer UDP payload.
fn gue_inner(
    inner_src_ip: Ipv4Addr,
    inner_dst_ip: Ipv4Addr,
    inner_src_port: u16,
    inner_dst_port: u16,
    payload: &[u8],
) -> (r: Vec<u8>)
    requires
        payload@.len() <= 0xFFFF,
    ensures
        r@ == gue_payload(inner_src_ip, inner_dst_ip, inner_src_port, inner_dst_port, payload@),
        r@.len() == 32 + payload@.len(),
{
    let mut inner: Vec<u8> = Vec::new();
    let header = GueHeader::new_data(GUE_PROTO_IPV4);
    let head = [
        header.first_byte(),
        header.proto,
        high_byte(header.flags),
        low_byte(header.flags),
    ];
    assert(head@ =~= header.bytes());
    push_bytes(&mut inner, &head);
    push_udp4_packet(
        &mut inner,
        inner_src_ip,
        inner_dst_ip,
        inner_src_port,
        inner_dst_port,
        payload,
        GUE_INNER_TTL,
    );
    proof {
        udp::lemma_udp4_packet_len(
            inner_src_ip,
            inner_dst_ip,
            inner_src_port,
            inner_dst_port,
            payload@,
            GUE_INNER_TTL,
        );
        assert(inner@ =~= gue_payload(
            inner_src_ip,
            inner_dst_ip,
            inner_src_port,
            inner_dst_port,
            payload@,
        ));
    }
    inner
}

/// Builds a GUE frame over IPv4 into `out` and returns its length.
///
/// `ttl` is the outer time to live; the inner one is 64.
pub fn build_gue_frame_into(
    out: &mut Vec<u8>,
    outer_src_mac: &[u8; 6],
    outer_dst_mac: &[u8; 6],
    outer_src_ip: Ipv4Addr,
    outer_dst_ip: Ipv4Addr,
    outer_src_port: u16,
    outer_dst_port: u16,
    inner_src_ip: Ipv4Addr,
    inner_dst_ip: Ipv4Addr,
    inner_src_port: u16,
    inner_dst_port: u16,
    payload: &[u8],
    ttl: u8,
) -> (r: UdpResult<usize>)
    requires
        payload@.len() <= gue_max_payload(),
    ensures
        r == Ok::<usize, UdpError>((74 + payload@.len()) as usize),
        final(out)@ == udp::udp4_frame(
            outer_src_mac@,
            outer_dst_mac@,
            outer_src_ip,
            outer_dst_ip,
            outer_src_port,
            outer_dst_port,
            gue_payload(inner_src_ip, inner_dst_ip, inner_src_port, inner_dst_port, payload@),
            ttl,
        ),
        final(out)@.len() == 74 + payload@.len(),
{
    let inner = gue_inner(inner_src_ip, inner_dst_ip, inner_src_port, inner_dst_port, payload);
    write_udp4_frame(
        out,
        outer_src_mac,
        outer_dst_mac,
        outer_src_ip,
        outer_dst_ip,
        outer_src_port,
        outer_dst_port,
        inner.as_slice(),
        ttl,
    );
    Ok(out.len())
}

/// Builds a GUE frame over IPv6 into `out` and returns its length.
///
/// `hop_limit` is the outer one; the inner time to live is 64.
pub fn build_gue_frame_into_v6(
    out: &mut Vec<u8>,
    outer_src_mac: &[u8; 6],
    outer_dst_mac: &[u8; 6],
    outer_src_ip: Ipv6Addr,
    outer_dst_ip: Ipv6Addr,
    outer_src_port: u16,
    outer_dst_port: u16,
    inner_src_ip: Ipv4Addr,
    inner_dst_ip: Ipv4Addr,
    inner_src_port: u16,
    inner_dst_port: u16,
    payload: &[u8],
    hop_limit: u8,
) -> (r: UdpResult<usize>)
    requires
        payload@.len() <= gue_max_payload6(),
    ensures
        r == Ok::<usize, UdpError>((94 + payload@.len()) as usize),
        final(out)@ == ipv6::udp6_frame(
            outer_src_mac@,
            outer_dst_mac@,
            outer_src_ip,
            outer_dst_ip,
            outer_src_port,
            outer_dst_port,
            gue_payload(inner_src_ip, inner_dst_ip, inner_src_port, inner_dst_port, payload@),
            hop_limit,
        ),
        final(out)@.len() == 94 + payload@.len(),
{
    let inner = gue_inner(inner_src_ip, inner_dst_ip, inner_src_port, inner_dst_port, payload);
    write_udp6_frame(
        out,
        outer_src_mac,
        outer_dst_mac,
        outer_src_ip,
        outer_dst_ip,
        outer_src_port,
        outer_dst_port,
        inner.as_slice(),
        hop_limit,
    );
    Ok(out.len())
}

// ---------------------------------------------------------------------------
// Decapsulation
// ---------------------------------------------------------------------------

/// What a GUE frame over IPv4 carried.
#[derive(Debug)]
pub struct GueDecapResult<'a> {
    pub inner_src_ip: Ipv4Addr,
    pub inner_dst_ip: Ipv4Addr,
    pub inner_src_port: u16,
    pub inner_dst_port: u16,
    pub payload: &'a [u8],
    pub outer_src_ip: Ipv4Addr,
    pub gue_header: GueHeader,
}

/// What a GUE frame over IPv6 carried.
#[derive(Debug)]
pub struct GueDecapResult6<'a> {
    pub inner_src_ip: Ipv4Addr,
    pub inner_dst_ip: Ipv4Addr,
    pub inner_src_port: u16,
    pub inner_dst_port: u16,
    pub payload: &'a [u8],
    pub outer_src_ip: Ipv6Addr,
    pub gue_header: GueHeader,
}

/// The GUE header behind the UDP header at `start`.
pub open spec fn gue_behind(frame: Seq<u8>, start: int) -> Option<GueHeader> {
    gue_parse(frame.subrange(start + UDP_HEADER_LEN, frame.len() as int))
}

/// The offset of the inner IPv4 packet of the GUE packet whose outer UDP header is
/// at `start`, if it is a data message with a whole inner UDP datagram.
pub open spec fn gue_inner_start(frame: Seq<u8>, start: int) -> Option<int> {
    match gue_behind(frame, start) {
        Some(header) => {
            let inner = start + UDP_HEADER_LEN + header.len();
            if !header.c_flag && header.proto == GUE_PROTO_IPV4 && udp::is_udp4_at(frame, inner) {
                Some(inner)
            } else {
                None
            }
        },
        None => None,
    }
}

/// Where the inner packet of a GUE frame over IPv4 starts.
pub open spec fn gue4_inner(frame: Seq<u8>, l3: int, port: u16) -> Option<int> {
    match tunnel::outer_udp4(frame, l3, port) {
        Some(start) => gue_inner_start(frame, start),
        None => None,
    }
}

/// Where the inner packet of a GUE frame over IPv6 starts.
pub open spec fn gue6_inner(frame: Seq<u8>, l3: int, port: u16) -> Option<int> {
    match tunnel::outer_udp6(frame, l3, port) {
        Some(start) => gue_inner_start(frame, start),
        None => None,
    }
}

impl<'a> GueDecapResult<'a> {
    /// Whether this is what the GUE frame over IPv4 says.
    pub open spec fn describes(self, frame: Seq<u8>, l3: int, port: u16) -> bool {
        let start = tunnel::outer_udp4(frame, l3, port)->Some_0;
        &&& udp::udp4_fields_at(
            frame,
            gue4_inner(frame, l3, port)->Some_0,
            self.inner_src_ip,
            self.inner_dst_ip,
            self.inner_src_port,
            self.inner_dst_port,
            self.payload@,
        )
        &&& self.outer_src_ip == addr::ipv4_at(frame, l3 + 12)
        &&& gue_behind(frame, start) == Some(self.gue_header)
    }
}

impl<'a> GueDecapResult6<'a> {
    /// Whether this is what the GUE frame over IPv6 says.
    pub open spec fn describes(self, frame: Seq<u8>, l3: int, port: u16) -> bool {
        let start = tunnel::outer_udp6(frame, l3, port)->Some_0;
        &&& udp::udp4_fields_at(
            frame,
            gue6_inner(frame, l3, port)->Some_0,
            self.inner_src_ip,
            self.inner_dst_ip,
            self.inner_src_port,
            self.inner_dst_port,
            self.payload@,
        )
        &&& self.outer_src_ip == addr::ipv6_at(frame, l3 + 8)
        &&& gue_behind(frame, start) == Some(self.gue_header)
    }
}

/// The header and inner datagram of a GUE packet.
struct GueInner<'a> {
    header: GueHeader,
    datagram: udp::Udp4Ref<'a>,
}

/// Reads the GUE packet whose outer UDP header is at `start`.
fn decap_at(frame: &[u8], start: usize) -> (r: Option<GueInner<'_>>)
    requires
        start + UDP_HEADER_LEN <= frame@.len(),
    ensures
        r is Some <==> gue_inner_start(frame@, start as int) is Some,
        r matches Some(p) ==> {
            &&& gue_behind(frame@, start as int) == Some(p.header)
            &&& udp::udp4_fields_at(
                frame@,
                gue_inner_start(frame@, start as int)->Some_0,
                p.datagram.src_ip,
                p.datagram.dst_ip,
                p.datagram.src_port,
                p.datagram.dst_port,
                p.datagram.payload@,
            )
        },
{
    assert(start + UDP_HEADER_LEN <= frame.len());
    let gue_off: usize = start + UDP_HEADER_LEN;
    let header = match GueHeader::parse(slice_of(frame, gue_off, frame.len())) {
        Some(header) => header,
        None => return None,
    };
    if header.c_flag {
        return None;
    }
    if header.proto != GUE_PROTO_IPV4 {
        return None;
    }
    match parse_udp4_at(frame, gue_off + header.total_len()) {
        Some(datagram) => Some(GueInner { header, datagram }),
        None => None,
    }
}

/// Decapsulates a GUE frame whose outer IPv4 header is at `l3_offset` and whose
/// outer UDP destination is `gue_local_port`. Gives `None` for control messages
/// and for whatever does not hold a whole inner UDP datagram over IPv4.
pub fn try_decap_gue<'a>(frame: &'a [u8], l3_offset: usize, gue_local_port: u16) -> (r: Option<
    GueDecapResult<'a>,
>)
    requires
        l3_offset + IPV4_HEADER_LEN <= usize::MAX,
    ensures
        r is Some <==> gue4_inner(frame@, l3_offset as int, gue_local_port) is Some,
        r matches Some(p) ==> p.describes(frame@, l3_offset as int, gue_local_port),
{
    let start: usize = match find_outer_udp4(frame, l3_offset, gue_local_port) {
        Some(start) => start,
        None => return None,
    };
    match decap_at(frame, start) {
        Some(p) => Some(
            GueDecapResult {
                inner_src_ip: p.datagram.src_ip,
                inner_dst_ip: p.datagram.dst_ip,
                inner_src_port: p.datagram.src_port,
                inner_dst_port: p.datagram.dst_port,
                payload: p.datagram.payload,
                outer_src_ip: read_ipv4(frame, l3_offset + 12),
                gue_header: p.header,
            },
        ),
        None => None,
    }
}

/// Decapsulates a GUE frame whose outer IPv6 header is at `l3_offset` and whose
/// outer UDP destination is `gue_local_port`.
pub fn try_decap_gue_v6<'a>(frame: &'a [u8], l3_offset: usize, gue_local_port: u16) -> (r: Option<
    GueDecapResult6<'a>,
>)
    requires
        l3_offset + IPV6_HEADER_LEN <= usize::MAX,
    ensures
        r is Some <==> gue6_inner(frame@, l3_offset as int, gue_local_port) is Some,
        r matches Some(p) ==> p.describes(frame@, l3_offset as int, gue_local_port),
{
    let start: usize = match find_outer_udp6(frame, l3_offset, gue_local_port) {
        Some(start) => start,
        None => return None,
    };
    match decap_at(frame, start) {
        Some(p) => Some(
            GueDecapResult6 {
                inner_src_ip: p.datagram.src_ip,
                inner_dst_ip: p.datagram.dst_ip,
                inner_src_port: p.datagram.src_port,
                inner_dst_port: p.datagram.dst_port,
                payload: p.datagram.payload,
                outer_src_ip: read_ipv6(frame, l3_offset + 8),
                gue_header: p.header,
            },
        ),
        None => None,
    }
}

// ---------------------------------------------------------------------------
// Laws
// ---------------------------------------------------------------------------

/// A data header is read back behind any headers.
proof fn lemma_gue_header_behind(pre: Seq<u8>, start: int, header: GueHeader, inner: Seq<u8>)
    requires
        start + 8 == pre.len(),
        header.version == GUE_VERSION,
        header.hlen == 0,
    ensures
        gue_behind(pre + (header.bytes() + inner), start) == Some(header),
        pre + (header.bytes() + inner) == (pre + header.bytes()) + inner,
        (pre + header.bytes()).len() == start + 12,
{
    let frame = pre + (header.bytes() + inner);
    law_gue_header_round_trip(header, inner);
    assert(frame.subrange(start + 8, frame.len() as int) =~= header.bytes() + inner);
    assert(frame =~= (pre + header.bytes()) + inner);
}

/// The inner packet of a GUE payload is found behind any headers.
proof fn lemma_gue_inner(
    pre: Seq<u8>,
    start: int,
    inner_src_ip: Ipv4Addr,
    inner_dst_ip: Ipv4Addr,
    inner_src_port: u16,
    inner_dst_port: u16,
    payload: Seq<u8>,
)
    requires
        start + 8 == pre.len(),
        payload.len() + 8 <= 0xFFFF,
    ensures
        ({
            let frame = pre + gue_payload(
                inner_src_ip,
                inner_dst_ip,
                inner_src_port,
                inner_dst_port,
                payload,
            );
            &&& gue_inner_start(frame, start) == Some(start + 12)
            &&& gue_behind(frame, start) == Some(
                GueHeader {
                    version: GUE_VERSION,
                    c_flag: false,
                    hlen: 0,
                    proto: GUE_PROTO_IPV4,
                    flags: 0,
                },
            )
            &&& udp::udp4_fields_at(
                frame,
                start + 12,
                inner_src_ip,
                inner_dst_ip,
                inner_src_port,
                inner_dst_port,
                payload,
            )
        }),
{
    let header = GueHeader {
        version: GUE_VERSION,
        c_flag: false,
        hlen: 0,
        proto: GUE_PROTO_IPV4,
        flags: 0,
    };
    let inner = udp::udp4_packet(
        inner_src_ip,
        inner_dst_ip,
        inner_src_port,
        inner_dst_port,
        payload,
        GUE_INNER_TTL,
    );
    let frame = pre + gue_payload(
        inner_src_ip,
        inner_dst_ip,
        inner_src_port,
        inner_dst_port,
        payload,
    );
    lemma_gue_header_behind(pre, start, header, inner);
    udp::lemma_udp4_packet_at(
        pre + header.bytes(),
        inner_src_ip,
        inner_dst_ip,
        inner_src_port,
        inner_dst_port,
        payload,
        GUE_INNER_TTL,
    );
}

/// Decapsulating a built GUE frame over IPv4 on its destination port gives back
/// what it was built from, and its outer checksums verify.
pub proof fn law_gue_round_trip(
    outer_src_mac: [u8; 6],
    outer_dst_mac: [u8; 6],
    outer_src_ip: Ipv4Addr,
    outer_dst_ip: Ipv4Addr,
    outer_src_port: u16,
    outer_dst_port: u16,
    inner_src_ip: Ipv4Addr,
    inner_dst_ip: Ipv4Addr,
    inner_src_port: u16,
    inner_dst_port: u16,
    payload: Seq<u8>,
    ttl: u8,
)
    requires
        payload.len() <= gue_max_payload(),
    ensures
        ({
            let frame = udp::udp4_frame(
                outer_src_mac@,
                outer_dst_mac@,
                outer_src_ip,
                outer_dst_ip,
                outer_src_port,
                outer_dst_port,
                gue_payload(inner_src_ip, inner_dst_ip, inner_src_port, inner_dst_port, payload),
                ttl,
            );
            let l3 = ETH_HEADER_LEN as int;
            &&& udp::ipv4_cksum_valid(frame)
            &&& udp::udp_cksum_valid(frame)
            &&& gue4_inner(frame, l3, outer_dst_port) == Some(46int)
            &&& udp::udp4_fields_at(
                frame,
                46,
                inner_src_ip,
                inner_dst_ip,
                inner_src_port,
                inner_dst_port,
                payload,
            )
            &&& forall|port: u16|
                port != outer_dst_port ==> #[trigger] gue4_inner(frame, l3, port) is None
            &&& forall|p: GueDecapResult| #[trigger]
                p.describes(frame, l3, outer_dst_port) <==> {
                    &&& p.inner_src_ip == inner_src_ip
                    &&& p.inner_dst_ip == inner_dst_ip
                    &&& p.inner_src_port == inner_src_port
                    &&& p.inner_dst_port == inner_dst_port
                    &&& p.payload@ == payload
                    &&& p.outer_src_ip == outer_src_ip
                    &&& p.gue_header == (GueHeader {
                        version: GUE_VERSION,
                        c_flag: false,
                        hlen: 0,
                        proto: GUE_PROTO_IPV4,
                        flags: 0,
                    })
                }
        }),
{
    let data = gue_payload(inner_src_ip, inner_dst_ip, inner_src_port, inner_dst_port, payload);
    let frame = udp::udp4_frame(
        outer_src_mac@,
        outer_dst_mac@,
        outer_src_ip,
        outer_dst_ip,
        outer_src_port,
        outer_dst_port,
        data,
        ttl,
    );
    udp::lemma_udp4_packet_len(
        inner_src_ip,
        inner_dst_ip,
        inner_src_port,
        inner_dst_port,
        payload,
        GUE_INNER_TTL,
    );
    assert(data.len() == 32 + payload.len());
    tunnel::lemma_outer4(
        outer_src_mac,
        outer_dst_mac,
        outer_src_ip,
        outer_dst_ip,
        outer_src_port,
        outer_dst_port,
        data,
        ttl,
    );
    let pre = frame.subrange(0, 42);
    lemma_gue_inner(
        pre,
        34,
        inner_src_ip,
        inner_dst_ip,
        inner_src_port,
        inner_dst_port,
        payload,
    );
}

/// Decapsulating a built GUE frame over IPv6 on its destination port gives back
/// what it was built from, and its outer UDP checksum verifies.
pub proof fn law_gue6_round_trip(
    outer_src_mac: [u8; 6],
    outer_dst_mac: [u8; 6],
    outer_src_ip: Ipv6Addr,
    outer_dst_ip: Ipv6Addr,
    outer_src_port: u16,
    outer_dst_port: u16,
    inner_src_ip: Ipv4Addr,
    inner_dst_ip: Ipv4Addr,
    inner_src_port: u16,
    inner_dst_port: u16,
    payload: Seq<u8>,
    hop_limit: u8,
)
    requires
        payload.len() <= gue_max_payload6(),
    ensures
        ({
            let frame = ipv6::udp6_frame(
                outer_src_mac@,
                outer_dst_mac@,
                outer_src_ip,
                outer_dst_ip,
                outer_src_port,
                outer_dst_port,
                gue_payload(inner_src_ip, inner_dst_ip, inner_src_port, inner_dst_port, payload),
                hop_limit,
            );
            let l3 = ETH_HEADER_LEN as int;
            &&& ipv6::udp6_cksum_valid(frame)
            &&& gue6_inner(frame, l3, outer_dst_port) is Some
            &&& forall|port: u16|
                port != outer_dst_port ==> #[trigger] gue6_inner(frame, l3, port) is None
            &&& forall|p: GueDecapResult6| #[trigger]
                p.describes(frame, l3, outer_dst_port) <==> {
                    &&& p.inner_src_ip == inner_src_ip
                    &&& p.inner_dst_ip == inner_dst_ip
                    &&& p.inner_src_port == inner_src_port
                    &&& p.inner_dst_port == inner_dst_port
                    &&& p.payload@ == payload
                    &&& p.outer_src_ip == outer_src_ip
                    &&& p.gue_header == (GueHeader {
                        version: GUE_VERSION,
                        c_flag: false,
                        hlen: 0,
                        proto: GUE_PROTO_IPV4,
                        flags: 0,
                    })
                }
        }),
{
    let data = gue_payload(inner_src_ip, inner_dst_ip, inner_src_port, inner_dst_port, payload);
    let frame = ipv6::udp6_frame(
        outer_src_mac@,
        outer_dst_mac@,
        outer_src_ip,
        outer_dst_ip,
        outer_src_port,
        outer_dst_port,
        data,
        hop_limit,
    );
    udp::lemma_udp4_packet_len(
        inner_src_ip,
        inner_dst_ip,
        inner_src_port,
        inner_dst_port,
        payload,
        GUE_INNER_TTL,
    );
    assert(data.len() == 32 + payload.len());
    tunnel::lemma_outer6(
        outer_src_mac,
        outer_dst_mac,
        outer_src_ip,
        outer_dst_ip,
        outer_src_port,
        outer_dst_port,
        data,
        hop_limit,
    );
    let pre = frame.subrange(0, 62);
    lemma_gue_inner(
        pre,
        54,
        inner_src_ip,
        inner_dst_ip,
        inner_src_port,
        inner_dst_port,
        payload,
    );
}

} // verus!
