//! GENEVE (RFC 8926) tunnels: an inner Ethernet frame inside an outer UDP
//! datagram, behind a GENEVE header with a 24-bit network identifier and options.
//!
//! ```text
//! +-+-+-+-+-+-+-+-+-+-+-+-+-+-+-+-+-+-+-+-+-+-+-+-+-+-+-+-+-+-+-+-+
//! |Ver|  Opt Len  |O|C|    Rsvd.  |         Protocol Type         |
//! +-+-+-+-+-+-+-+-+-+-+-+-+-+-+-+-+-+-+-+-+-+-+-+-+-+-+-+-+-+-+-+-+
//! |        Virtual Network Identifier (VNI)       |    Reserved   |
//! +-+-+-+-+-+-+-+-+-+-+-+-+-+-+-+-+-+-+-+-+-+-+-+-+-+-+-+-+-+-+-+-+
//! ```

use vstd::prelude::*;

use crate::addr;
use crate::addr::{read_ipv4, read_ipv6, Ipv4Addr, Ipv6Addr};
use crate::bytes;
use crate::bytes::{copy_bytes, high_byte, low_byte, read_be16, read_mac, slice_of};
use crate::constants::{ETH_HEADER_LEN, ETH_TYPE_IPV4, IPV4_HEADER_LEN, UDP_HEADER_LEN};
use crate::error::{UdpError, UdpResult};
use crate::ipv6;
use crate::ipv6::{write_udp6_frame, IPV6_HEADER_LEN};
use crate::tunnel;
use crate::tunnel::{find_outer_udp4, find_outer_udp6};
use crate::udp;
use crate::udp::{parse_udp4_at, push_eth_header, push_udp4_packet, write_udp4_frame};

verus! {

/// GENEVE header size without options.
pub const GENEVE_BASE_HEADER_LEN: usize = 8;

/// UDP port of GENEVE.
pub const GENEVE_DEFAULT_PORT: u16 = 6081;

/// Bytes that encapsulation adds over IPv4: IPv4, UDP and GENEVE headers and the
/// inner Ethernet header.
pub const GENEVE_ENCAP_OVERHEAD: usize = 50;

/// Bytes that encapsulation adds over IPv6.
pub const GENEVE_ENCAP_OVERHEAD_V6: usize = 70;

/// Largest network identifier.
pub const GENEVE_VNI_MAX: u32 = 0x00FF_FFFF;

/// Protocol type of an inner Ethernet frame.
pub const GENEVE_INNER_ETYPE_ETH: u16 = 0x6558;

/// Longest options, in bytes.
pub const GENEVE_MAX_OPTIONS_LEN: usize = 252;

pub const GENEVE_VERSION: u8 = 0;

/// Time to live of the inner packet.
pub const GENEVE_INNER_TTL: u8 = 64;

/// A GENEVE tunnel endpoint over IPv4.
#[derive(Debug, Clone, PartialEq, Eq)]
pub struct GeneveConfig {
    /// Address of the remote endpoint.
    pub remote_ip: Ipv4Addr,
    /// Network identifier.
    pub vni: u32,
    /// Outer UDP destination port.
    pub remote_port: u16,
    /// Outer UDP source port.
    pub local_port: u16,
    pub inner_src_mac: [u8; 6],
    pub inner_dst_mac: [u8; 6],
}

impl GeneveConfig {
    /// An endpoint with the default ports, a zero inner source MAC and the
    /// broadcast inner destination MAC.
    pub fn new(remote_ip: Ipv4Addr, vni: u32) -> (r: Self)
        requires
            vni <= GENEVE_VNI_MAX,
        ensures
            r.remote_ip == remote_ip,
            r.vni == vni,
            r.remote_port == GENEVE_DEFAULT_PORT,
            r.local_port == GENEVE_DEFAULT_PORT,
            r.inner_src_mac@ == seq![0u8, 0u8, 0u8, 0u8, 0u8, 0u8],
            r.inner_dst_mac@ == seq![0xFFu8, 0xFFu8, 0xFFu8, 0xFFu8, 0xFFu8, 0xFFu8],
    {
        GeneveConfig {
            remote_ip,
            vni,
            remote_port: GENEVE_DEFAULT_PORT,
            local_port: GENEVE_DEFAULT_PORT,
            inner_src_mac: [0, 0, 0, 0, 0, 0],
            inner_dst_mac: [0xFF, 0xFF, 0xFF, 0xFF, 0xFF, 0xFF],
        }
    }

    pub fn with_remote_port(self, port: u16) -> (r: Self)
        ensures
            r == (GeneveConfig { remote_port: port, ..self }),
    {
        GeneveConfig { remote_port: port, ..self }
    }

    pub fn with_local_port(self, port: u16) -> (r: Self)
        ensures
            r == (GeneveConfig { local_port: port, ..self }),
    {
        GeneveConfig { local_port: port, ..self }
    }

    pub fn with_inner_src_mac(self, mac: [u8; 6]) -> (r: Self)
        ensures
            r == (GeneveConfig { inner_src_mac: mac, ..self }),
    {
        GeneveConfig { inner_src_mac: mac, ..self }
    }

    pub fn with_inner_dst_mac(self, mac: [u8; 6]) -> (r: Self)
        ensures
            r == (GeneveConfig { inner_dst_mac: mac, ..self }),
    {
        GeneveConfig { inner_dst_mac: mac, ..self }
    }
}

/// A GENEVE tunnel endpoint over IPv6.
#[derive(Debug, Clone, PartialEq, Eq)]
pub struct GeneveConfig6 {
    /// Address of the remote endpoint.
    pub remote_ip: Ipv6Addr,
    /// Network identifier.
    pub vni: u32,
    /// Outer UDP destination port.
    pub remote_port: u16,
    /// Outer UDP source port.
    pub local_port: u16,
    pub inner_src_mac: [u8; 6],
    pub inner_dst_mac: [u8; 6],
}

impl GeneveConfig6 {
    /// An endpoint with the default ports, a zero inner source MAC and the
    /// broadcast inner destination MAC.
    pub fn new(remote_ip: Ipv6Addr, vni: u32) -> (r: Self)
        requires
            vni <= GENEVE_VNI_MAX,
        ensures
            r.remote_ip == remote_ip,
            r.vni == vni,
            r.remote_port == GENEVE_DEFAULT_PORT,
            r.local_port == GENEVE_DEFAULT_PORT,
            r.inner_src_mac@ == seq![0u8, 0u8, 0u8, 0u8, 0u8, 0u8],
            r.inner_dst_mac@ == seq![0xFFu8, 0xFFu8, 0xFFu8, 0xFFu8, 0xFFu8, 0xFFu8],
    {
        GeneveConfig6 {
            remote_ip,
            vni,
            remote_port: GENEVE_DEFAULT_PORT,
            local_port: GENEVE_DEFAULT_PORT,
            inner_src_mac: [0, 0, 0, 0, 0, 0],
            inner_dst_mac: [0xFF, 0xFF, 0xFF, 0xFF, 0xFF, 0xFF],
        }
    }

    pub fn with_remote_port(self, port: u16) -> (r: Self)
        ensures
            r == (GeneveConfig6 { remote_port: port, ..self }),
    {
        GeneveConfig6 { remote_port: port, ..self }
    }

    pub fn with_local_port(self, port: u16) -> (r: Self)
        ensures
            r == (GeneveConfig6 { local_port: port, ..self }),
    {
        GeneveConfig6 { local_port: port, ..self }
    }

    pub fn with_inner_src_mac(self, mac: [u8; 6]) -> (r: Self)
        ensures
            r == (GeneveConfig6 { inner_src_mac: mac, ..self }),
    {
        GeneveConfig6 { inner_src_mac: mac, ..self }
    }

    pub fn with_inner_dst_mac(self, mac: [u8; 6]) -> (r: Self)
        ensures
            r == (GeneveConfig6 { inner_dst_mac: mac, ..self }),
    {
        GeneveConfig6 { inner_dst_mac: mac, ..self }
    }
}

// ---------------------------------------------------------------------------
// Header
// ---------------------------------------------------------------------------

/// A GENEVE option.
#[derive(Debug, Clone, PartialEq, Eq)]
pub struct GeneveTlvOption {
    /// Namespace of the option type.
    pub class: u16,
    pub option_type: u8,
    /// Data, a multiple of 4 bytes on the wire.
    pub data: Vec<u8>,
}

/// What a GENEVE option says.
pub struct GeneveTlvView {
    pub class: u16,
    pub option_type: u8,
    pub data: Seq<u8>,
}

impl View for GeneveTlvOption {
    type V = GeneveTlvView;

    open spec fn view(&self) -> GeneveTlvView {
        GeneveTlvView { class: self.class, option_type: self.option_type, data: self.data@ }
    }
}

/// A GENEVE header.
#[derive(Debug, Clone, PartialEq, Eq)]
pub struct GeneveHeader {
    pub version: u8,
    /// Length of the options in bytes.
    pub options_len: usize,
    /// Set on control frames.
    pub oam: bool,
    /// Set if an option must be understood.
    pub critical: bool,
    /// Protocol type of the inner payload.
    pub protocol_type: u16,
    /// Network identifier.
    pub vni: u32,
    pub options: Vec<GeneveTlvOption>,
}

/// What a GENEVE header says.
pub struct GeneveHeaderView {
    pub version: u8,
    pub options_len: nat,
    pub oam: bool,
    pub critical: bool,
    pub protocol_type: u16,
    pub vni: u32,
    pub options: Seq<GeneveTlvView>,
}

/// The views of a row of options.
pub open spec fn option_views(options: Seq<GeneveTlvOption>) -> Seq<GeneveTlvView> {
    Seq::new(options.len(), |i: int| options[i]@)
}

impl View for GeneveHeader {
    type V = GeneveHeaderView;

    open spec fn view(&self) -> GeneveHeaderView {
        GeneveHeaderView {
            version: self.version,
            options_len: self.options_len as nat,
            oam: self.oam,
            critical: self.critical,
            protocol_type: self.protocol_type,
            vni: self.vni,
            options: option_views(self.options@),
        }
    }
}

impl GeneveTlvView {
    /// The option on the wire: class, type, data length in words, data.
    pub open spec fn bytes(self) -> Seq<u8> {
        bytes::be16_bytes(self.class) + seq![
            self.option_type,
            ((self.data.len() / 4) % 32) as u8,
        ] + self.data
    }

    /// Whether the length field can tell the data length.
    pub open spec fn encodable(self) -> bool {
        &&& self.data.len() % 4 == 0
        &&& self.data.len() <= 124
    }
}

/// A row of options on the wire.
pub open spec fn options_bytes(options: Seq<GeneveTlvView>) -> Seq<u8>
    decreases options.len(),
{
    if options.len() == 0 {
        Seq::empty()
    } else {
        options_bytes(options.drop_last()) + options.last().bytes()
    }
}

/// The options that the bytes `data` spell, `None` if the last one is cut off.
pub open spec fn parse_options(data: Seq<u8>) -> Option<Seq<GeneveTlvView>>
    decreases data.len(),
{
    if data.len() < 4 {
        Some(Seq::empty())
    } else {
        let end = 4 + (data[3] % 32) * 4;
        if end > data.len() {
            None
        } else {
            match parse_options(data.subrange(end, data.len() as int)) {
                Some(rest) => Some(
                    seq![
                        GeneveTlvView {
                            class: bytes::be16_at(data, 0),
                            option_type: data[2],
                            data: data.subrange(4, end),
                        },
                    ] + rest,
                ),
                None => None,
            }
        }
    }
}

impl GeneveHeaderView {
    /// The first eight bytes of the header.
    pub open spec fn base_bytes(self) -> Seq<u8> {
        seq![
            ((self.version % 4) * 64 + (self.options_len / 4) % 64) as u8,
            ((if self.oam {
                128int
            } else {
                0
            }) + (if self.critical {
                64int
            } else {
                0
            })) as u8,
            (self.protocol_type / 256) as u8,
            (self.protocol_type % 256) as u8,
            ((self.vni / 0x1_0000) % 256) as u8,
            ((self.vni / 0x100) % 256) as u8,
            (self.vni % 256) as u8,
            0u8,
        ]
    }

    /// The header on the wire.
    pub open spec fn bytes(self) -> Seq<u8> {
        self.base_bytes() + options_bytes(self.options)
    }

    /// Whether every field can be told from the wire: the options fill exactly the
    /// length that the header claims for them.
    pub open spec fn encodable(self) -> bool {
        &&& self.version == GENEVE_VERSION
        &&& self.protocol_type == GENEVE_INNER_ETYPE_ETH
        &&& self.vni <= GENEVE_VNI_MAX
        &&& self.options_len == options_bytes(self.options).len()
        &&& self.options_len <= GENEVE_MAX_OPTIONS_LEN
        &&& forall|i: int| 0 <= i < self.options.len() ==> (#[trigger] self.options[i]).encodable()
    }
}

/// The GENEVE header at the start of `data`. `None` if the data is shorter than
/// the header with its options, an option is cut off, the version is not 0 or the
/// inner protocol is not Ethernet.
pub open spec fn geneve_parse(data: Seq<u8>) -> Option<GeneveHeaderView> {
    let options_len = (data[0] % 64) * 4;
    if data.len() < GENEVE_BASE_HEADER_LEN || data[0] / 64 != GENEVE_VERSION || data.len()
        < GENEVE_BASE_HEADER_LEN + options_len || bytes::be16_at(data, 2)
        != GENEVE_INNER_ETYPE_ETH {
        None
    } else {
        match parse_options(data.subrange(8, 8 + options_len)) {
            Some(options) => Some(
                GeneveHeaderView {
                    version: GENEVE_VERSION,
                    options_len: options_len as nat,
                    oam: data[1] / 128 == 1,
                    critical: (data[1] / 64) % 2 == 1,
                    protocol_type: GENEVE_INNER_ETYPE_ETH,
                    vni: (data[4] * 0x1_0000 + data[5] * 0x100 + data[6]) as u32,
                    options,
                },
            ),
            None => None,
        }
    }
}

/// Writes `src` into `out` from offset `off` on.
fn write_at(out: &mut [u8], off: usize, src: &[u8])
    requires
        off + src@.len() <= old(out)@.len(),
    ensures
        final(out)@ == old(out)@.subrange(0, off as int) + src@ + old(out)@.subrange(
            off + src@.len(),
            old(out)@.len() as int,
        ),
{
    let n: usize = src.len();
    let mut i: usize = 0;
    let ghost before = out@;
    while i < n
        invariant
            n == src@.len(),
            i <= n,
            off + n <= out@.len(),
            out@.len() == before.len(),
            forall|k: int|
                0 <= k < out@.len() ==> #[trigger] out@[k] == (if off <= k < off + i {
                    src@[k - off]
                } else {
                    before[k]
                }),
        decreases n - i,
    {
        assert(off + i < out.len());
        out[off + i] = src[i];
        i = i + 1;
    }
    assert(out@ =~= before.subrange(0, off as int) + src@ + before.subrange(
        off + src@.len(),
        before.len() as int,
    ));
}

impl GeneveHeader {
    /// A header without options for the network `vni`.
    pub fn new(vni: u32) -> (r: Self)
        requires
            vni <= GENEVE_VNI_MAX,
        ensures
            r@ == (GeneveHeaderView {
                version: GENEVE_VERSION,
                options_len: 0,
                oam: false,
                critical: false,
                protocol_type: GENEVE_INNER_ETYPE_ETH,
                vni,
                options: Seq::empty(),
            }),
            r@.encodable(),
    {
        let r = GeneveHeader {
            version: GENEVE_VERSION,
            options_len: 0,
            oam: false,
            critical: false,
            protocol_type: GENEVE_INNER_ETYPE_ETH,
            vni,
            options: Vec::new(),
        };
        assert(r@.options =~= Seq::<GeneveTlvView>::empty());
        r
    }

    /// Header length with options.
    pub fn header_len(&self) -> (r: usize)
        requires
            GENEVE_BASE_HEADER_LEN + self.options_len <= usize::MAX,
        ensures
            r == GENEVE_BASE_HEADER_LEN + self.options_len,
    {
        GENEVE_BASE_HEADER_LEN + self.options_len
    }

    /// Writes the header and its options to the start of `out` and returns the
    /// header length. Bytes behind the options are left alone.
    pub fn encode(&self, out: &mut [u8]) -> (r: usize)
        requires
            GENEVE_BASE_HEADER_LEN + self.options_len <= old(out)@.len(),
            self@.bytes().len() <= old(out)@.len(),
        ensures
            r == GENEVE_BASE_HEADER_LEN + self.options_len,
            final(out)@ == self@.bytes() + old(out)@.subrange(
                self@.bytes().len() as int,
                old(out)@.len() as int,
            ),
    {
        let ghost before = out@;
        assert(out.len() == before.len());
        let oam: u8 = if self.oam {
            128
        } else {
            0
        };
        let critical: u8 = if self.critical {
            64
        } else {
            0
        };
        out[0] = (self.version % 4) * 64 + ((self.options_len / 4) % 64) as u8;
        out[1] = oam + critical;
        out[2] = high_byte(self.protocol_type);
        out[3] = low_byte(self.protocol_type);
        out[4] = ((self.vni / 0x1_0000) % 256) as u8;
        out[5] = ((self.vni / 0x100) % 256) as u8;
        out[6] = (self.vni % 256) as u8;
        out[7] = 0;
        let mut off: usize = GENEVE_BASE_HEADER_LEN;
        let mut i: usize = 0;
        let n: usize = self.options.len();
        let ghost views = option_views(self.options@);
        assert(out@ =~= self@.base_bytes() + before.subrange(8, before.len() as int));
        assert(views.take(0) =~= Seq::<GeneveTlvView>::empty());
        while i < n
            invariant
                n == self.options@.len(),
                i <= n,
                views == option_views(self.options@),
                self@.bytes().len() <= before.len(),
                self@.bytes() == self@.base_bytes() + options_bytes(views),
                before.len() <= usize::MAX,
                off == 8 + options_bytes(views.take(i as int)).len(),
                off <= before.len(),
                out@.len() == before.len(),
                out@ == self@.base_bytes() + options_bytes(views.take(i as int))
                    + before.subrange(off as int, before.len() as int),
            decreases n - i,
        {
            let opt = &self.options[i];
            proof {
                assert(views[i as int] == opt@);
                assert(views.take(i + 1).drop_last() =~= views.take(i as int));
                assert(views.take(i + 1).last() == views[i as int]);
                lemma_options_prefix(views, i + 1);
                assert(opt@.bytes().len() == 4 + opt.data@.len());
            }
            let ghost mid = out@;
            let ghost off0 = off as int;
            out[off] = high_byte(opt.class);
            out[off + 1] = low_byte(opt.class);
            out[off + 2] = opt.option_type;
            out[off + 3] = ((opt.data.len() / 4) % 32) as u8;
            write_at(out, off + 4, opt.data.as_slice());
            off = off + 4 + opt.data.len();
            i = i + 1;
            proof {
                assert(out@ =~= mid.subrange(0, off0) + opt@.bytes() + mid.subrange(
                    off as int,
                    mid.len() as int,
                ));
                assert(mid.subrange(0, off0) =~= self@.base_bytes() + options_bytes(
                    views.take(i - 1),
                ));
                assert(mid.subrange(off as int, mid.len() as int) =~= before.subrange(
                    off as int,
                    before.len() as int,
                ));
                assert(out@ =~= self@.base_bytes() + options_bytes(views.take(i as int))
                    + before.subrange(off as int, before.len() as int));
            }
        }
        assert(views.take(n as int) =~= views);
        assert(off == self@.bytes().len());
        self.header_len()
    }

    /// Reads a header with its options.
    pub fn parse(data: &[u8]) -> (r: Option<Self>)
        ensures
            match r {
                Some(header) => geneve_parse(data@) == Some(header@),
                None => geneve_parse(data@) is None,
            },
    {
        if data.len() < GENEVE_BASE_HEADER_LEN {
            return None;
        }
        if data[0] / 64 != GENEVE_VERSION {
            return None;
        }
        let options_len: usize = (data[0] % 64) as usize * 4;
        let total_len: usize = GENEVE_BASE_HEADER_LEN + options_len;
        if data.len() < total_len {
            return None;
        }
        let protocol_type = read_be16(data, 2);
        if protocol_type != GENEVE_INNER_ETYPE_ETH {
            return None;
        }
        let vni: u32 = data[4] as u32 * 0x1_0000 + data[5] as u32 * 0x100 + data[6] as u32;
        let region = slice_of(data, GENEVE_BASE_HEADER_LEN, total_len);
        let mut options: Vec<GeneveTlvOption> = Vec::new();
        let mut off: usize = 0;
        assert(region@.subrange(0, options_len as int) =~= region@);
        proof {
            lemma_prepend_nothing(parse_options(region@));
            assert(option_views(options@) =~= Seq::<GeneveTlvView>::empty());
        }
        while options_len - off >= 4
            invariant
                region@.len() == options_len,
                options_len <= 252,
                off <= options_len,
                parse_options(region@) == prepend(
                    option_views(options@),
                    parse_options(region@.subrange(off as int, options_len as int)),
                ),
                geneve_parse(data@) is Some <==> parse_options(region@) is Some,
            decreases options_len - off,
        {
            let ghost tail = region@.subrange(off as int, options_len as int);
            let data_len: usize = (region[off + 3] % 32) as usize * 4;
            assert(tail[3] == region@[off + 3]);
            if options_len - off < 4 + data_len {
                return None;
            }
            let opt = GeneveTlvOption {
                class: read_be16(region, off),
                option_type: region[off + 2],
                data: copy_bytes(slice_of(region, off + 4, off + 4 + data_len)),
            };
            let ghost acc = option_views(options@);
            proof {
                assert(tail[0] == region@[off as int] && tail[1] == region@[off + 1]);
                assert(tail.subrange(4, 4 + data_len) =~= region@.subrange(
                    off + 4,
                    off + 4 + data_len,
                ));
                let rest = tail.subrange(4 + data_len, tail.len() as int);
                assert(rest =~= region@.subrange(off + 4 + data_len, options_len as int));
                assert(parse_options(tail) == prepend(seq![opt@], parse_options(rest)));
                lemma_prepend_twice(acc, seq![opt@], parse_options(rest));
            }
            options.push(opt);
            assert(option_views(options@) =~= acc + seq![opt@]);
            off = off + 4 + data_len;
        }
        proof {
            let tail = region@.subrange(off as int, options_len as int);
            assert(option_views(options@) + Seq::<GeneveTlvView>::empty() =~= option_views(
                options@,
            ));
        }
        Some(
            GeneveHeader {
                version: GENEVE_VERSION,
                options_len,
                oam: data[1] / 128 == 1,
                critical: (data[1] / 64) % 2 == 1,
                protocol_type,
                vni,
                options,
            },
        )
    }
}

/// Options put before those that a parse gave.
pub open spec fn prepend(front: Seq<GeneveTlvView>, rest: Option<Seq<GeneveTlvView>>) -> Option<
    Seq<GeneveTlvView>,
> {
    match rest {
        Some(rest) => Some(front + rest),
        None => None,
    }
}

proof fn lemma_prepend_nothing(rest: Option<Seq<GeneveTlvView>>)
    ensures
        prepend(Seq::empty(), rest) == rest,
{
    if let Some(r) = rest {
        assert(Seq::<GeneveTlvView>::empty() + r =~= r);
    }
}

proof fn lemma_prepend_twice(
    a: Seq<GeneveTlvView>,
    b: Seq<GeneveTlvView>,
    rest: Option<Seq<GeneveTlvView>>,
)
    ensures
        prepend(a, prepend(b, rest)) == prepend(a + b, rest),
{
    if let Some(r) = rest {
        assert(a + (b + r) =~= a + b + r);
    }
}

/// The bytes of the first options are no longer than those of all.
proof fn lemma_options_prefix(options: Seq<GeneveTlvView>, n: int)
    requires
        0 <= n <= options.len(),
    ensures
        options_bytes(options.take(n)).len() <= options_bytes(options).len(),
    decreases options.len(),
{
    if n == options.len() {
        assert(options.take(n) =~= options);
    } else {
        assert(options.take(n) =~= options.drop_last().take(n));
        lemma_options_prefix(options.drop_last(), n);
    }
}

/// The bytes of a row of options start with those of the first option.
proof fn lemma_options_front(options: Seq<GeneveTlvView>)
    requires
        options.len() > 0,
    ensures
        options_bytes(options) == options[0].bytes() + options_bytes(options.drop_first()),
    decreases options.len(),
{
    reveal_with_fuel(options_bytes, 2);
    if options.len() == 1 {
        assert(options.drop_last().len() == 0);
        assert(options.drop_first().len() == 0);
        assert(options_bytes(options) =~= options[0].bytes());
        assert(options[0].bytes() + options_bytes(options.drop_first()) =~= options[0].bytes());
    } else {
        let init = options.drop_last();
        lemma_options_front(init);
        assert(init.drop_first() =~= options.drop_first().drop_last());
        assert(options.drop_first().last() == options.last());
        assert(options_bytes(options) =~= options[0].bytes() + (options_bytes(
            options.drop_first().drop_last(),
        ) + options.last().bytes()));
    }
}

/// Reading the bytes of encodable options gives the options back.
pub proof fn law_geneve_options_round_trip(options: Seq<GeneveTlvView>)
    requires
        forall|i: int| 0 <= i < options.len() ==> (#[trigger] options[i]).encodable(),
    ensures
        parse_options(options_bytes(options)) == Some(options),
    decreases options.len(),
{
    if options.len() == 0 {
        assert(Seq::<GeneveTlvView>::empty() =~= options);
    } else {
        let first = options[0];
        let tail = options.drop_first();
        lemma_options_front(options);
        assert forall|i: int| 0 <= i < tail.len() implies (#[trigger] tail[i]).encodable() by {
            assert(tail[i] == options[i + 1]);
        }
        law_geneve_options_round_trip(tail);
        let data = options_bytes(options);
        assert(first.encodable());
        let end = 4 + first.data.len() as int;
        bytes::lemma_be16_round_trip(first.class);
        assert(data[0] == bytes::be16_bytes(first.class)[0]);
        assert(data[1] == bytes::be16_bytes(first.class)[1]);
        assert(data[2] == first.option_type);
        assert(data[3] == (first.data.len() / 4) % 32);
        assert(4 + (data[3] % 32) * 4 == end);
        assert(data.subrange(4, end) =~= first.data);
        assert(data.subrange(end, data.len() as int) =~= options_bytes(tail));
        assert(seq![first] + tail =~= options);
    }
}

/// Reading an encoded header gives the header back, whatever follows it.
pub proof fn law_geneve_header_round_trip(header: GeneveHeaderView, rest: Seq<u8>)
    requires
        header.encodable(),
    ensures
        geneve_parse(header.bytes() + rest) == Some(header),
{
    let data = header.bytes() + rest;
    let base = header.base_bytes();
    law_geneve_options_round_trip(header.options);
    lemma_options_len(header.options);
    assert(data.subrange(8, 8 + header.options_len as int) =~= options_bytes(header.options));
    assert(data[0] == base[0] && data[1] == base[1] && data[2] == base[2] && data[3] == base[3]);
    assert(data[4] == base[4] && data[5] == base[5] && data[6] == base[6]);
    assert(data[0] == header.options_len / 4);
    let o: int = if header.oam {
        128
    } else {
        0
    };
    let c: int = if header.critical {
        64
    } else {
        0
    };
    assert(data[1] == o + c);
    assert(data[1] / 128 == o / 128);
    assert((data[1] / 64) % 2 == c / 64);
    let v = header.vni;
    assert(v == (v / 0x1_0000) * 0x1_0000 + ((v / 0x100) % 256) * 0x100 + v % 256);
}

/// Encodable options take a multiple of 4 bytes.
proof fn lemma_options_len(options: Seq<GeneveTlvView>)
    requires
        forall|i: int| 0 <= i < options.len() ==> (#[trigger] options[i]).encodable(),
    ensures
        options_bytes(options).len() % 4 == 0,
    decreases options.len(),
{
    if options.len() > 0 {
        assert(options.last().encodable());
        assert forall|i: int| 0 <= i < options.drop_last().len() implies (
        #[trigger] options.drop_last()[i]).encodable() by {
            assert(options.drop_last()[i] == options[i]);
        }
        lemma_options_len(options.drop_last());
    }
}

// ---------------------------------------------------------------------------
// Building
// ---------------------------------------------------------------------------

/// The GENEVE header as it stands in a frame. Where the options take less room
/// than the header claims for them, the bytes of `room` show through.
pub open spec fn geneve_block(header: GeneveHeaderView, room: Seq<u8>) -> Seq<u8> {
    header.bytes() + room.subrange(header.bytes().len() as int, room.len() as int)
}

/// `s` cut or padded with zeros to hold the bytes from `from` to `to`.
pub open spec fn window(s: Seq<u8>, from: int, to: int) -> Seq<u8> {
    Seq::new(
        (to - from) as nat,
        |i: int|
            if from + i < s.len() {
                s[from + i]
            } else {
                0
            },
    )
}

/// The outer UDP payload: the GENEVE header and the inner Ethernet frame.
pub open spec fn geneve_payload(
    block: Seq<u8>,
    inner_src_mac: Seq<u8>,
    inner_dst_mac: Seq<u8>,
    inner_src_ip: Ipv4Addr,
    inner_dst_ip: Ipv4Addr,
    inner_src_port: u16,
    inner_dst_port: u16,
    payload: Seq<u8>,
) -> Seq<u8> {
    block + udp::udp4_frame(
        inner_src_mac,
        inner_dst_mac,
        inner_src_ip,
        inner_dst_ip,
        inner_src_port,
        inner_dst_port,
        payload,
        GENEVE_INNER_TTL,
    )
}

/// The bytes of `out` from `from` on, `n` of them, zero where it has none.
fn copy_window(out: &Vec<u8>, from: usize, n: usize) -> (r: Vec<u8>)
    requires
        from + n <= usize::MAX,
    ensures
        r@ == window(out@, from as int, from + n),
{
    let mut r: Vec<u8> = Vec::new();
    let mut i: usize = 0;
    while i < n
        invariant
            i <= n,
            from + n <= usize::MAX,
            r@ == window(out@, from as int, from + i),
        decreases n - i,
    {
        if from + i < out.len() {
            r.push(out[from + i]);
        } else {
            r.push(0);
        }
        i = i + 1;
        assert(r@ =~= window(out@, from as int, from + i));
    }
    r
}

/// Builds the outer UDP payload. `off` is where it will stand in `out`.
fn geneve_inner(
    out: &Vec<u8>,
    off: usize,
    geneve_header: &GeneveHeader,
    inner_src_mac: &[u8; 6],
    inner_dst_mac: &[u8; 6],
    inner_src_ip: Ipv4Addr,
    inner_dst_ip: Ipv4Addr,
    inner_src_port: u16,
    inner_dst_port: u16,
    payload: &[u8],
) -> (r: Vec<u8>)
    requires
        off <= 100,
        geneve_header.options_len + payload@.len() <= 0xFFFF,
        options_bytes(geneve_header@.options).len() <= geneve_header.options_len,
    ensures
        r@ == geneve_payload(
            geneve_block(
                geneve_header@,
                window(out@, off as int, off + 8 + geneve_header.options_len),
            ),
            inner_src_mac@,
            inner_dst_mac@,
            inner_src_ip,
            inner_dst_ip,
            inner_src_port,
            inner_dst_port,
            payload@,
        ),
        r@.len() == 50 + geneve_header.options_len + payload@.len(),
{
    let mut inner: Vec<u8> = copy_window(out, off, geneve_header.header_len());
    let ghost room = inner@;
    geneve_header.encode(inner.as_mut_slice());
    assert(inner@ == geneve_block(geneve_header@, room));
    let ghost block = inner@;
    push_eth_header(&mut inner, inner_dst_mac, inner_src_mac, ETH_TYPE_IPV4);
    push_udp4_packet(
        &mut inner,
        inner_src_ip,
        inner_dst_ip,
        inner_src_port,
        inner_dst_port,
        payload,
        GENEVE_INNER_TTL,
    );
    proof {
        udp::lemma_udp4_packet_len(
            inner_src_ip,
            inner_dst_ip,
            inner_src_port,
            inner_dst_port,
            payload@,
            GENEVE_INNER_TTL,
        );
        assert(inner@ =~= geneve_payload(
            block,
            inner_src_mac@,
            inner_dst_mac@,
            inner_src_ip,
            inner_dst_ip,
            inner_src_port,
            inner_dst_port,
            payload@,
        ));
    }
    inner
}

/// Builds a GENEVE frame over IPv4 into `out` and returns its length.
///
/// `ttl` is the outer time to live; the inner one is 64. Where the header claims
/// more room for options than they take, what `out` held there before, or zero,
/// shows through.
pub fn build_geneve_frame_into(
    out: &mut Vec<u8>,
    outer_src_mac: &[u8; 6],
    outer_dst_mac: &[u8; 6],
    outer_src_ip: Ipv4Addr,
    outer_dst_ip: Ipv4Addr,
    outer_src_port: u16,
    outer_dst_port: u16,
    geneve_header: &GeneveHeader,
    inner_src_mac: &[u8; 6],
    inner_dst_mac: &[u8; 6],
    inner_src_ip: Ipv4Addr,
    inner_dst_ip: Ipv4Addr,
    inner_src_port: u16,
    inner_dst_port: u16,
    payload: &[u8],
    ttl: u8,
) -> (r: UdpResult<usize>)
    requires
        geneve_header.options_len + payload@.len() + 78 <= 0xFFFF,
        options_bytes(geneve_header@.options).len() <= geneve_header.options_len,
    ensures
        r == Ok::<usize, UdpError>((92 + geneve_header.options_len + payload@.len()) as usize),
        final(out)@.len() == 92 + geneve_header.options_len + payload@.len(),
        final(out)@ == udp::udp4_frame(
            outer_src_mac@,
            outer_dst_mac@,
            outer_src_ip,
            outer_dst_ip,
            outer_src_port,
            outer_dst_port,
            geneve_payload(
                geneve_block(
                    geneve_header@,
                    window(old(out)@, 42, 50 + geneve_header.options_len),
                ),
                inner_src_mac@,
                inner_dst_mac@,
                inner_src_ip,
                inner_dst_ip,
                inner_src_port,
                inner_dst_port,
                payload@,
            ),
            ttl,
        ),
{
    let inner = geneve_inner(
        out,
        42,
        geneve_header,
        inner_src_mac,
        inner_dst_mac,
        inner_src_ip,
        inner_dst_ip,
        inner_src_port,
        inner_dst_port,
        payload,
    );
    write_udp4_frame(
        out,
        outer_src_mac,
        outer_dst_mac,
        outer_src_ip,
        outer_dst_ip,
        outer_src_port,
        outer_dst_port,
        inner.as_slice(),
        ttl,
    );
    Ok(out.len())
}

/// Builds a GENEVE frame over IPv6 into `out` and returns its length.
///
/// `hop_limit` is the outer one; the inner time to live is 64. Unused room for
/// options shows what `out` held there before, or zero.
pub fn build_geneve_frame_into_v6(
    out: &mut Vec<u8>,
    outer_src_mac: &[u8; 6],
    outer_dst_mac: &[u8; 6],
    outer_src_ip: Ipv6Addr,
    outer_dst_ip: Ipv6Addr,
    outer_src_port: u16,
    outer_dst_port: u16,
    geneve_header: &GeneveHeader,
    inner_src_mac: &[u8; 6],
    inner_dst_mac: &[u8; 6],
    inner_src_ip: Ipv4Addr,
    inner_dst_ip: Ipv4Addr,
    inner_src_port: u16,
    inner_dst_port: u16,
    payload: &[u8],
    hop_limit: u8,
) -> (r: UdpResult<usize>)
    requires
        geneve_header.options_len + payload@.len() + 58 <= 0xFFFF,
        options_bytes(geneve_header@.options).len() <= geneve_header.options_len,
    ensures
        r == Ok::<usize, UdpError>((112 + geneve_header.options_len + payload@.len()) as usize),
        final(out)@.len() == 112 + geneve_header.options_len + payload@.len(),
        final(out)@ == ipv6::udp6_frame(
            outer_src_mac@,
            outer_dst_mac@,
            outer_src_ip,
            outer_dst_ip,
            outer_src_port,
            outer_dst_port,
            geneve_payload(
                geneve_block(
                    geneve_header@,
                    window(old(out)@, 62, 70 + geneve_header.options_len),
                ),
                inner_src_mac@,
                inner_dst_mac@,
                inner_src_ip,
                inner_dst_ip,
                inner_src_port,
                inner_dst_port,
                payload@,
            ),
            hop_limit,
        ),
{
    let inner = geneve_inner(
        out,
        62,
        geneve_header,
        inner_src_mac,
        inner_dst_mac,
        inner_src_ip,
        inner_dst_ip,
        inner_src_port,
        inner_dst_port,
        payload,
    );
    write_udp6_frame(
        out,
        outer_src_mac,
        outer_dst_mac,
        outer_src_ip,
        outer_dst_ip,
        outer_src_port,
        outer_dst_port,
        inner.as_slice(),
        hop_limit,
    );
    Ok(out.len())
}

// ---------------------------------------------------------------------------
// Decapsulation
// ---------------------------------------------------------------------------

/// What a GENEVE frame over IPv4 carried.
#[derive(Debug)]
pub struct GeneveDecapResult<'a> {
    pub inner_src_ip: Ipv4Addr,
    pub inner_dst_ip: Ipv4Addr,
    pub inner_src_port: u16,
    pub inner_dst_port: u16,
    pub payload: &'a [u8],
    /// Address of the remote endpoint.
    pub outer_src_ip: Ipv4Addr,
    pub geneve_header: GeneveHeader,
    pub inner_src_mac: [u8; 6],
    pub inner_dst_mac: [u8; 6],
}

/// What a GENEVE frame over IPv6 carried.
#[derive(Debug)]
pub struct GeneveDecapResult6<'a> {
    pub inner_src_ip: Ipv4Addr,
    pub inner_dst_ip: Ipv4Addr,
    pub inner_src_port: u16,
    pub inner_dst_port: u16,
    pub payload: &'a [u8],
    /// Address of the remote endpoint.
    pub outer_src_ip: Ipv6Addr,
    pub geneve_header: GeneveHeader,
    pub inner_src_mac: [u8; 6],
    pub inner_dst_mac: [u8; 6],
}

/// The GENEVE header behind the UDP header at `start`.
pub open spec fn geneve_behind(frame: Seq<u8>, start: int) -> Option<GeneveHeaderView> {
    geneve_parse(frame.subrange(start + UDP_HEADER_LEN, frame.len() as int))
}

/// The offset of the inner Ethernet frame of the GENEVE packet whose outer UDP
/// header is at `start`, if its network identifier is the expected one (any, if
/// none is expected) and the inner frame holds a whole UDP datagram over IPv4.
pub open spec fn geneve_inner_start(frame: Seq<u8>, start: int, expected_vni: Option<u32>) -> Option<
    int,
> {
    match geneve_behind(frame, start) {
        Some(header) => {
            let eth = start + UDP_HEADER_LEN + GENEVE_BASE_HEADER_LEN + header.options_len;
            if (expected_vni is None || expected_vni == Some(header.vni)) && eth + ETH_HEADER_LEN
                <= frame.len() && bytes::be16_at(frame, eth + 12) == ETH_TYPE_IPV4
                && udp::is_udp4_at(frame, eth + ETH_HEADER_LEN) {
                Some(eth)
            } else {
                None
            }
        },
        None => None,
    }
}

/// Where the inner frame of a GENEVE frame over IPv4 starts.
pub open spec fn geneve4_inner(frame: Seq<u8>, l3: int, port: u16, expected_vni: Option<u32>) -> Option<
    int,
> {
    match tunnel::outer_udp4(frame, l3, port) {
        Some(start) => geneve_inner_start(frame, start, expected_vni),
        None => None,
    }
}

/// Where the inner frame of a GENEVE frame over IPv6 starts.
pub open spec fn geneve6_inner(frame: Seq<u8>, l3: int, port: u16, expected_vni: Option<u32>) -> Option<
    int,
> {
    match tunnel::outer_udp6(frame, l3, port) {
        Some(start) => geneve_inner_start(frame, start, expected_vni),
        None => None,
    }
}

/// The inner fields of the GENEVE packet whose inner Ethernet frame is at `eth`.
pub open spec fn geneve_fields_at(
    frame: Seq<u8>,
    eth: int,
    inner_src_mac: Seq<u8>,
    inner_dst_mac: Seq<u8>,
    inner_src_ip: Ipv4Addr,
    inner_dst_ip: Ipv4Addr,
    inner_src_port: u16,
    inner_dst_port: u16,
    payload: Seq<u8>,
) -> bool {
    &&& inner_dst_mac == frame.subrange(eth, eth + 6)
    &&& inner_src_mac == frame.subrange(eth + 6, eth + 12)
    &&& udp::udp4_fields_at(
        frame,
        eth + ETH_HEADER_LEN,
        inner_src_ip,
        inner_dst_ip,
        inner_src_port,
        inner_dst_port,
        payload,
    )
}

impl<'a> GeneveDecapResult<'a> {
    /// Whether this is what the GENEVE frame over IPv4 says.
    pub open spec fn describes(
        self,
        frame: Seq<u8>,
        l3: int,
        port: u16,
        expected_vni: Option<u32>,
    ) -> bool {
        &&& geneve_fields_at(
            frame,
            geneve4_inner(frame, l3, port, expected_vni)->Some_0,
            self.inner_src_mac@,
            self.inner_dst_mac@,
            self.inner_src_ip,
            self.inner_dst_ip,
            self.inner_src_port,
            self.inner_dst_port,
            self.payload@,
        )
        &&& self.outer_src_ip == addr::ipv4_at(frame, l3 + 12)
        &&& geneve_behind(frame, tunnel::outer_udp4(frame, l3, port)->Some_0) == Some(
            self.geneve_header@,
        )
    }
}

impl<'a> GeneveDecapResult6<'a> {
    /// Whether this is what the GENEVE frame over IPv6 says.
    pub open spec fn describes(
        self,
        frame: Seq<u8>,
        l3: int,
        port: u16,
        expected_vni: Option<u32>,
    ) -> bool {
        &&& geneve_fields_at(
            frame,
            geneve6_inner(frame, l3, port, expected_vni)->Some_0,
            self.inner_src_mac@,
            self.inner_dst_mac@,
            self.inner_src_ip,
            self.inner_dst_ip,
            self.inner_src_port,
            self.inner_dst_port,
            self.payload@,
        )
        &&& self.outer_src_ip == addr::ipv6_at(frame, l3 + 8)
        &&& geneve_behind(frame, tunnel::outer_udp6(frame, l3, port)->Some_0) == Some(
            self.geneve_header@,
        )
    }
}

/// The header and inner datagram of a GENEVE packet.
struct GeneveInner<'a> {
    header: GeneveHeader,
    src_mac: [u8; 6],
    dst_mac: [u8; 6],
    datagram: udp::Udp4Ref<'a>,
}

/// Reads the GENEVE packet whose outer UDP header is at `start`.
fn decap_at(frame: &[u8], start: usize, expected_vni: Option<u32>) -> (r: Option<GeneveInner<'_>>)
    requires
        start + UDP_HEADER_LEN <= frame@.len(),
    ensures
        r is Some <==> geneve_inner_start(frame@, start as int, expected_vni) is Some,
        r matches Some(p) ==> {
            &&& geneve_behind(frame@, start as int) == Some(p.header@)
            &&& geneve_fields_at(
                frame@,
                geneve_inner_start(frame@, start as int, expected_vni)->Some_0,
                p.src_mac@,
                p.dst_mac@,
                p.datagram.src_ip,
                p.datagram.dst_ip,
                p.datagram.src_port,
                p.datagram.dst_port,
                p.datagram.payload@,
            )
        },
{
    assert(start + UDP_HEADER_LEN <= frame.len());
    let geneve_off: usize = start + UDP_HEADER_LEN;
    let header = match GeneveHeader::parse(slice_of(frame, geneve_off, frame.len())) {
        Some(header) => header,
        None => return None,
    };
    if let Some(expected) = expected_vni {
        if header.vni != expected {
            return None;
        }
    }
    let eth: usize = geneve_off + header.header_len();
    if frame.len() - eth < ETH_HEADER_LEN {
        return None;
    }
    if read_be16(frame, eth + 12) != ETH_TYPE_IPV4 {
        return None;
    }
    match parse_udp4_at(frame, eth + ETH_HEADER_LEN) {
        Some(datagram) => Some(
            GeneveInner {
                header,
                src_mac: read_mac(frame, eth + 6),
                dst_mac: read_mac(frame, eth),
                datagram,
            },
        ),
        None => None,
    }
}

/// Decapsulates a GENEVE frame whose outer IPv4 header is at `l3_offset` and whose
/// outer UDP destination is `geneve_local_port`. With `expected_vni` given, other
/// networks are refused.
pub fn try_decap_geneve<'a>(
    frame: &'a [u8],
    l3_offset: usize,
    geneve_local_port: u16,
    expected_vni: Option<u32>,
) -> (r: Option<GeneveDecapResult<'a>>)
    requires
        l3_offset + IPV4_HEADER_LEN <= usize::MAX,
    ensures
        r is Some <==> geneve4_inner(
            frame@,
            l3_offset as int,
            geneve_local_port,
            expected_vni,
        ) is Some,
        r matches Some(p) ==> p.describes(
            frame@,
            l3_offset as int,
            geneve_local_port,
            expected_vni,
        ),
{
    let start: usize = match find_outer_udp4(frame, l3_offset, geneve_local_port) {
        Some(start) => start,
        None => return None,
    };
    match decap_at(frame, start, expected_vni) {
        Some(p) => Some(
            GeneveDecapResult {
                inner_src_ip: p.datagram.src_ip,
                inner_dst_ip: p.datagram.dst_ip,
                inner_src_port: p.datagram.src_port,
                inner_dst_port: p.datagram.dst_port,
                payload: p.datagram.payload,
                outer_src_ip: read_ipv4(frame, l3_offset + 12),
                geneve_header: p.header,
                inner_src_mac: p.src_mac,
                inner_dst_mac: p.dst_mac,
            },
        ),
        None => None,
    }
}

/// Decapsulates a GENEVE frame whose outer IPv6 header is at `l3_offset` and whose
/// outer UDP destination is `geneve_local_port`. With `expected_vni` given, other
/// networks are refused.
pub fn try_decap_geneve_v6<'a>(
    frame: &'a [u8],
    l3_offset: usize,
    geneve_local_port: u16,
    expected_vni: Option<u32>,
) -> (r: Option<GeneveDecapResult6<'a>>)
    requires
        l3_offset + IPV6_HEADER_LEN <= usize::MAX,
    ensures
        r is Some <==> geneve6_inner(
            frame@,
            l3_offset as int,
            geneve_local_port,
            expected_vni,
        ) is Some,
        r matches Some(p) ==> p.describes(
            frame@,
            l3_offset as int,
            geneve_local_port,
            expected_vni,
        ),
{
    let start: usize = match find_outer_udp6(frame, l3_offset, geneve_local_port) {
        Some(start) => start,
        None => return None,
    };
    match decap_at(frame, start, expected_vni) {
        Some(p) => Some(
            GeneveDecapResult6 {
                inner_src_ip: p.datagram.src_ip,
                inner_dst_ip: p.datagram.dst_ip,
                inner_src_port: p.datagram.src_port,
                inner_dst_port: p.datagram.dst_port,
                payload: p.datagram.payload,
                outer_src_ip: read_ipv6(frame, l3_offset + 8),
                geneve_header: p.header,
                inner_src_mac: p.src_mac,
                inner_dst_mac: p.dst_mac,
            },
        ),
        None => None,
    }
}

// ---------------------------------------------------------------------------
// Laws
// ---------------------------------------------------------------------------

/// Options that fill the room claimed for them leave nothing of what stood there.
pub proof fn law_geneve_block_exact(header: GeneveHeaderView, room: Seq<u8>)
    requires
        header.encodable(),
        room.len() == GENEVE_BASE_HEADER_LEN + header.options_len,
    ensures
        geneve_block(header, room) == header.bytes(),
{
    assert(geneve_block(header, room) =~= header.bytes());
}

/// A header is read back behind any headers and before any inner frame.
proof fn lemma_geneve_header_behind(
    pre: Seq<u8>,
    start: int,
    header: GeneveHeaderView,
    inner: Seq<u8>,
)
    requires
        start + 8 == pre.len(),
        header.encodable(),
    ensures
        geneve_behind(pre + (header.bytes() + inner), start) == Some(header),
        pre + (header.bytes() + inner) == (pre + header.bytes()) + inner,
        (pre + header.bytes()).len() == start + 16 + header.options_len,
{
    let frame = pre + (header.bytes() + inner);
    law_geneve_header_round_trip(header, inner);
    assert(frame.subrange(start + 8, frame.len() as int) =~= header.bytes() + inner);
    assert(frame =~= (pre + header.bytes()) + inner);
}

/// An inner Ethernet frame is read back behind any headers.
proof fn lemma_inner_eth_at(
    pre: Seq<u8>,
    src_mac: Seq<u8>,
    dst_mac: Seq<u8>,
    src_ip: Ipv4Addr,
    dst_ip: Ipv4Addr,
    src_port: u16,
    dst_port: u16,
    payload: Seq<u8>,
    ttl: u8,
)
    requires
        src_mac.len() == 6,
        dst_mac.len() == 6,
        payload.len() + 8 <= 0xFFFF,
    ensures
        ({
            let frame = pre + udp::udp4_frame(
                src_mac,
                dst_mac,
                src_ip,
                dst_ip,
                src_port,
                dst_port,
                payload,
                ttl,
            );
            let eth = pre.len() as int;
            &&& eth + 14 <= frame.len()
            &&& bytes::be16_at(frame, eth + 12) == ETH_TYPE_IPV4
            &&& udp::is_udp4_at(frame, eth + 14)
            &&& geneve_fields_at(
                frame,
                eth,
                src_mac,
                dst_mac,
                src_ip,
                dst_ip,
                src_port,
                dst_port,
                payload,
            )
        }),
{
    let head = udp::eth_header(dst_mac, src_mac, ETH_TYPE_IPV4);
    let packet = udp::udp4_packet(src_ip, dst_ip, src_port, dst_port, payload, ttl);
    let frame = pre + (head + packet);
    let eth = pre.len() as int;
    assert(head.len() == 14);
    assert(frame =~= (pre + head) + packet);
    bytes::lemma_be16_round_trip(ETH_TYPE_IPV4);
    assert(frame[eth + 12] == bytes::be16_bytes(ETH_TYPE_IPV4)[0]);
    assert(frame[eth + 13] == bytes::be16_bytes(ETH_TYPE_IPV4)[1]);
    assert(frame.subrange(eth, eth + 6) =~= dst_mac);
    assert(frame.subrange(eth + 6, eth + 12) =~= src_mac);
    udp::lemma_udp4_packet_at(pre + head, src_ip, dst_ip, src_port, dst_port, payload, ttl);
}

/// The inner frame of a GENEVE payload is found behind any headers.
proof fn lemma_geneve_inner(
    pre: Seq<u8>,
    start: int,
    header: GeneveHeaderView,
    inner_src_mac: Seq<u8>,
    inner_dst_mac: Seq<u8>,
    inner_src_ip: Ipv4Addr,
    inner_dst_ip: Ipv4Addr,
    inner_src_port: u16,
    inner_dst_port: u16,
    payload: Seq<u8>,
)
    requires
        start + 8 == pre.len(),
        header.encodable(),
        inner_src_mac.len() == 6,
        inner_dst_mac.len() == 6,
        payload.len() + 8 <= 0xFFFF,
    ensures
        ({
            let frame = pre + geneve_payload(
                header.bytes(),
                inner_src_mac,
                inner_dst_mac,
                inner_src_ip,
                inner_dst_ip,
                inner_src_port,
                inner_dst_port,
                payload,
            );
            let eth = start + 16 + header.options_len;
            &&& geneve_behind(frame, start) == Some(header)
            &&& forall|vni: Option<u32>| #[trigger]
                geneve_inner_start(frame, start, vni) == (if vni is None || vni == Some(
                    header.vni,
                ) {
                    Some(eth)
                } else {
                    None
                })
            &&& geneve_fields_at(
                frame,
                eth,
                inner_src_mac,
                inner_dst_mac,
                inner_src_ip,
                inner_dst_ip,
                inner_src_port,
                inner_dst_port,
                payload,
            )
        }),
{
    let inner = udp::udp4_frame(
        inner_src_mac,
        inner_dst_mac,
        inner_src_ip,
        inner_dst_ip,
        inner_src_port,
        inner_dst_port,
        payload,
        GENEVE_INNER_TTL,
    );
    lemma_geneve_header_behind(pre, start, header, inner);
    lemma_inner_eth_at(
        pre + header.bytes(),
        inner_src_mac,
        inner_dst_mac,
        inner_src_ip,
        inner_dst_ip,
        inner_src_port,
        inner_dst_port,
        payload,
        GENEVE_INNER_TTL,
    );
}

proof fn lemma_geneve_payload_len(
    header: GeneveHeaderView,
    inner_src_mac: Seq<u8>,
    inner_dst_mac: Seq<u8>,
    inner_src_ip: Ipv4Addr,
    inner_dst_ip: Ipv4Addr,
    inner_src_port: u16,
    inner_dst_port: u16,
    payload: Seq<u8>,
)
    requires
        header.encodable(),
        inner_src_mac.len() == 6,
        inner_dst_mac.len() == 6,
    ensures
        geneve_payload(
            header.bytes(),
            inner_src_mac,
            inner_dst_mac,
            inner_src_ip,
            inner_dst_ip,
            inner_src_port,
            inner_dst_port,
            payload,
        ).len() == 50 + header.options_len + payload.len(),
{
    udp::lemma_udp4_packet_len(
        inner_src_ip,
        inner_dst_ip,
        inner_src_port,
        inner_dst_port,
        payload,
        GENEVE_INNER_TTL,
    );
}

/// Decapsulating a built GENEVE frame over IPv4 gives back what it was built from,
/// on its destination port and for its network or any; on another port or for
/// another network it is refused. The outer checksums verify.
#[verifier::rlimit(50)]
pub proof fn law_geneve_round_trip(
    outer_src_mac: [u8; 6],
    outer_dst_mac: [u8; 6],
    outer_src_ip: Ipv4Addr,
    outer_dst_ip: Ipv4Addr,
    outer_src_port: u16,
    outer_dst_port: u16,
    header: GeneveHeaderView,
    inner_src_mac: [u8; 6],
    inner_dst_mac: [u8; 6],
    inner_src_ip: Ipv4Addr,
    inner_dst_ip: Ipv4Addr,
    inner_src_port: u16,
    inner_dst_port: u16,
    payload: Seq<u8>,
    ttl: u8,
)
    requires
        header.encodable(),
        header.options_len + payload.len() + 78 <= 0xFFFF,
    ensures
        ({
            let frame = udp::udp4_frame(
                outer_src_mac@,
                outer_dst_mac@,
                outer_src_ip,
                outer_dst_ip,
                outer_src_port,
                outer_dst_port,
                geneve_payload(
                    header.bytes(),
                    inner_src_mac@,
                    inner_dst_mac@,
                    inner_src_ip,
                    inner_dst_ip,
                    inner_src_port,
                    inner_dst_port,
                    payload,
                ),
                ttl,
            );
            let l3 = ETH_HEADER_LEN as int;
            &&& udp::ipv4_cksum_valid(frame)
            &&& udp::udp_cksum_valid(frame)
            &&& forall|port: u16, vni: Option<u32>| #[trigger]
                geneve4_inner(frame, l3, port, vni) is Some <==> port == outer_dst_port && (vni is None
                    || vni == Some(header.vni))
            &&& forall|p: GeneveDecapResult, vni: Option<u32>|
                (vni is None || vni == Some(header.vni)) ==> (#[trigger] p.describes(
                    frame,
                    l3,
                    outer_dst_port,
                    vni,
                ) <==> {
                    &&& p.inner_src_mac@ == inner_src_mac@
                    &&& p.inner_dst_mac@ == inner_dst_mac@
                    &&& p.inner_src_ip == inner_src_ip
                    &&& p.inner_dst_ip == inner_dst_ip
                    &&& p.inner_src_port == inner_src_port
                    &&& p.inner_dst_port == inner_dst_port
                    &&& p.payload@ == payload
                    &&& p.outer_src_ip == outer_src_ip
                    &&& p.geneve_header@ == header
                })
        }),
{
    let data = geneve_payload(
        header.bytes(),
        inner_src_mac@,
        inner_dst_mac@,
        inner_src_ip,
        inner_dst_ip,
        inner_src_port,
        inner_dst_port,
        payload,
    );
    let frame = udp::udp4_frame(
        outer_src_mac@,
        outer_dst_mac@,
        outer_src_ip,
        outer_dst_ip,
        outer_src_port,
        outer_dst_port,
        data,
        ttl,
    );
    lemma_geneve_payload_len(
        header,
        inner_src_mac@,
        inner_dst_mac@,
        inner_src_ip,
        inner_dst_ip,
        inner_src_port,
        inner_dst_port,
        payload,
    );
    tunnel::lemma_outer4(
        outer_src_mac,
        outer_dst_mac,
        outer_src_ip,
        outer_dst_ip,
        outer_src_port,
        outer_dst_port,
        data,
        ttl,
    );
    let pre = frame.subrange(0, 42);
    lemma_geneve_inner(
        pre,
        34,
        header,
        inner_src_mac@,
        inner_dst_mac@,
        inner_src_ip,
        inner_dst_ip,
        inner_src_port,
        inner_dst_port,
        payload,
    );
}

/// Decapsulating a built GENEVE frame over IPv6 gives back what it was built from,
/// on its destination port and for its network or any; on another port or for
/// another network it is refused. The outer UDP checksum verifies.
#[verifier::rlimit(50)]
pub proof fn law_geneve6_round_trip(
    outer_src_mac: [u8; 6],
    outer_dst_mac: [u8; 6],
    outer_src_ip: Ipv6Addr,
    outer_dst_ip: Ipv6Addr,
    outer_src_port: u16,
    outer_dst_port: u16,
    header: GeneveHeaderView,
    inner_src_mac: [u8; 6],
    inner_dst_mac: [u8; 6],
    inner_src_ip: Ipv4Addr,
    inner_dst_ip: Ipv4Addr,
    inner_src_port: u16,
    inner_dst_port: u16,
    payload: Seq<u8>,
    hop_limit: u8,
)
    requires
        header.encodable(),
        header.options_len + payload.len() + 58 <= 0xFFFF,
    ensures
        ({
            let frame = ipv6::udp6_frame(
                outer_src_mac@,
                outer_dst_mac@,
                outer_src_ip,
                outer_dst_ip,
                outer_src_port,
                outer_dst_port,
                geneve_payload(
                    header.bytes(),
                    inner_src_mac@,
                    inner_dst_mac@,
                    inner_src_ip,
                    inner_dst_ip,
                    inner_src_port,
                    inner_dst_port,
                    payload,
                ),
                hop_limit,
            );
            let l3 = ETH_HEADER_LEN as int;
            &&& ipv6::udp6_cksum_valid(frame)
            &&& forall|port: u16, vni: Option<u32>| #[trigger]
                geneve6_inner(frame, l3, port, vni) is Some <==> port == outer_dst_port && (vni is None
                    || vni == Some(header.vni))
            &&& forall|p: GeneveDecapResult6, vni: Option<u32>|
                (vni is None || vni == Some(header.vni)) ==> (#[trigger] p.describes(
                    frame,
                    l3,
                    outer_dst_port,
                    vni,
                ) <==> {
                    &&& p.inner_src_mac@ == inner_src_mac@
                    &&& p.inner_dst_mac@ == inner_dst_mac@
                    &&& p.inner_src_ip == inner_src_ip
                    &&& p.inner_dst_ip == inner_dst_ip
                    &&& p.inner_src_port == inner_src_port
                    &&& p.inner_dst_port == inner_dst_port
                    &&& p.payload@ == payload
                    &&& p.outer_src_ip == outer_src_ip
                    &&& p.geneve_header@ == header
                })
        }),
{
    let data = geneve_payload(
        header.bytes(),
        inner_src_mac@,
        inner_dst_mac@,
        inner_src_ip,
        inner_dst_ip,
        inner_src_port,
        inner_dst_port,
        payload,
    );
    let frame = ipv6::udp6_frame(
        outer_src_mac@,
        outer_dst_mac@,
        outer_src_ip,
        outer_dst_ip,
        outer_src_port,
        outer_dst_port,
        data,
        hop_limit,
    );
    lemma_geneve_payload_len(
        header,
        inner_src_mac@,
        inner_dst_mac@,
        inner_src_ip,
        inner_dst_ip,
        inner_src_port,
        inner_dst_port,
        payload,
    );
    tunnel::lemma_outer6(
        outer_src_mac,
        outer_dst_mac,
        outer_src_ip,
        outer_dst_ip,
        outer_src_port,
        outer_dst_port,
        data,
        hop_limit,
    );
    let pre = frame.subrange(0, 62);
    lemma_geneve_inner(
        pre,
        54,
        header,
        inner_src_mac@,
        inner_dst_mac@,
        inner_src_ip,
        inner_dst_ip,
        inner_src_port,
        inner_dst_port,
        payload,
    );
}

} // verus!
