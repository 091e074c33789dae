//! ICMP: echo requests and replies, and error messages about UDP datagrams.
//!
//! An error message carries the IP header and the first 8 bytes of the datagram
//! that caused it. For UDP those bytes hold the ports, by which the error is
//! matched to a socket.

use vstd::prelude::*;
use vstd::string::StringExecFns;

use crate::addr;
use crate::addr::{read_ipv4, Ipv4Addr};
use crate::bytes;
use crate::bytes::{
    copy_bytes, high_nibble, low_nibble, push_be16, push_bytes, read_be16, read_mac, slice_of,
    truncate16,
};
use crate::checksum;
use crate::checksum::{checksum_add, fold_complement};
use crate::constants::{ETH_TYPE_IPV4, IPV4_HEADER_LEN, IP_PROTO_UDP};
use crate::error::{ErrorKind, IoError};
use crate::text;
use crate::text::{append_decimal16, append_decimal8, append_ipv4};
use crate::udp;
use crate::udp::{push_eth_header, push_ipv4_header};
use crate::vlan;
use crate::vlan::detect_vlan;

verus! {

/// IP protocol number of ICMP.
pub const IP_PROTO_ICMP: u8 = 1;

pub const ICMP_TYPE_ECHO_REPLY: u8 = 0;

pub const ICMP_TYPE_DEST_UNREACHABLE: u8 = 3;

pub const ICMP_TYPE_REDIRECT: u8 = 5;

pub const ICMP_TYPE_ECHO_REQUEST: u8 = 8;

pub const ICMP_TYPE_TIME_EXCEEDED: u8 = 11;

pub const ICMP_TYPE_PARAMETER_PROBLEM: u8 = 12;

/// Code of echo messages.
pub const ICMP_CODE_ECHO: u8 = 0;

pub const ICMP_CODE_NET_UNREACHABLE: u8 = 0;

pub const ICMP_CODE_HOST_UNREACHABLE: u8 = 1;

pub const ICMP_CODE_PROTO_UNREACHABLE: u8 = 2;

pub const ICMP_CODE_PORT_UNREACHABLE: u8 = 3;

/// Fragmentation needed; the message carries the next-hop MTU.
pub const ICMP_CODE_FRAG_NEEDED: u8 = 4;

pub const ICMP_CODE_SOURCE_ROUTE_FAILED: u8 = 5;

pub const ICMP_CODE_ADMIN_PROHIBITED: u8 = 13;

pub const ICMP_CODE_TTL_EXCEEDED: u8 = 0;

pub const ICMP_CODE_FRAG_REASSEMBLY_EXCEEDED: u8 = 1;

/// ICMP header size.
pub const ICMP_HEADER_LEN: usize = 8;

/// Smallest ICMP echo frame.
pub const MIN_ICMP_PACKET_LEN: usize = 42;

/// What an error message must carry of the original datagram.
pub const MIN_ICMP_ERROR_PAYLOAD: usize = 28;

/// Smallest error message: its header and what it must carry.
pub const ICMP_ERROR_LEN: usize = 36;

// ---------------------------------------------------------------------------
// Packets
// ---------------------------------------------------------------------------

/// A parsed ICMP packet.
#[derive(Debug, Clone)]
pub struct IcmpPacket {
    pub src_mac: [u8; 6],
    pub dst_mac: [u8; 6],
    pub src_ip: Ipv4Addr,
    pub dst_ip: Ipv4Addr,
    pub ttl: u8,
    pub icmp_type: u8,
    pub icmp_code: u8,
    pub checksum: u16,
    pub identifier: u16,
    pub sequence: u16,
    pub payload: Vec<u8>,
}

/// What an ICMP packet says.
pub struct IcmpView {
    pub src_mac: Seq<u8>,
    pub dst_mac: Seq<u8>,
    pub src_ip: Ipv4Addr,
    pub dst_ip: Ipv4Addr,
    pub ttl: u8,
    pub icmp_type: u8,
    pub icmp_code: u8,
    pub checksum: u16,
    pub identifier: u16,
    pub sequence: u16,
    pub payload: Seq<u8>,
}

impl View for IcmpPacket {
    type V = IcmpView;

    open spec fn view(&self) -> IcmpView {
        IcmpView {
            src_mac: self.src_mac@,
            dst_mac: self.dst_mac@,
            src_ip: self.src_ip,
            dst_ip: self.dst_ip,
            ttl: self.ttl,
            icmp_type: self.icmp_type,
            icmp_code: self.icmp_code,
            checksum: self.checksum,
            identifier: self.identifier,
            sequence: self.sequence,
            payload: self.payload@,
        }
    }
}

/// Whether `icmp_type` is an error type.
pub open spec fn is_error_type(icmp_type: u8) -> bool {
    icmp_type == ICMP_TYPE_DEST_UNREACHABLE || icmp_type == ICMP_TYPE_TIME_EXCEEDED || icmp_type
        == ICMP_TYPE_REDIRECT || icmp_type == ICMP_TYPE_PARAMETER_PROBLEM
}

impl IcmpView {
    pub open spec fn echo_request(self) -> bool {
        self.icmp_type == ICMP_TYPE_ECHO_REQUEST && self.icmp_code == ICMP_CODE_ECHO
    }

    pub open spec fn echo_reply(self) -> bool {
        self.icmp_type == ICMP_TYPE_ECHO_REPLY && self.icmp_code == ICMP_CODE_ECHO
    }

    /// The reply to this echo request, sent from `mac`: addresses swapped,
    /// identifier, sequence number and payload kept.
    pub open spec fn reply_from(self, mac: Seq<u8>) -> IcmpView {
        IcmpView {
            src_mac: mac,
            dst_mac: self.src_mac,
            src_ip: self.dst_ip,
            dst_ip: self.src_ip,
            ttl: 64,
            icmp_type: ICMP_TYPE_ECHO_REPLY,
            icmp_code: ICMP_CODE_ECHO,
            checksum: 0,
            identifier: self.identifier,
            sequence: self.sequence,
            payload: self.payload,
        }
    }
}

impl IcmpPacket {
    /// Whether this is an echo request.
    pub fn is_echo_request(&self) -> (r: bool)
        ensures
            r == self@.echo_request(),
    {
        self.icmp_type == ICMP_TYPE_ECHO_REQUEST && self.icmp_code == ICMP_CODE_ECHO
    }

    /// Whether this is an echo reply.
    pub fn is_echo_reply(&self) -> (r: bool)
        ensures
            r == self@.echo_reply(),
    {
        self.icmp_type == ICMP_TYPE_ECHO_REPLY && self.icmp_code == ICMP_CODE_ECHO
    }

    /// Whether this is an error message.
    pub fn is_error(&self) -> (r: bool)
        ensures
            r == is_error_type(self.icmp_type),
    {
        is_icmp_error_type(self.icmp_type)
    }

    /// The reply to this echo request, sent from `reply_src_mac`.
    pub fn make_echo_reply(&self, reply_src_mac: [u8; 6]) -> (r: Option<IcmpPacket>)
        ensures
            match r {
                Some(reply) => self@.echo_request() && reply@ == self@.reply_from(reply_src_mac@),
                None => !self@.echo_request(),
            },
    {
        if !self.is_echo_request() {
            return None;
        }
        Some(
            IcmpPacket {
                src_mac: reply_src_mac,
                dst_mac: self.src_mac,
                src_ip: self.dst_ip,
                dst_ip: self.src_ip,
                ttl: 64,
                icmp_type: ICMP_TYPE_ECHO_REPLY,
                icmp_code: ICMP_CODE_ECHO,
                checksum: 0,
                identifier: self.identifier,
                sequence: self.sequence,
                payload: copy_bytes(self.payload.as_slice()),
            },
        )
    }
}

fn is_icmp_error_type(icmp_type: u8) -> (r: bool)
    ensures
        r == is_error_type(icmp_type),
{
    icmp_type == ICMP_TYPE_DEST_UNREACHABLE || icmp_type == ICMP_TYPE_TIME_EXCEEDED || icmp_type
        == ICMP_TYPE_REDIRECT || icmp_type == ICMP_TYPE_PARAMETER_PROBLEM
}

// ---------------------------------------------------------------------------
// Building
// ---------------------------------------------------------------------------

/// An ICMP echo message with the given checksum field.
pub open spec fn icmp_message_with(
    icmp_type: u8,
    icmp_code: u8,
    cksum: u16,
    identifier: u16,
    sequence: u16,
    payload: Seq<u8>,
) -> Seq<u8> {
    seq![icmp_type, icmp_code] + bytes::be16_bytes(cksum) + (bytes::be16_bytes(identifier)
        + bytes::be16_bytes(sequence) + payload)
}

/// The checksum of an ICMP message.
pub open spec fn icmp_cksum(message: Seq<u8>) -> u16 {
    checksum::complement(checksum::word_sum(message))
}

/// The checksum that the packet is sent with.
pub open spec fn sent_cksum(v: IcmpView) -> u16 {
    icmp_cksum(
        icmp_message_with(v.icmp_type, v.icmp_code, 0, v.identifier, v.sequence, v.payload),
    )
}

/// The ICMP message of a packet, with its checksum.
pub open spec fn icmp_message(v: IcmpView) -> Seq<u8> {
    icmp_message_with(
        v.icmp_type,
        v.icmp_code,
        sent_cksum(v),
        v.identifier,
        v.sequence,
        v.payload,
    )
}

/// The length field of the IPv4 header of a packet.
pub open spec fn total_len_of(v: IcmpView) -> u16 {
    bytes::low16(IPV4_HEADER_LEN + ICMP_HEADER_LEN + v.payload.len())
}

/// The Ethernet frame that carries the packet. The checksum field of the packet
/// itself is not used.
pub open spec fn icmp_frame(v: IcmpView) -> Seq<u8> {
    udp::eth_header(v.dst_mac, v.src_mac, ETH_TYPE_IPV4) + (udp::ipv4_header(
        total_len_of(v),
        udp::dont_fragment(),
        v.ttl,
        IP_PROTO_ICMP,
        v.src_ip,
        v.dst_ip,
    ) + icmp_message(v))
}

/// The checksum of an ICMP message.
pub fn icmp_checksum(icmp_header_and_data: &[u8]) -> (r: u16)
    ensures
        r == icmp_cksum(icmp_header_and_data@),
{
    let mut sum: u32 = 0;
    checksum_add(&mut sum, icmp_header_and_data);
    fold_complement(sum)
}

/// Appends an ICMP echo message with the given checksum field.
fn push_icmp_message_with(
    out: &mut Vec<u8>,
    icmp_type: u8,
    icmp_code: u8,
    cksum: u16,
    identifier: u16,
    sequence: u16,
    payload: &[u8],
)
    ensures
        final(out)@ == old(out)@ + icmp_message_with(
            icmp_type,
            icmp_code,
            cksum,
            identifier,
            sequence,
            payload@,
        ),
{
    out.push(icmp_type);
    out.push(icmp_code);
    push_be16(out, cksum);
    push_be16(out, identifier);
    push_be16(out, sequence);
    push_bytes(out, payload);
    assert(out@ =~= old(out)@ + icmp_message_with(
        icmp_type,
        icmp_code,
        cksum,
        identifier,
        sequence,
        payload@,
    ));
}

/// Builds the Ethernet frame that carries an ICMP packet, computing both
/// checksums.
pub fn build_icmp_frame(packet: &IcmpPacket) -> (r: Vec<u8>)
    requires
        packet.payload@.len() + MIN_ICMP_PACKET_LEN <= usize::MAX,
    ensures
        r@ == icmp_frame(packet@),
{
    let mut blank: Vec<u8> = Vec::new();
    push_icmp_message_with(
        &mut blank,
        packet.icmp_type,
        packet.icmp_code,
        0,
        packet.identifier,
        packet.sequence,
        packet.payload.as_slice(),
    );
    assert(blank@ =~= icmp_message_with(
        packet.icmp_type,
        packet.icmp_code,
        0,
        packet.identifier,
        packet.sequence,
        packet.payload@,
    ));
    let cksum = icmp_checksum(blank.as_slice());
    let total_len = truncate16(IPV4_HEADER_LEN + ICMP_HEADER_LEN + packet.payload.len());
    let mut frame: Vec<u8> = Vec::new();
    push_eth_header(&mut frame, &packet.dst_mac, &packet.src_mac, ETH_TYPE_IPV4);
    push_ipv4_header(
        &mut frame,
        total_len,
        0x40,
        packet.ttl,
        IP_PROTO_ICMP,
        packet.src_ip,
        packet.dst_ip,
    );
    push_icmp_message_with(
        &mut frame,
        packet.icmp_type,
        packet.icmp_code,
        cksum,
        packet.identifier,
        packet.sequence,
        packet.payload.as_slice(),
    );
    assert(frame@ =~= icmp_frame(packet@));
    frame
}

/// An echo packet with time to live 64.
pub open spec fn echo_view(
    icmp_type: u8,
    src_mac: Seq<u8>,
    dst_mac: Seq<u8>,
    src_ip: Ipv4Addr,
    dst_ip: Ipv4Addr,
    identifier: u16,
    sequence: u16,
    payload: Seq<u8>,
) -> IcmpView {
    IcmpView {
        src_mac,
        dst_mac,
        src_ip,
        dst_ip,
        ttl: 64,
        icmp_type,
        icmp_code: ICMP_CODE_ECHO,
        checksum: 0,
        identifier,
        sequence,
        payload,
    }
}

fn build_echo(
    icmp_type: u8,
    src_mac: [u8; 6],
    dst_mac: [u8; 6],
    src_ip: Ipv4Addr,
    dst_ip: Ipv4Addr,
    identifier: u16,
    sequence: u16,
    payload: &[u8],
) -> (r: Vec<u8>)
    requires
        payload@.len() + MIN_ICMP_PACKET_LEN <= usize::MAX,
    ensures
        r@ == icmp_frame(
            echo_view(
                icmp_type,
                src_mac@,
                dst_mac@,
                src_ip,
                dst_ip,
                identifier,
                sequence,
                payload@,
            ),
        ),
{
    let packet = IcmpPacket {
        src_mac,
        dst_mac,
        src_ip,
        dst_ip,
        ttl: 64,
        icmp_type,
        icmp_code: ICMP_CODE_ECHO,
        checksum: 0,
        identifier,
        sequence,
        payload: copy_bytes(payload),
    };
    build_icmp_frame(&packet)
}

/// Builds an echo request frame.
pub fn build_echo_request(
    src_mac: [u8; 6],
    dst_mac: [u8; 6],
    src_ip: Ipv4Addr,
    dst_ip: Ipv4Addr,
    identifier: u16,
    sequence: u16,
    payload: &[u8],
) -> (r: Vec<u8>)
    requires
        payload@.len() + MIN_ICMP_PACKET_LEN <= usize::MAX,
    ensures
        r@ == icmp_frame(
            echo_view(
                ICMP_TYPE_ECHO_REQUEST,
                src_mac@,
                dst_mac@,
                src_ip,
                dst_ip,
                identifier,
                sequence,
                payload@,
            ),
        ),
{
    build_echo(
        ICMP_TYPE_ECHO_REQUEST,
        src_mac,
        dst_mac,
        src_ip,
        dst_ip,
        identifier,
        sequence,
        payload,
    )
}

/// Builds an echo reply frame.
pub fn build_echo_reply(
    src_mac: [u8; 6],
    dst_mac: [u8; 6],
    src_ip: Ipv4Addr,
    dst_ip: Ipv4Addr,
    identifier: u16,
    sequence: u16,
    payload: &[u8],
) -> (r: Vec<u8>)
    requires
        payload@.len() + MIN_ICMP_PACKET_LEN <= usize::MAX,
    ensures
        r@ == icmp_frame(
            echo_view(
                ICMP_TYPE_ECHO_REPLY,
                src_mac@,
                dst_mac@,
                src_ip,
                dst_ip,
                identifier,
                sequence,
                payload@,
            ),
        ),
{
    build_echo(
        ICMP_TYPE_ECHO_REPLY,
        src_mac,
        dst_mac,
        src_ip,
        dst_ip,
        identifier,
        sequence,
        payload,
    )
}

// ---------------------------------------------------------------------------
// Parsing
// ---------------------------------------------------------------------------

/// The offset of the ICMP message of an IPv4 frame, tagged or not, if the message
/// has at least `room` bytes there. A frame with the shortest IPv4 header must be
/// that long too.
pub open spec fn icmp_start(frame: Seq<u8>, room: usize) -> Option<int> {
    match vlan::layout_of(frame, None) {
        Some(layout) => {
            let l3 = layout.l3();
            let start = udp::ip4_payload_start(frame, l3);
            if layout.ethertype == ETH_TYPE_IPV4 && l3 + IPV4_HEADER_LEN + room <= frame.len()
                && frame[l3] / 16 == 4 && udp::ip4_header_len(frame, l3) >= 20 && frame[l3 + 9]
                == IP_PROTO_ICMP && start + room <= frame.len() {
                Some(start)
            } else {
                None
            }
        },
        None => None,
    }
}

/// What an ICMP frame says, `None` if it is no whole ICMP frame.
pub open spec fn icmp_parse(frame: Seq<u8>) -> Option<IcmpView> {
    match icmp_start(frame, ICMP_HEADER_LEN) {
        Some(start) => {
            let l3 = vlan::layout_of(frame, None)->Some_0.l3();
            Some(
                IcmpView {
                    src_mac: frame.subrange(6, 12),
                    dst_mac: frame.subrange(0, 6),
                    src_ip: addr::ipv4_at(frame, l3 + 12),
                    dst_ip: addr::ipv4_at(frame, l3 + 16),
                    ttl: frame[l3 + 8],
                    icmp_type: frame[start],
                    icmp_code: frame[start + 1],
                    checksum: bytes::be16_at(frame, start + 2),
                    identifier: bytes::be16_at(frame, start + 4),
                    sequence: bytes::be16_at(frame, start + 6),
                    payload: frame.skip(start + 8),
                },
            )
        },
        None => None,
    }
}

/// Offsets of the network-layer header and of the ICMP message.
struct IcmpOffsets {
    l3: usize,
    start: usize,
}

/// Finds the ICMP message of a frame.
fn find_icmp(frame: &[u8], room: usize) -> (r: Option<IcmpOffsets>)
    requires
        room <= 100,
    ensures
        match r {
            Some(o) => {
                &&& icmp_start(frame@, room) matches Some(start) && start == o.start
                &&& vlan::layout_of(frame@, None) is Some
                &&& o.l3 == vlan::layout_of(frame@, None)->Some_0.l3_offset
                &&& 14 <= o.l3 <= 18
                &&& o.l3 + 20 <= o.start
                &&& o.start + room <= frame@.len()
            },
            None => icmp_start(frame@, room) is None,
        },
{
    let layout = match detect_vlan(frame, None) {
        Some(layout) => layout,
        None => return None,
    };
    let l3: usize = layout.l3_offset;
    if layout.ethertype != ETH_TYPE_IPV4 {
        return None;
    }
    if frame.len() < l3 + IPV4_HEADER_LEN + room {
        return None;
    }
    if high_nibble(frame[l3]) != 4 {
        return None;
    }
    let header_len: usize = low_nibble(frame[l3]) * 4;
    if header_len < 20 {
        return None;
    }
    if frame[l3 + 9] != IP_PROTO_ICMP {
        return None;
    }
    let start: usize = l3 + header_len;
    if frame.len() < start + room {
        return None;
    }
    Some(IcmpOffsets { l3, start })
}

/// Parses an ICMP frame, tagged or not. The payload runs to the end of the frame.
pub fn parse_icmp_packet(frame: &[u8]) -> (r: Option<IcmpPacket>)
    ensures
        match r {
            Some(packet) => icmp_parse(frame@) == Some(packet@),
            None => icmp_parse(frame@) is None,
        },
{
    let o = match find_icmp(frame, ICMP_HEADER_LEN) {
        Some(o) => o,
        None => return None,
    };
    let start: usize = o.start;
    Some(
        IcmpPacket {
            src_mac: read_mac(frame, 6),
            dst_mac: read_mac(frame, 0),
            src_ip: read_ipv4(frame, o.l3 + 12),
            dst_ip: read_ipv4(frame, o.l3 + 16),
            ttl: frame[o.l3 + 8],
            icmp_type: frame[start],
            icmp_code: frame[start + 1],
            checksum: read_be16(frame, start + 2),
            identifier: read_be16(frame, start + 4),
            sequence: read_be16(frame, start + 6),
            payload: copy_bytes(slice_of(frame, start + ICMP_HEADER_LEN, frame.len())),
        },
    )
}

// ---------------------------------------------------------------------------
// Errors
// ---------------------------------------------------------------------------

/// An ICMP error and the datagram that caused it.
#[derive(Debug, Clone, Copy, PartialEq, Eq, Structural)]
pub struct IcmpErrorInfo {
    pub icmp_type: u8,
    pub icmp_code: u8,
    /// Who reports the error.
    pub error_source: Ipv4Addr,
    pub original_dst_ip: Ipv4Addr,
    pub original_src_ip: Ipv4Addr,
    pub original_dst_port: u16,
    pub original_src_port: u16,
    /// Next-hop MTU, where fragmentation was needed.
    pub next_hop_mtu: u16,
}

/// The class of I/O error that an ICMP error is reported as.
pub open spec fn error_kind(icmp_type: u8, icmp_code: u8) -> ErrorKind {
    if icmp_type == ICMP_TYPE_DEST_UNREACHABLE {
        if icmp_code == ICMP_CODE_PROTO_UNREACHABLE || icmp_code == ICMP_CODE_PORT_UNREACHABLE {
            ErrorKind::ConnectionRefused
        } else if icmp_code == ICMP_CODE_ADMIN_PROHIBITED {
            ErrorKind::PermissionDenied
        } else {
            ErrorKind::Other
        }
    } else if icmp_type == ICMP_TYPE_TIME_EXCEEDED && (icmp_code == ICMP_CODE_TTL_EXCEEDED
        || icmp_code == ICMP_CODE_FRAG_REASSEMBLY_EXCEEDED) {
        ErrorKind::TimedOut
    } else if icmp_type == ICMP_TYPE_PARAMETER_PROBLEM {
        ErrorKind::InvalidData
    } else {
        ErrorKind::Other
    }
}

impl IcmpErrorInfo {
    /// What went wrong, without the source of the report.
    pub open spec fn cause(self) -> Seq<char> {
        if self.icmp_type == ICMP_TYPE_DEST_UNREACHABLE {
            if self.icmp_code == ICMP_CODE_NET_UNREACHABLE {
                "ICMP: network unreachable"@
            } else if self.icmp_code == ICMP_CODE_HOST_UNREACHABLE {
                "ICMP: host unreachable"@
            } else if self.icmp_code == ICMP_CODE_PROTO_UNREACHABLE {
                "ICMP: protocol unreachable"@
            } else if self.icmp_code == ICMP_CODE_PORT_UNREACHABLE {
                "ICMP: port unreachable"@
            } else if self.icmp_code == ICMP_CODE_FRAG_NEEDED {
                "ICMP: fragmentation needed, next-hop MTU "@ + text::decimal16(
                    self.next_hop_mtu,
                )
            } else if self.icmp_code == ICMP_CODE_ADMIN_PROHIBITED {
                "ICMP: communication administratively prohibited"@
            } else {
                "ICMP: destination unreachable code "@ + text::decimal8(self.icmp_code)
            }
        } else if self.icmp_type == ICMP_TYPE_TIME_EXCEEDED && self.icmp_code
            == ICMP_CODE_TTL_EXCEEDED {
            "ICMP: TTL exceeded in transit"@
        } else if self.icmp_type == ICMP_TYPE_TIME_EXCEEDED && self.icmp_code
            == ICMP_CODE_FRAG_REASSEMBLY_EXCEEDED {
            "ICMP: fragment reassembly time exceeded"@
        } else if self.icmp_type == ICMP_TYPE_REDIRECT {
            "ICMP: redirect"@
        } else if self.icmp_type == ICMP_TYPE_PARAMETER_PROBLEM {
            "ICMP: parameter problem"@
        } else {
            "ICMP error type "@ + text::decimal8(self.icmp_type) + " code "@ + text::decimal8(
                self.icmp_code,
            )
        }
    }

    fn cause_text(&self) -> (r: String)
        ensures
            r@ == self.cause(),
    {
        if self.icmp_type == ICMP_TYPE_DEST_UNREACHABLE {
            if self.icmp_code == ICMP_CODE_NET_UNREACHABLE {
                String::from_str("ICMP: network unreachable")
            } else if self.icmp_code == ICMP_CODE_HOST_UNREACHABLE {
                String::from_str("ICMP: host unreachable")
            } else if self.icmp_code == ICMP_CODE_PROTO_UNREACHABLE {
                String::from_str("ICMP: protocol unreachable")
            } else if self.icmp_code == ICMP_CODE_PORT_UNREACHABLE {
                String::from_str("ICMP: port unreachable")
            } else if self.icmp_code == ICMP_CODE_FRAG_NEEDED {
                let mut s = String::from_str("ICMP: fragmentation needed, next-hop MTU ");
                append_decimal16(&mut s, self.next_hop_mtu);
                s
            } else if self.icmp_code == ICMP_CODE_ADMIN_PROHIBITED {
                String::from_str("ICMP: communication administratively prohibited")
            } else {
                let mut s = String::from_str("ICMP: destination unreachable code ");
                append_decimal8(&mut s, self.icmp_code);
                s
            }
        } else if self.icmp_type == ICMP_TYPE_TIME_EXCEEDED && self.icmp_code
            == ICMP_CODE_TTL_EXCEEDED {
            String::from_str("ICMP: TTL exceeded in transit")
        } else if self.icmp_type == ICMP_TYPE_TIME_EXCEEDED && self.icmp_code
            == ICMP_CODE_FRAG_REASSEMBLY_EXCEEDED {
            String::from_str("ICMP: fragment reassembly time exceeded")
        } else if self.icmp_type == ICMP_TYPE_REDIRECT {
            String::from_str("ICMP: redirect")
        } else if self.icmp_type == ICMP_TYPE_PARAMETER_PROBLEM {
            String::from_str("ICMP: parameter problem")
        } else {
            let mut s = String::from_str("ICMP error type ");
            append_decimal8(&mut s, self.icmp_type);
            s.append(" code ");
            append_decimal8(&mut s, self.icmp_code);
            s
        }
    }

    fn kind(&self) -> (r: ErrorKind)
        ensures
            r == error_kind(self.icmp_type, self.icmp_code),
    {
        if self.icmp_type == ICMP_TYPE_DEST_UNREACHABLE {
            if self.icmp_code == ICMP_CODE_PROTO_UNREACHABLE || self.icmp_code
                == ICMP_CODE_PORT_UNREACHABLE {
                ErrorKind::ConnectionRefused
            } else if self.icmp_code == ICMP_CODE_ADMIN_PROHIBITED {
                ErrorKind::PermissionDenied
            } else {
                ErrorKind::Other
            }
        } else if self.icmp_type == ICMP_TYPE_TIME_EXCEEDED && (self.icmp_code
            == ICMP_CODE_TTL_EXCEEDED || self.icmp_code == ICMP_CODE_FRAG_REASSEMBLY_EXCEEDED) {
            ErrorKind::TimedOut
        } else if self.icmp_type == ICMP_TYPE_PARAMETER_PROBLEM {
            ErrorKind::InvalidData
        } else {
            ErrorKind::Other
        }
    }

    /// The I/O error that this ICMP error is reported as.
    pub fn to_io_error(&self) -> (r: IoError)
        ensures
            r.kind == error_kind(self.icmp_type, self.icmp_code),
            r.message@ == self.cause() + " (from "@ + text::ipv4_text(self.error_source) + ")"@,
    {
        let mut message = self.cause_text();
        message.append(" (from ");
        append_ipv4(&mut message, &self.error_source);
        message.append(")");
        IoError { kind: self.kind(), message }
    }
}

/// The ICMP error that a frame reports, `None` if it is not an error about a UDP
/// datagram over IPv4 or is cut off before the datagram's ports.
pub open spec fn icmp_error_of(frame: Seq<u8>) -> Option<IcmpErrorInfo> {
    match icmp_start(frame, ICMP_ERROR_LEN) {
        Some(start) => {
            let l3 = vlan::layout_of(frame, None)->Some_0.l3();
            let orig = start + ICMP_HEADER_LEN;
            let ports = udp::ip4_payload_start(frame, orig);
            if is_error_type(frame[start]) && frame[orig] / 16 == 4 && udp::ip4_header_len(
                frame,
                orig,
            ) >= 20 && frame[orig + 9] == IP_PROTO_UDP && ports + 4 <= frame.len() {
                Some(
                    IcmpErrorInfo {
                        icmp_type: frame[start],
                        icmp_code: frame[start + 1],
                        error_source: addr::ipv4_at(frame, l3 + 12),
                        original_dst_ip: addr::ipv4_at(frame, orig + 16),
                        original_src_ip: addr::ipv4_at(frame, orig + 12),
                        original_dst_port: bytes::be16_at(frame, ports + 2),
                        original_src_port: bytes::be16_at(frame, ports),
                        next_hop_mtu: if frame[start] == ICMP_TYPE_DEST_UNREACHABLE && frame[start
                            + 1] == ICMP_CODE_FRAG_NEEDED {
                            bytes::be16_at(frame, start + 6)
                        } else {
                            0
                        },
                    },
                )
            } else {
                None
            }
        },
        None => None,
    }
}

/// Parses an ICMP error message about a UDP datagram.
pub fn parse_icmp_error(frame: &[u8]) -> (r: Option<IcmpErrorInfo>)
    ensures
        r == icmp_error_of(frame@),
{
    let o = match find_icmp(frame, ICMP_ERROR_LEN) {
        Some(o) => o,
        None => return None,
    };
    let start: usize = o.start;
    let icmp_type = frame[start];
    let icmp_code = frame[start + 1];
    if !is_icmp_error_type(icmp_type) {
        return None;
    }
    let next_hop_mtu: u16 = if icmp_type == ICMP_TYPE_DEST_UNREACHABLE && icmp_code
        == ICMP_CODE_FRAG_NEEDED {
        read_be16(frame, start + 6)
    } else {
        0
    };
    let orig: usize = start + ICMP_HEADER_LEN;
    if high_nibble(frame[orig]) != 4 {
        return None;
    }
    let orig_header_len: usize = low_nibble(frame[orig]) * 4;
    if orig_header_len < 20 {
        return None;
    }
    if frame[orig + 9] != IP_PROTO_UDP {
        return None;
    }
    if frame.len() - orig < orig_header_len + 4 {
        return None;
    }
    let ports: usize = orig + orig_header_len;
    Some(
        IcmpErrorInfo {
            icmp_type,
            icmp_code,
            error_source: read_ipv4(frame, o.l3 + 12),
            original_dst_ip: read_ipv4(frame, orig + 16),
            original_src_ip: read_ipv4(frame, orig + 12),
            original_dst_port: read_be16(frame, ports + 2),
            original_src_port: read_be16(frame, ports),
            next_hop_mtu,
        },
    )
}

// ---------------------------------------------------------------------------
// Handler
// ---------------------------------------------------------------------------

/// What to do about an ICMP packet.
pub enum IcmpAction {
    /// Send this echo reply frame.
    Reply(Vec<u8>),
    /// Queue this error on the socket it concerns.
    Error(IcmpErrorInfo),
}

/// Answers echo requests and picks out errors for a set of local addresses.
pub struct IcmpHandler {
    pub local_mac: [u8; 6],
    pub local_ips: Vec<Ipv4Addr>,
}

/// Whether `ips` holds `ip`.
pub fn contains_ip(ips: &Vec<Ipv4Addr>, ip: &Ipv4Addr) -> (r: bool)
    ensures
        r == ips@.contains(*ip),
{
    let mut i: usize = 0;
    while i < ips.len()
        invariant
            i <= ips@.len(),
            forall|j: int| 0 <= j < i ==> ips@[j] != *ip,
        decreases ips@.len() - i,
    {
        if ips[i] == *ip {
            assert(ips@[i as int] == *ip);
            return true;
        }
        i = i + 1;
    }
    false
}

/// `ips` with `ip` added at the end, unless it is there already.
pub open spec fn with_ip(ips: Seq<Ipv4Addr>, ip: Ipv4Addr) -> Seq<Ipv4Addr> {
    if ips.contains(ip) {
        ips
    } else {
        ips.push(ip)
    }
}

/// The echo request in `frame`, if it is one for an address in `ips`.
pub open spec fn request_for(frame: Seq<u8>, ips: Seq<Ipv4Addr>) -> Option<IcmpView> {
    match icmp_parse(frame) {
        Some(v) => if v.echo_request() && ips.contains(v.dst_ip) {
            Some(v)
        } else {
            None
        },
        None => None,
    }
}

impl IcmpHandler {
    pub fn new(local_mac: [u8; 6], local_ip: Ipv4Addr) -> (r: Self)
        ensures
            r.local_mac == local_mac,
            r.local_ips@ == seq![local_ip],
    {
        let mut local_ips: Vec<Ipv4Addr> = Vec::new();
        local_ips.push(local_ip);
        assert(local_ips@ =~= seq![local_ip]);
        IcmpHandler { local_mac, local_ips }
    }

    /// Adds a local address.
    pub fn add_local_ip(&mut self, ip: Ipv4Addr)
        ensures
            final(self).local_ips@ == with_ip(old(self).local_ips@, ip),
            final(self).local_mac == old(self).local_mac,
    {
        if !contains_ip(&self.local_ips, &ip) {
            self.local_ips.push(ip);
        }
    }

    /// The reply frame to an echo request for a local address. Other frames get
    /// no reply.
    pub fn process_icmp(&self, frame: &[u8]) -> (r: Option<Vec<u8>>)
        ensures
            match request_for(frame@, self.local_ips@) {
                Some(v) => r matches Some(reply) && reply@ == icmp_frame(
                    v.reply_from(self.local_mac@),
                ),
                None => r is None,
            },
    {
        let packet = match parse_icmp_packet(frame) {
            Some(packet) => packet,
            None => return None,
        };
        if packet.is_echo_request() && contains_ip(&self.local_ips, &packet.dst_ip) {
            match packet.make_echo_reply(self.local_mac) {
                Some(reply) => {
                    assert(reply.payload@.len() + 42 <= frame.len());
                    return Some(build_icmp_frame(&reply));
                },
                None => {},
            }
        }
        None
    }

    /// What to do about a frame: reply to an echo request for a local address, or
    /// report an error about a datagram that was sent from one.
    pub fn process_icmp_full(&self, frame: &[u8]) -> (r: Option<IcmpAction>)
        ensures
            match request_for(frame@, self.local_ips@) {
                Some(v) => r matches Some(IcmpAction::Reply(reply)) && reply@ == icmp_frame(
                    v.reply_from(self.local_mac@),
                ),
                None => match icmp_error_of(frame@) {
                    Some(info) => if self.local_ips@.contains(info.original_src_ip) {
                        r == Some(IcmpAction::Error(info))
                    } else {
                        r is None
                    },
                    None => r is None,
                },
            },
    {
        if let Some(reply) = self.process_icmp(frame) {
            return Some(IcmpAction::Reply(reply));
        }
        if let Some(info) = parse_icmp_error(frame) {
            if contains_ip(&self.local_ips, &info.original_src_ip) {
                return Some(IcmpAction::Error(info));
            }
        }
        None
    }
}

// ---------------------------------------------------------------------------
// Laws
// ---------------------------------------------------------------------------

/// The words of an ICMP message with its checksum fold to all ones, so that its checksum is
/// zero.
pub proof fn law_icmp_message_verifies(v: IcmpView)
    requires
        v.payload.len() <= 0xFFFF - 28,
    ensures
        icmp_cksum(icmp_message(v)) == 0,
        checksum::folded(checksum::wrapped(checksum::word_sum(icmp_message(v)))) == 0xFFFF,
{
    let head = seq![v.icmp_type, v.icmp_code];
    let rest = bytes::be16_bytes(v.identifier) + bytes::be16_bytes(v.sequence) + v.payload;
    let blank = icmp_message_with(v.icmp_type, v.icmp_code, 0, v.identifier, v.sequence, v.payload);
    let n = checksum::word_sum(blank);
    udp::lemma_word_sum_field(head, 0, rest);
    udp::lemma_word_sum_field(head, sent_cksum(v), rest);
    checksum::lemma_word_sum_bounds(blank);
    assert(blank.len() <= 0xFFFF - 20);
    checksum::lemma_complement_completes(n, sent_cksum(v));
}

/// Damage to a message is noticed: when the checksum of a whole message, its checksum field
/// included, is zero, it no longer is once any one byte is changed.
pub proof fn law_icmp_damage_is_noticed(message: Seq<u8>, i: int, b: u8)
    requires
        message.len() <= 0xFFFF,
        icmp_cksum(message) == 0,
        0 <= i < message.len(),
        b != message[i],
    ensures
        icmp_cksum(message.update(i, b)) != 0,
{
    let damaged = message.update(i, b);
    checksum::lemma_word_sum_update(message, i, b);
    checksum::lemma_byte_change(message[i], b, i);
    checksum::lemma_word_sum_bounds(message);
    checksum::lemma_word_sum_bounds(damaged);
    checksum::lemma_change_is_seen(
        checksum::word_sum(message),
        checksum::word_sum(damaged),
    );
}

/// A built frame parses back to what it was built from, with the checksum that it
/// was sent with, and its IPv4 header checksum verifies.
pub proof fn law_icmp_round_trip(v: IcmpView)
    requires
        v.src_mac.len() == 6,
        v.dst_mac.len() == 6,
    ensures
        icmp_parse(icmp_frame(v)) == Some(IcmpView { checksum: sent_cksum(v), ..v }),
        udp::ipv4_cksum_valid(icmp_frame(v)),
{
    let frame = icmp_frame(v);
    let eth = udp::eth_header(v.dst_mac, v.src_mac, ETH_TYPE_IPV4);
    let total_len = total_len_of(v);
    let header = udp::ipv4_header(
        total_len,
        udp::dont_fragment(),
        v.ttl,
        IP_PROTO_ICMP,
        v.src_ip,
        v.dst_ip,
    );
    let message = icmp_message(v);
    let cksum = sent_cksum(v);
    assert(eth.len() == 14);
    assert(header.len() == 20);
    assert(message.len() == 8 + v.payload.len());
    bytes::lemma_be16_round_trip(ETH_TYPE_IPV4);
    assert(frame[12] == bytes::be16_bytes(ETH_TYPE_IPV4)[0]);
    assert(frame[13] == bytes::be16_bytes(ETH_TYPE_IPV4)[1]);
    assert(frame.subrange(0, 6) =~= v.dst_mac);
    assert(frame.subrange(6, 12) =~= v.src_mac);
    assert(frame.subrange(14, 34) =~= header);
    assert(frame[14] == header[0] && frame[22] == header[8] && frame[23] == header[9]);
    assert(frame.subrange(26, 30) =~= v.src_ip.bytes());
    assert(frame.subrange(30, 34) =~= v.dst_ip.bytes());
    addr::lemma_ipv4_at_bytes(frame, 26, v.src_ip);
    addr::lemma_ipv4_at_bytes(frame, 30, v.dst_ip);
    bytes::lemma_be16_round_trip(cksum);
    bytes::lemma_be16_round_trip(v.identifier);
    bytes::lemma_be16_round_trip(v.sequence);
    assert(frame[34] == message[0] && message[0] == v.icmp_type);
    assert(frame[35] == message[1] && message[1] == v.icmp_code);
    assert(frame[36] == message[2] && message[2] == bytes::be16_bytes(cksum)[0]);
    assert(frame[37] == message[3] && message[3] == bytes::be16_bytes(cksum)[1]);
    assert(frame[38] == message[4] && message[4] == bytes::be16_bytes(v.identifier)[0]);
    assert(frame[39] == message[5] && message[5] == bytes::be16_bytes(v.identifier)[1]);
    assert(frame[40] == message[6] && message[6] == bytes::be16_bytes(v.sequence)[0]);
    assert(frame[41] == message[7] && message[7] == bytes::be16_bytes(v.sequence)[1]);
    assert(frame.skip(42) =~= v.payload);
    udp::lemma_ipv4_header_verifies(
        total_len,
        udp::dont_fragment(),
        v.ttl,
        IP_PROTO_ICMP,
        v.src_ip,
        v.dst_ip,
    );
}

/// An echo request that was built for a local address is answered with a frame
/// that parses as the reply: addresses swapped, identifier, sequence number and
/// payload kept.
pub proof fn law_echo_is_answered(v: IcmpView, mac: [u8; 6], ips: Seq<Ipv4Addr>)
    requires
        v.src_mac.len() == 6,
        v.dst_mac.len() == 6,
        v.echo_request(),
        ips.contains(v.dst_ip),
    ensures
        ({
            let request = request_for(icmp_frame(v), ips);
            let reply = icmp_parse(icmp_frame(request->Some_0.reply_from(mac@)));
            &&& request is Some
            &&& reply is Some
            &&& reply->Some_0.echo_reply()
            &&& reply->Some_0.src_mac == mac@
            &&& reply->Some_0.dst_mac == v.src_mac
            &&& reply->Some_0.src_ip == v.dst_ip
            &&& reply->Some_0.dst_ip == v.src_ip
            &&& reply->Some_0.identifier == v.identifier
            &&& reply->Some_0.sequence == v.sequence
            &&& reply->Some_0.payload == v.payload
        }),
{
    law_icmp_round_trip(v);
    let request = IcmpView { checksum: sent_cksum(v), ..v };
    law_icmp_round_trip(request.reply_from(mac@));
}

/// No frame is both an echo message and an error message.
pub proof fn law_echo_is_no_error(frame: Seq<u8>)
    ensures
        icmp_parse(frame) matches Some(v) && (v.echo_request() || v.echo_reply()) ==> icmp_error_of(
            frame,
        ) is None,
{
}

} // verus!
