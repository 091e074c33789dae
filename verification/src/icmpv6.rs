//! ICMPv6: echo requests and replies, and error messages about UDP datagrams.
//!
//! Unlike ICMP over IPv4, the checksum covers the IPv6 pseudo-header.

use vstd::prelude::*;
use vstd::string::StringExecFns;

use crate::addr;
use crate::addr::{read_ipv6, Ipv6Addr};
use crate::bytes;
use crate::bytes::{
    copy_bytes, high_nibble, push_be16, push_bytes, read_be16, read_be32, read_mac, slice_of,
    truncate16,
};
use crate::checksum;
use crate::constants::{IP_PROTO_UDP, UDP_HEADER_LEN};
use crate::error::{ErrorKind, IoError};
use crate::ipv6;
use crate::ipv6::{
    find_ipv6, find_upper_layer, message_checksum6, push_ipv6_header, ETH_TYPE_IPV6,
    IPV6_HEADER_LEN, IP_PROTO_ICMPV6,
};
use crate::text;
use crate::text::{append_decimal32, append_decimal8, append_ipv6};
use crate::udp;
use crate::udp::push_eth_header;

verus! {

pub const ICMPV6_TYPE_ECHO_REQUEST: u8 = 128;

pub const ICMPV6_TYPE_ECHO_REPLY: u8 = 129;

/// Code of echo messages.
pub const ICMPV6_CODE_ECHO: u8 = 0;

/// ICMPv6 header size.
pub const ICMPV6_HEADER_LEN: usize = 8;

/// Smallest ICMPv6 echo frame.
pub const MIN_ICMPV6_PACKET_LEN: usize = 62;

pub const ICMPV6_TYPE_DEST_UNREACHABLE: u8 = 1;

pub const ICMPV6_TYPE_PACKET_TOO_BIG: u8 = 2;

pub const ICMPV6_TYPE_TIME_EXCEEDED: u8 = 3;

pub const ICMPV6_TYPE_PARAMETER_PROBLEM: u8 = 4;

pub const ICMPV6_CODE_NO_ROUTE: u8 = 0;

pub const ICMPV6_CODE_ADMIN_PROHIBITED: u8 = 1;

pub const ICMPV6_CODE_BEYOND_SCOPE: u8 = 2;

pub const ICMPV6_CODE_ADDR_UNREACHABLE: u8 = 3;

pub const ICMPV6_CODE_PORT_UNREACHABLE: u8 = 4;

pub const ICMPV6_CODE_POLICY_FAIL: u8 = 5;

pub const ICMPV6_CODE_REJECT_ROUTE: u8 = 6;

pub const ICMPV6_CODE_HOP_LIMIT_EXCEEDED: u8 = 0;

pub const ICMPV6_CODE_FRAG_REASSEMBLY_EXCEEDED: u8 = 1;

pub const ICMPV6_CODE_ERRONEOUS_HEADER: u8 = 0;

pub const ICMPV6_CODE_UNRECOGNIZED_NEXT_HEADER: u8 = 1;

pub const ICMPV6_CODE_UNRECOGNIZED_OPTION: u8 = 2;

/// What an error message must carry of the original datagram.
pub const MIN_ICMPV6_ERROR_PAYLOAD: usize = 48;

// ---------------------------------------------------------------------------
// Packets
// ---------------------------------------------------------------------------

/// A parsed ICMPv6 echo packet.
#[derive(Debug, Clone)]
pub struct Icmpv6Packet {
    pub src_mac: [u8; 6],
    pub dst_mac: [u8; 6],
    pub src_ip: Ipv6Addr,
    pub dst_ip: Ipv6Addr,
    pub hop_limit: u8,
    pub icmp_type: u8,
    pub icmp_code: u8,
    pub checksum: u16,
    pub identifier: u16,
    pub sequence: u16,
    pub payload: Vec<u8>,
}

/// What an ICMPv6 echo packet says.
pub struct Icmpv6View {
    pub src_mac: Seq<u8>,
    pub dst_mac: Seq<u8>,
    pub src_ip: Ipv6Addr,
    pub dst_ip: Ipv6Addr,
    pub hop_limit: u8,
    pub icmp_type: u8,
    pub icmp_code: u8,
    pub checksum: u16,
    pub identifier: u16,
    pub sequence: u16,
    pub payload: Seq<u8>,
}

impl View for Icmpv6Packet {
    type V = Icmpv6View;

    open spec fn view(&self) -> Icmpv6View {
        Icmpv6View {
            src_mac: self.src_mac@,
            dst_mac: self.dst_mac@,
            src_ip: self.src_ip,
            dst_ip: self.dst_ip,
            hop_limit: self.hop_limit,
            icmp_type: self.icmp_type,
            icmp_code: self.icmp_code,
            checksum: self.checksum,
            identifier: self.identifier,
            sequence: self.sequence,
            payload: self.payload@,
        }
    }
}

impl Icmpv6View {
    pub open spec fn echo_request(self) -> bool {
        self.icmp_type == ICMPV6_TYPE_ECHO_REQUEST && self.icmp_code == ICMPV6_CODE_ECHO
    }

    pub open spec fn echo_reply(self) -> bool {
        self.icmp_type == ICMPV6_TYPE_ECHO_REPLY && self.icmp_code == ICMPV6_CODE_ECHO
    }

    /// The reply to this echo request, sent from `mac`: addresses swapped,
    /// identifier, sequence number and payload kept.
    pub open spec fn reply_from(self, mac: Seq<u8>) -> Icmpv6View {
        Icmpv6View {
            src_mac: mac,
            dst_mac: self.src_mac,
            src_ip: self.dst_ip,
            dst_ip: self.src_ip,
            hop_limit: 64,
            icmp_type: ICMPV6_TYPE_ECHO_REPLY,
            icmp_code: ICMPV6_CODE_ECHO,
            checksum: 0,
            identifier: self.identifier,
            sequence: self.sequence,
            payload: self.payload,
        }
    }
}

impl Icmpv6Packet {
    /// Whether this is an echo request.
    pub fn is_echo_request(&self) -> (r: bool)
        ensures
            r == self@.echo_request(),
    {
        self.icmp_type == ICMPV6_TYPE_ECHO_REQUEST && self.icmp_code == ICMPV6_CODE_ECHO
    }

    /// Whether this is an echo reply.
    pub fn is_echo_reply(&self) -> (r: bool)
        ensures
            r == self@.echo_reply(),
    {
        self.icmp_type == ICMPV6_TYPE_ECHO_REPLY && self.icmp_code == ICMPV6_CODE_ECHO
    }

    /// The reply to this echo request, sent from `reply_src_mac`.
    pub fn make_echo_reply(&self, reply_src_mac: [u8; 6]) -> (r: Option<Icmpv6Packet>)
        ensures
            match r {
                Some(reply) => self@.echo_request() && reply@ == self@.reply_from(reply_src_mac@),
                None => !self@.echo_request(),
            },
    {
        if !self.is_echo_request() {
            return None;
        }
        Some(
            Icmpv6Packet {
                src_mac: reply_src_mac,
                dst_mac: self.src_mac,
                src_ip: self.dst_ip,
                dst_ip: self.src_ip,
                hop_limit: 64,
                icmp_type: ICMPV6_TYPE_ECHO_REPLY,
                icmp_code: ICMPV6_CODE_ECHO,
                checksum: 0,
                identifier: self.identifier,
                sequence: self.sequence,
                payload: copy_bytes(self.payload.as_slice()),
            },
        )
    }
}

// ---------------------------------------------------------------------------
// Building
// ---------------------------------------------------------------------------

/// An ICMPv6 echo message with the given checksum field.
pub open spec fn icmpv6_message_with(
    icmp_type: u8,
    icmp_code: u8,
    cksum: u16,
    identifier: u16,
    sequence: u16,
    payload: Seq<u8>,
) -> Seq<u8> {
    seq![icmp_type, icmp_code] + bytes::be16_bytes(cksum) + (bytes::be16_bytes(identifier)
        + bytes::be16_bytes(sequence) + payload)
}

/// The checksum of an ICMPv6 message, its checksum field read as zero. It is
/// never zero.
pub open spec fn icmpv6_cksum(src_ip: Ipv6Addr, dst_ip: Ipv6Addr, message: Seq<u8>) -> u16 {
    checksum::complement_nonzero(ipv6::message_sum6(src_ip, dst_ip, IP_PROTO_ICMPV6, message, 2))
}

/// The checksum that the packet is sent with.
pub open spec fn sent_cksum(v: Icmpv6View) -> u16 {
    icmpv6_cksum(
        v.src_ip,
        v.dst_ip,
        icmpv6_message_with(v.icmp_type, v.icmp_code, 0, v.identifier, v.sequence, v.payload),
    )
}

/// The ICMPv6 message of a packet, with its checksum.
pub open spec fn icmpv6_message(v: Icmpv6View) -> Seq<u8> {
    icmpv6_message_with(
        v.icmp_type,
        v.icmp_code,
        sent_cksum(v),
        v.identifier,
        v.sequence,
        v.payload,
    )
}

/// The payload length field of the IPv6 header of a packet.
pub open spec fn payload_len_of(v: Icmpv6View) -> u16 {
    bytes::low16(ICMPV6_HEADER_LEN + v.payload.len())
}

/// The Ethernet frame that carries the packet. The checksum field of the packet
/// itself is not used.
pub open spec fn icmpv6_frame(v: Icmpv6View) -> Seq<u8> {
    udp::eth_header(v.dst_mac, v.src_mac, ETH_TYPE_IPV6) + (ipv6::ipv6_header(
        payload_len_of(v),
        IP_PROTO_ICMPV6,
        v.hop_limit,
        v.src_ip,
        v.dst_ip,
    ) + icmpv6_message(v))
}

/// The checksum of an ICMPv6 message over the IPv6 pseudo-header and the message
/// without its checksum field. A computed 0 is given as 0xFFFF.
pub fn icmpv6_checksum(src_ip: &Ipv6Addr, dst_ip: &Ipv6Addr, icmp_data: &[u8]) -> (r: u16)
    ensures
        r == icmpv6_cksum(*src_ip, *dst_ip, icmp_data@),
        r != 0,
{
    message_checksum6(src_ip, dst_ip, IP_PROTO_ICMPV6, icmp_data, 2)
}

/// Appends an ICMPv6 echo message with the given checksum field.
fn push_icmpv6_message_with(
    out: &mut Vec<u8>,
    icmp_type: u8,
    icmp_code: u8,
    cksum: u16,
    identifier: u16,
    sequence: u16,
    payload: &[u8],
)
    ensures
        final(out)@ == old(out)@ + icmpv6_message_with(
            icmp_type,
            icmp_code,
            cksum,
            identifier,
            sequence,
            payload@,
        ),
{
    out.push(icmp_type);
    out.push(icmp_code);
    push_be16(out, cksum);
    push_be16(out, identifier);
    push_be16(out, sequence);
    push_bytes(out, payload);
    assert(out@ =~= old(out)@ + icmpv6_message_with(
        icmp_type,
        icmp_code,
        cksum,
        identifier,
        sequence,
        payload@,
    ));
}

/// Builds the Ethernet frame that carries an ICMPv6 packet, computing its
/// checksum.
pub fn build_icmpv6_frame(packet: &Icmpv6Packet) -> (r: Vec<u8>)
    requires
        packet.payload@.len() + MIN_ICMPV6_PACKET_LEN <= usize::MAX,
    ensures
        r@ == icmpv6_frame(packet@),
{
    let mut blank: Vec<u8> = Vec::new();
    push_icmpv6_message_with(
        &mut blank,
        packet.icmp_type,
        packet.icmp_code,
        0,
        packet.identifier,
        packet.sequence,
        packet.payload.as_slice(),
    );
    assert(blank@ =~= icmpv6_message_with(
        packet.icmp_type,
        packet.icmp_code,
        0,
        packet.identifier,
        packet.sequence,
        packet.payload@,
    ));
    let cksum = icmpv6_checksum(&packet.src_ip, &packet.dst_ip, blank.as_slice());
    let mut frame: Vec<u8> = Vec::new();
    push_eth_header(&mut frame, &packet.dst_mac, &packet.src_mac, ETH_TYPE_IPV6);
    push_ipv6_header(
        &mut frame,
        truncate16(ICMPV6_HEADER_LEN + packet.payload.len()),
        IP_PROTO_ICMPV6,
        packet.hop_limit,
        &packet.src_ip,
        &packet.dst_ip,
    );
    push_icmpv6_message_with(
        &mut frame,
        packet.icmp_type,
        packet.icmp_code,
        cksum,
        packet.identifier,
        packet.sequence,
        packet.payload.as_slice(),
    );
    assert(frame@ =~= icmpv6_frame(packet@));
    frame
}

/// Builds an echo request frame with hop limit 64.
pub fn build_echo6_request(
    src_mac: [u8; 6],
    dst_mac: [u8; 6],
    src_ip: Ipv6Addr,
    dst_ip: Ipv6Addr,
    identifier: u16,
    sequence: u16,
    payload: &[u8],
) -> (r: Vec<u8>)
    requires
        payload@.len() + MIN_ICMPV6_PACKET_LEN <= usize::MAX,
    ensures
        r@ == icmpv6_frame(
            Icmpv6View {
                src_mac: src_mac@,
                dst_mac: dst_mac@,
                src_ip,
                dst_ip,
                hop_limit: 64,
                icmp_type: ICMPV6_TYPE_ECHO_REQUEST,
                icmp_code: ICMPV6_CODE_ECHO,
                checksum: 0,
                identifier,
                sequence,
                payload: payload@,
            },
        ),
{
    let packet = Icmpv6Packet {
        src_mac,
        dst_mac,
        src_ip,
        dst_ip,
        hop_limit: 64,
        icmp_type: ICMPV6_TYPE_ECHO_REQUEST,
        icmp_code: ICMPV6_CODE_ECHO,
        checksum: 0,
        identifier,
        sequence,
        payload: copy_bytes(payload),
    };
    build_icmpv6_frame(&packet)
}

// ---------------------------------------------------------------------------
// Parsing
// ---------------------------------------------------------------------------

/// The offset of the ICMPv6 message of an IPv6 frame, tagged or not, if its header
/// is whole.
pub open spec fn icmpv6_start(frame: Seq<u8>) -> Option<int> {
    match ipv6::ipv6_start(frame) {
        Some(l3) => match ipv6::upper_layer_at(frame, l3, IP_PROTO_ICMPV6) {
            Some(start) => if start + ICMPV6_HEADER_LEN <= frame.len() {
                Some(start)
            } else {
                None
            },
            None => None,
        },
        None => None,
    }
}

/// What an ICMPv6 echo frame says, `None` if it is no whole echo request or reply.
pub open spec fn icmpv6_parse(frame: Seq<u8>) -> Option<Icmpv6View> {
    match icmpv6_start(frame) {
        Some(start) => {
            let l3 = ipv6::ipv6_start(frame)->Some_0;
            if frame[start] == ICMPV6_TYPE_ECHO_REQUEST || frame[start] == ICMPV6_TYPE_ECHO_REPLY {
                Some(
                    Icmpv6View {
                        src_mac: frame.subrange(6, 12),
                        dst_mac: frame.subrange(0, 6),
                        src_ip: addr::ipv6_at(frame, l3 + 8),
                        dst_ip: addr::ipv6_at(frame, l3 + 24),
                        hop_limit: frame[l3 + 7],
                        icmp_type: frame[start],
                        icmp_code: frame[start + 1],
                        checksum: bytes::be16_at(frame, start + 2),
                        identifier: bytes::be16_at(frame, start + 4),
                        sequence: bytes::be16_at(frame, start + 6),
                        payload: frame.skip(start + 8),
                    },
                )
            } else {
                None
            }
        },
        None => None,
    }
}

/// Offsets of the IPv6 header and of the ICMPv6 message.
struct Icmpv6Offsets {
    l3: usize,
    start: usize,
}

/// Finds the ICMPv6 message of a frame.
fn find_icmpv6(frame: &[u8]) -> (r: Option<Icmpv6Offsets>)
    ensures
        match r {
            Some(o) => {
                &&& icmpv6_start(frame@) matches Some(start) && start == o.start
                &&& ipv6::ipv6_start(frame@) matches Some(l3) && l3 == o.l3
                &&& 14 <= o.l3
                &&& o.l3 + 40 <= o.start
                &&& o.start + 8 <= frame@.len()
            },
            None => icmpv6_start(frame@) is None,
        },
{
    let l3: usize = match find_ipv6(frame) {
        Some(l3) => l3,
        None => return None,
    };
    let start: usize = match find_upper_layer(frame, l3, IP_PROTO_ICMPV6) {
        Some(start) => start,
        None => return None,
    };
    if frame.len() - start < ICMPV6_HEADER_LEN {
        return None;
    }
    Some(Icmpv6Offsets { l3, start })
}

/// Parses an ICMPv6 echo frame, tagged or not. The payload runs to the end of the
/// frame.
pub fn parse_icmpv6_packet(frame: &[u8]) -> (r: Option<Icmpv6Packet>)
    ensures
        match r {
            Some(packet) => icmpv6_parse(frame@) == Some(packet@) && packet.payload@.len()
                + MIN_ICMPV6_PACKET_LEN <= frame@.len(),
            None => icmpv6_parse(frame@) is None,
        },
{
    let o = match find_icmpv6(frame) {
        Some(o) => o,
        None => return None,
    };
    let start: usize = o.start;
    assert(start + 8 <= frame.len());
    if frame[start] != ICMPV6_TYPE_ECHO_REQUEST && frame[start] != ICMPV6_TYPE_ECHO_REPLY {
        return None;
    }
    Some(
        Icmpv6Packet {
            src_mac: read_mac(frame, 6),
            dst_mac: read_mac(frame, 0),
            src_ip: read_ipv6(frame, o.l3 + 8),
            dst_ip: read_ipv6(frame, o.l3 + 24),
            hop_limit: frame[o.l3 + 7],
            icmp_type: frame[start],
            icmp_code: frame[start + 1],
            checksum: read_be16(frame, start + 2),
            identifier: read_be16(frame, start + 4),
            sequence: read_be16(frame, start + 6),
            payload: copy_bytes(slice_of(frame, start + ICMPV6_HEADER_LEN, frame.len())),
        },
    )
}

// ---------------------------------------------------------------------------
// Errors
// ---------------------------------------------------------------------------

/// An ICMPv6 error and the datagram that caused it.
#[derive(Debug, Clone, Copy, PartialEq, Eq, Structural)]
pub struct Icmpv6ErrorInfo {
    pub icmp_type: u8,
    pub icmp_code: u8,
    /// Who reports the error.
    pub error_source: Ipv6Addr,
    pub original_dst_ip: Ipv6Addr,
    pub original_src_ip: Ipv6Addr,
    pub original_dst_port: u16,
    pub original_src_port: u16,
    /// MTU, where the packet was too big.
    pub mtu: u32,
}

/// Whether `icmp_type` is an error type that is acted on.
pub open spec fn is_error_type6(icmp_type: u8) -> bool {
    icmp_type == ICMPV6_TYPE_DEST_UNREACHABLE || icmp_type == ICMPV6_TYPE_PACKET_TOO_BIG
        || icmp_type == ICMPV6_TYPE_TIME_EXCEEDED || icmp_type == ICMPV6_TYPE_PARAMETER_PROBLEM
}

/// The class of I/O error that an ICMPv6 error is reported as.
pub open spec fn error_kind6(icmp_type: u8, icmp_code: u8) -> ErrorKind {
    if icmp_type == ICMPV6_TYPE_DEST_UNREACHABLE && icmp_code == ICMPV6_CODE_ADMIN_PROHIBITED {
        ErrorKind::PermissionDenied
    } else if icmp_type == ICMPV6_TYPE_DEST_UNREACHABLE && icmp_code
        == ICMPV6_CODE_PORT_UNREACHABLE {
        ErrorKind::ConnectionRefused
    } else if icmp_type == ICMPV6_TYPE_TIME_EXCEEDED && (icmp_code
        == ICMPV6_CODE_HOP_LIMIT_EXCEEDED || icmp_code == ICMPV6_CODE_FRAG_REASSEMBLY_EXCEEDED) {
        ErrorKind::TimedOut
    } else if icmp_type == ICMPV6_TYPE_PARAMETER_PROBLEM {
        ErrorKind::InvalidData
    } else {
        ErrorKind::Other
    }
}

impl Icmpv6ErrorInfo {
    /// What went wrong, without the source of the report.
    pub open spec fn cause(self) -> Seq<char> {
        if self.icmp_type == ICMPV6_TYPE_DEST_UNREACHABLE {
            if self.icmp_code == ICMPV6_CODE_NO_ROUTE {
                "ICMPv6: no route to destination"@
            } else if self.icmp_code == ICMPV6_CODE_ADMIN_PROHIBITED {
                "ICMPv6: administratively prohibited"@
            } else if self.icmp_code == ICMPV6_CODE_BEYOND_SCOPE {
                "ICMPv6: beyond scope of source address"@
            } else if self.icmp_code == ICMPV6_CODE_ADDR_UNREACHABLE {
                "ICMPv6: address unreachable"@
            } else if self.icmp_code == ICMPV6_CODE_PORT_UNREACHABLE {
                "ICMPv6: port unreachable"@
            } else {
                "ICMPv6: destination unreachable code "@ + text::decimal8(self.icmp_code)
            }
        } else if self.icmp_type == ICMPV6_TYPE_PACKET_TOO_BIG {
            "ICMPv6: packet too big, MTU "@ + text::decimal32(self.mtu)
        } else if self.icmp_type == ICMPV6_TYPE_TIME_EXCEEDED && self.icmp_code
            == ICMPV6_CODE_HOP_LIMIT_EXCEEDED {
            "ICMPv6: hop limit exceeded in transit"@
        } else if self.icmp_type == ICMPV6_TYPE_TIME_EXCEEDED && self.icmp_code
            == ICMPV6_CODE_FRAG_REASSEMBLY_EXCEEDED {
            "ICMPv6: fragment reassembly time exceeded"@
        } else if self.icmp_type == ICMPV6_TYPE_PARAMETER_PROBLEM {
            "ICMPv6: parameter problem"@
        } else {
            "ICMPv6 error type "@ + text::decimal8(self.icmp_type) + " code "@ + text::decimal8(
                self.icmp_code,
            )
        }
    }

    fn cause_text(&self) -> (r: String)
        ensures
            r@ == self.cause(),
    {
        if self.icmp_type == ICMPV6_TYPE_DEST_UNREACHABLE {
            if self.icmp_code == ICMPV6_CODE_NO_ROUTE {
                String::from_str("ICMPv6: no route to destination")
            } else if self.icmp_code == ICMPV6_CODE_ADMIN_PROHIBITED {
                String::from_str("ICMPv6: administratively prohibited")
            } else if self.icmp_code == ICMPV6_CODE_BEYOND_SCOPE {
                String::from_str("ICMPv6: beyond scope of source address")
            } else if self.icmp_code == ICMPV6_CODE_ADDR_UNREACHABLE {
                String::from_str("ICMPv6: address unreachable")
            } else if self.icmp_code == ICMPV6_CODE_PORT_UNREACHABLE {
                String::from_str("ICMPv6: port unreachable")
            } else {
                let mut s = String::from_str("ICMPv6: destination unreachable code ");
                append_decimal8(&mut s, self.icmp_code);
                s
            }
        } else if self.icmp_type == ICMPV6_TYPE_PACKET_TOO_BIG {
            let mut s = String::from_str("ICMPv6: packet too big, MTU ");
            append_decimal32(&mut s, self.mtu);
            s
        } else if self.icmp_type == ICMPV6_TYPE_TIME_EXCEEDED && self.icmp_code
            == ICMPV6_CODE_HOP_LIMIT_EXCEEDED {
            String::from_str("ICMPv6: hop limit exceeded in transit")
        } else if self.icmp_type == ICMPV6_TYPE_TIME_EXCEEDED && self.icmp_code
            == ICMPV6_CODE_FRAG_REASSEMBLY_EXCEEDED {
            String::from_str("ICMPv6: fragment reassembly time exceeded")
        } else if self.icmp_type == ICMPV6_TYPE_PARAMETER_PROBLEM {
            String::from_str("ICMPv6: parameter problem")
        } else {
            let mut s = String::from_str("ICMPv6 error type ");
            append_decimal8(&mut s, self.icmp_type);
            s.append(" code ");
            append_decimal8(&mut s, self.icmp_code);
            s
        }
    }

    fn kind(&self) -> (r: ErrorKind)
        ensures
            r == error_kind6(self.icmp_type, self.icmp_code),
    {
        if self.icmp_type == ICMPV6_TYPE_DEST_UNREACHABLE && self.icmp_code
            == ICMPV6_CODE_ADMIN_PROHIBITED {
            ErrorKind::PermissionDenied
        } else if self.icmp_type == ICMPV6_TYPE_DEST_UNREACHABLE && self.icmp_code
            == ICMPV6_CODE_PORT_UNREACHABLE {
            ErrorKind::ConnectionRefused
        } else if self.icmp_type == ICMPV6_TYPE_TIME_EXCEEDED && (self.icmp_code
            == ICMPV6_CODE_HOP_LIMIT_EXCEEDED || self.icmp_code
            == ICMPV6_CODE_FRAG_REASSEMBLY_EXCEEDED) {
            ErrorKind::TimedOut
        } else if self.icmp_type == ICMPV6_TYPE_PARAMETER_PROBLEM {
            ErrorKind::InvalidData
        } else {
            ErrorKind::Other
        }
    }

    /// The I/O error that this ICMPv6 error is reported as.
    pub fn to_io_error(&self) -> (r: IoError)
        ensures
            r.kind == error_kind6(self.icmp_type, self.icmp_code),
            r.message@ == self.cause() + " (from "@ + text::ipv6_text(self.error_source) + ")"@,
    {
        let mut message = self.cause_text();
        message.append(" (from ");
        append_ipv6(&mut message, &self.error_source);
        message.append(")");
        IoError { kind: self.kind(), message }
    }
}

/// The ICMPv6 error that a frame reports, `None` if it is not an error about a UDP
/// datagram over IPv6 or is cut off before the datagram's ports.
pub open spec fn icmpv6_error_of(frame: Seq<u8>) -> Option<Icmpv6ErrorInfo> {
    match icmpv6_start(frame) {
        Some(start) => {
            let l3 = ipv6::ipv6_start(frame)->Some_0;
            let orig = start + ICMPV6_HEADER_LEN;
            if is_error_type6(frame[start]) && orig + MIN_ICMPV6_ERROR_PAYLOAD <= frame.len()
                && frame[orig] / 16 == 6 {
                match ipv6::upper_layer_at(frame, orig, IP_PROTO_UDP) {
                    Some(ports) => if ports + 4 <= frame.len() {
                        Some(
                            Icmpv6ErrorInfo {
                                icmp_type: frame[start],
                                icmp_code: frame[start + 1],
                                error_source: addr::ipv6_at(frame, l3 + 8),
                                original_dst_ip: addr::ipv6_at(frame, orig + 24),
                                original_src_ip: addr::ipv6_at(frame, orig + 8),
                                original_dst_port: bytes::be16_at(frame, ports + 2),
                                original_src_port: bytes::be16_at(frame, ports),
                                mtu: if frame[start] == ICMPV6_TYPE_PACKET_TOO_BIG {
                                    bytes::be32_at(frame, start + 4)
                                } else {
                                    0
                                },
                            },
                        )
                    } else {
                        None
                    },
                    None => None,
                }
            } else {
                None
            }
        },
        None => None,
    }
}

/// Parses an ICMPv6 error message about a UDP datagram.
pub fn parse_icmpv6_error(frame: &[u8]) -> (r: Option<Icmpv6ErrorInfo>)
    ensures
        r == icmpv6_error_of(frame@),
{
    let o = match find_icmpv6(frame) {
        Some(o) => o,
        None => return None,
    };
    let start: usize = o.start;
    assert(start + 8 <= frame.len());
    let icmp_type = frame[start];
    let icmp_code = frame[start + 1];
    if icmp_type != ICMPV6_TYPE_DEST_UNREACHABLE && icmp_type != ICMPV6_TYPE_PACKET_TOO_BIG
        && icmp_type != ICMPV6_TYPE_TIME_EXCEEDED && icmp_type != ICMPV6_TYPE_PARAMETER_PROBLEM {
        return None;
    }
    let mtu: u32 = if icmp_type == ICMPV6_TYPE_PACKET_TOO_BIG {
        read_be32(frame, start + 4)
    } else {
        0
    };
    let orig: usize = start + ICMPV6_HEADER_LEN;
    if frame.len() - orig < IPV6_HEADER_LEN + UDP_HEADER_LEN {
        return None;
    }
    if high_nibble(frame[orig]) != 6 {
        return None;
    }
    let ports: usize = match find_upper_layer(frame, orig, IP_PROTO_UDP) {
        Some(ports) => ports,
        None => return None,
    };
    if frame.len() - ports < 4 {
        return None;
    }
    Some(
        Icmpv6ErrorInfo {
            icmp_type,
            icmp_code,
            error_source: read_ipv6(frame, o.l3 + 8),
            original_dst_ip: read_ipv6(frame, orig + 24),
            original_src_ip: read_ipv6(frame, orig + 8),
            original_dst_port: read_be16(frame, ports + 2),
            original_src_port: read_be16(frame, ports),
            mtu,
        },
    )
}

// ---------------------------------------------------------------------------
// Handler
// ---------------------------------------------------------------------------

/// What to do about an ICMPv6 packet.
pub enum Icmpv6Action {
    /// Send this echo reply frame.
    Reply(Vec<u8>),
    /// Queue this error on the socket it concerns.
    Error(Icmpv6ErrorInfo),
}

/// Answers echo requests and picks out errors for a set of local addresses.
pub struct Icmpv6Handler {
    pub local_mac: [u8; 6],
    pub local_ips: Vec<Ipv6Addr>,
}

/// Whether `ips` holds `ip`.
pub fn contains_ip6(ips: &Vec<Ipv6Addr>, ip: &Ipv6Addr) -> (r: bool)
    ensures
        r == ips@.contains(*ip),
{
    let mut i: usize = 0;
    while i < ips.len()
        invariant
            i <= ips@.len(),
            forall|j: int| 0 <= j < i ==> ips@[j] != *ip,
        decreases ips@.len() - i,
    {
        if ips[i] == *ip {
            assert(ips@[i as int] == *ip);
            return true;
        }
        i = i + 1;
    }
    false
}

/// `ips` with `ip` added at the end, unless it is there already.
pub open spec fn with_ip6(ips: Seq<Ipv6Addr>, ip: Ipv6Addr) -> Seq<Ipv6Addr> {
    if ips.contains(ip) {
        ips
    } else {
        ips.push(ip)
    }
}

/// The echo request in `frame`, if it is one for an address in `ips`.
pub open spec fn request_for6(frame: Seq<u8>, ips: Seq<Ipv6Addr>) -> Option<Icmpv6View> {
    match icmpv6_parse(frame) {
        Some(v) => if v.echo_request() && ips.contains(v.dst_ip) {
            Some(v)
        } else {
            None
        },
        None => None,
    }
}

impl Icmpv6Handler {
    pub fn new(local_mac: [u8; 6], local_ip: Ipv6Addr) -> (r: Self)
        ensures
            r.local_mac == local_mac,
            r.local_ips@ == seq![local_ip],
    {
        let mut local_ips: Vec<Ipv6Addr> = Vec::new();
        local_ips.push(local_ip);
        assert(local_ips@ =~= seq![local_ip]);
        Icmpv6Handler { local_mac, local_ips }
    }

    /// Adds a local address.
    pub fn add_local_ip(&mut self, ip: Ipv6Addr)
        ensures
            final(self).local_ips@ == with_ip6(old(self).local_ips@, ip),
            final(self).local_mac == old(self).local_mac,
    {
        if !contains_ip6(&self.local_ips, &ip) {
            self.local_ips.push(ip);
        }
    }

    /// The reply frame to an echo request for a local address. Other frames get
    /// no reply.
    pub fn process_icmpv6(&self, frame: &[u8]) -> (r: Option<Vec<u8>>)
        ensures
            match request_for6(frame@, self.local_ips@) {
                Some(v) => r matches Some(reply) && reply@ == icmpv6_frame(
                    v.reply_from(self.local_mac@),
                ),
                None => r is None,
            },
    {
        let packet = match parse_icmpv6_packet(frame) {
            Some(packet) => packet,
            None => return None,
        };
        if packet.is_echo_request() && contains_ip6(&self.local_ips, &packet.dst_ip) {
            match packet.make_echo_reply(self.local_mac) {
                Some(reply) => {
                    assert(reply.payload@.len() + 62 <= frame.len());
                    return Some(build_icmpv6_frame(&reply));
                },
                None => {},
            }
        }
        None
    }

    /// What to do about a frame: reply to an echo request for a local address, or
    /// report an error about a datagram that was sent from one.
    pub fn process_icmpv6_full(&self, frame: &[u8]) -> (r: Option<Icmpv6Action>)
        ensures
            match request_for6(frame@, self.local_ips@) {
                Some(v) => r matches Some(Icmpv6Action::Reply(reply)) && reply@ == icmpv6_frame(
                    v.reply_from(self.local_mac@),
                ),
                None => match icmpv6_error_of(frame@) {
                    Some(info) => if self.local_ips@.contains(info.original_src_ip) {
                        r == Some(Icmpv6Action::Error(info))
                    } else {
                        r is None
                    },
                    None => r is None,
                },
            },
    {
        if let Some(reply) = self.process_icmpv6(frame) {
            return Some(Icmpv6Action::Reply(reply));
        }
        if let Some(info) = parse_icmpv6_error(frame) {
            if contains_ip6(&self.local_ips, &info.original_src_ip) {
                return Some(Icmpv6Action::Error(info));
            }
        }
        None
    }
}

// ---------------------------------------------------------------------------
// Laws
// ---------------------------------------------------------------------------

/// The checksum does not depend on what the checksum field holds, so computing it
/// again over a sent message gives the checksum that the message was sent with.
pub proof fn law_icmpv6_message_verifies(v: Icmpv6View)
    ensures
        icmpv6_cksum(v.src_ip, v.dst_ip, icmpv6_message(v)) == sent_cksum(v),
        sent_cksum(v) != 0,
{
    let blank = icmpv6_message_with(
        v.icmp_type,
        v.icmp_code,
        0,
        v.identifier,
        v.sequence,
        v.payload,
    );
    assert(checksum::blanked(icmpv6_message(v), 2) =~= checksum::blanked(blank, 2));
}

/// Damage to a message is noticed: when its checksum field holds the checksum, it no longer
/// does once any one byte of the message is changed.
pub proof fn law_icmpv6_damage_is_noticed(
    src_ip: Ipv6Addr,
    dst_ip: Ipv6Addr,
    message: Seq<u8>,
    i: int,
    b: u8,
)
    requires
        4 <= message.len() <= 0xFFFF,
        bytes::be16_at(message, 2) == icmpv6_cksum(src_ip, dst_ip, message),
        0 <= i < message.len(),
        b != message[i],
    ensures
        ({
            let damaged = message.update(i, b);
            bytes::be16_at(damaged, 2) != icmpv6_cksum(src_ip, dst_ip, damaged)
        }),
{
    let damaged = message.update(i, b);
    let blank = checksum::blanked(message, 2);
    let damaged_blank = checksum::blanked(damaged, 2);
    if i == 2 || i == 3 {
        assert(damaged_blank =~= blank);
    } else {
        assert(damaged_blank =~= blank.update(i, b));
        checksum::lemma_word_sum_update(blank, i, b);
        checksum::lemma_byte_change(message[i], b, i);
        checksum::lemma_word_sum_bounds(src_ip.bytes());
        checksum::lemma_word_sum_bounds(dst_ip.bytes());
        checksum::lemma_word_sum_bounds(blank);
        checksum::lemma_word_sum_bounds(damaged_blank);
        checksum::lemma_complements_differ(
            ipv6::message_sum6(src_ip, dst_ip, IP_PROTO_ICMPV6, message, 2),
            ipv6::message_sum6(src_ip, dst_ip, IP_PROTO_ICMPV6, damaged, 2),
        );
    }
}

/// A message that is delivered under another address is noticed: its checksum is another one
/// when one byte of the source or of the destination is changed.
pub proof fn law_icmpv6_address_damage_is_noticed(
    ip: Ipv6Addr,
    damaged: Ipv6Addr,
    other: Ipv6Addr,
    message: Seq<u8>,
    i: int,
    b: u8,
)
    requires
        message.len() <= 0xFFFF,
        0 <= i < 16,
        damaged.bytes() == ip.bytes().update(i, b),
        b != ip.bytes()[i],
    ensures
        icmpv6_cksum(damaged, other, message) != icmpv6_cksum(ip, other, message),
        icmpv6_cksum(other, damaged, message) != icmpv6_cksum(other, ip, message),
{
    checksum::lemma_word_sum_update(ip.bytes(), i, b);
    checksum::lemma_byte_change(ip.bytes()[i], b, i);
    checksum::lemma_word_sum_bounds(ip.bytes());
    checksum::lemma_word_sum_bounds(damaged.bytes());
    checksum::lemma_word_sum_bounds(other.bytes());
    checksum::lemma_word_sum_bounds(checksum::blanked(message, 2));
    checksum::lemma_complements_differ(
        ipv6::message_sum6(ip, other, IP_PROTO_ICMPV6, message, 2),
        ipv6::message_sum6(damaged, other, IP_PROTO_ICMPV6, message, 2),
    );
    checksum::lemma_complements_differ(
        ipv6::message_sum6(other, ip, IP_PROTO_ICMPV6, message, 2),
        ipv6::message_sum6(other, damaged, IP_PROTO_ICMPV6, message, 2),
    );
}

/// A built echo frame parses back to what it was built from, with the checksum
/// that it was sent with.
#[verifier::rlimit(40)]
pub proof fn law_icmpv6_round_trip(v: Icmpv6View)
    requires
        v.src_mac.len() == 6,
        v.dst_mac.len() == 6,
        v.icmp_type == ICMPV6_TYPE_ECHO_REQUEST || v.icmp_type == ICMPV6_TYPE_ECHO_REPLY,
    ensures
        icmpv6_parse(icmpv6_frame(v)) == Some(Icmpv6View { checksum: sent_cksum(v), ..v }),
{
    let frame = icmpv6_frame(v);
    let eth = udp::eth_header(v.dst_mac, v.src_mac, ETH_TYPE_IPV6);
    let message = icmpv6_message(v);
    let cksum = sent_cksum(v);
    assert(eth.len() == 14);
    assert(message.len() == 8 + v.payload.len());
    ipv6::lemma_ipv6_header_at(
        eth,
        payload_len_of(v),
        IP_PROTO_ICMPV6,
        v.hop_limit,
        v.src_ip,
        v.dst_ip,
        message,
    );
    bytes::lemma_be16_round_trip(ETH_TYPE_IPV6);
    assert(frame[12] == bytes::be16_bytes(ETH_TYPE_IPV6)[0]);
    assert(frame[13] == bytes::be16_bytes(ETH_TYPE_IPV6)[1]);
    assert(frame.subrange(0, 6) =~= v.dst_mac);
    assert(frame.subrange(6, 12) =~= v.src_mac);
    bytes::lemma_be16_round_trip(cksum);
    bytes::lemma_be16_round_trip(v.identifier);
    bytes::lemma_be16_round_trip(v.sequence);
    assert(forall|k: int| 0 <= k < message.len() ==> frame[54 + k] == #[trigger] message[k]);
    assert(frame[54] == message[0] && message[0] == v.icmp_type);
    assert(frame[55] == message[1] && message[1] == v.icmp_code);
    assert(frame[56] == message[2] && message[2] == bytes::be16_bytes(cksum)[0]);
    assert(frame[57] == message[3] && message[3] == bytes::be16_bytes(cksum)[1]);
    assert(frame[58] == message[4] && message[4] == bytes::be16_bytes(v.identifier)[0]);
    assert(frame[59] == message[5] && message[5] == bytes::be16_bytes(v.identifier)[1]);
    assert(frame[60] == message[6] && message[6] == bytes::be16_bytes(v.sequence)[0]);
    assert(frame[61] == message[7] && message[7] == bytes::be16_bytes(v.sequence)[1]);
    assert(frame.skip(62) =~= v.payload);
}

/// An echo request that was built for a local address is answered with a frame
/// that parses as the reply: addresses swapped, identifier, sequence number and
/// payload kept.
pub proof fn law_echo6_is_answered(v: Icmpv6View, mac: [u8; 6], ips: Seq<Ipv6Addr>)
    requires
        v.src_mac.len() == 6,
        v.dst_mac.len() == 6,
        v.echo_request(),
        ips.contains(v.dst_ip),
    ensures
        ({
            let request = request_for6(icmpv6_frame(v), ips);
            let reply = icmpv6_parse(icmpv6_frame(request->Some_0.reply_from(mac@)));
            &&& request is Some
            &&& reply is Some
            &&& reply->Some_0.echo_reply()
            &&& reply->Some_0.src_mac == mac@
            &&& reply->Some_0.dst_mac == v.src_mac
            &&& reply->Some_0.src_ip == v.dst_ip
            &&& reply->Some_0.dst_ip == v.src_ip
            &&& reply->Some_0.identifier == v.identifier
            &&& reply->Some_0.sequence == v.sequence
            &&& reply->Some_0.payload == v.payload
        }),
{
    law_icmpv6_round_trip(v);
    let request = Icmpv6View { checksum: sent_cksum(v), ..v };
    law_icmpv6_round_trip(request.reply_from(mac@));
}

/// No frame is both an echo message and an error message.
pub proof fn law_echo6_is_no_error(frame: Seq<u8>)
    ensures
        icmpv6_parse(frame) is Some ==> icmpv6_error_of(frame) is None,
{
}

} // verus!
