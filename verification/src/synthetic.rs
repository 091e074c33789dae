//! A socket without a network: it takes frames, hands their payloads to a handler and
//! gives the frames of the responses.

use vstd::prelude::*;

use crate::addr;
use crate::addr::{read_ipv4, Ipv4Addr};
use crate::bytes;
use crate::bytes::{push_bytes, read_be16, slice_of, truncate16_behind};
use crate::constants::{ETH_TYPE_IPV4, IP_PROTO_UDP, TOTAL_HEADER_LEN, UDP_HEADER_LEN};
use crate::error::{UdpError, UdpResult};
use crate::udp;
use crate::udp::{push_ipv4_header, push_udp_datagram};

verus! {

/// Handles the payloads that a synthetic socket receives.
pub trait UdpHandler {
    /// The payload of the response, `None` for no response.
    fn on_packet(
        &self,
        src_ip: [u8; 4],
        src_port: u16,
        dst_ip: [u8; 4],
        dst_port: u16,
        payload: &[u8],
    ) -> Option<Vec<u8>>;
}

/// A socket that works on frames in memory.
pub struct SyntheticUdpSocket<H: UdpHandler + ?Sized> {
    pub bind_ip: [u8; 4],
    pub bind_port: u16,
    pub handler: Box<H>,
}

/// A datagram in an untagged frame with IPv4 and UDP headers without options.
pub struct SyntheticPacket<'a> {
    pub src_ip: Ipv4Addr,
    pub src_port: u16,
    pub dst_ip: Ipv4Addr,
    pub dst_port: u16,
    pub payload: &'a [u8],
}

impl<'a> SyntheticPacket<'a> {
    /// Whether this is what the frame says. Everything behind the headers is payload.
    pub open spec fn describes(self, frame: Seq<u8>) -> bool {
        &&& self.src_ip == addr::ipv4_at(frame, 26)
        &&& self.dst_ip == addr::ipv4_at(frame, 30)
        &&& self.src_port == bytes::be16_at(frame, 34)
        &&& self.dst_port == bytes::be16_at(frame, 36)
        &&& self.payload@ == frame.skip(42)
    }
}

/// Whether a frame is UDP for an address and a port.
pub open spec fn is_for(frame: Seq<u8>, ip: Seq<u8>, port: u16) -> bool {
    frame[23] == IP_PROTO_UDP && frame.subrange(30, 34) == ip && bytes::be16_at(frame, 36) == port
}

/// The frame of a response: back to where the frame came from, with the addresses and
/// ports swapped, and without the flag against fragmentation.
pub open spec fn response_frame(frame: Seq<u8>, response: Seq<u8>) -> Seq<u8> {
    frame.subrange(6, 12) + frame.subrange(0, 6) + frame.subrange(12, 14) + (udp::ipv4_header(
        bytes::low16((28 + response.len()) as int),
        0,
        64,
        IP_PROTO_UDP,
        addr::ipv4_at(frame, 30),
        addr::ipv4_at(frame, 26),
    ) + udp::udp_datagram(
        addr::ipv4_at(frame, 30),
        addr::ipv4_at(frame, 26),
        bytes::be16_at(frame, 36),
        bytes::be16_at(frame, 34),
        response,
    ))
}

/// Whether `r` is what a frame is answered with when the handler gave `response`.
pub open spec fn is_reply(
    frame: Seq<u8>,
    response: Option<Vec<u8>>,
    r: UdpResult<Option<Vec<u8>>>,
) -> bool {
    match response {
        Some(payload) => r matches Ok(Some(reply)) && reply@ == response_frame(frame, payload@),
        None => r == Ok::<Option<Vec<u8>>, UdpError>(None),
    }
}

/// Builds the frame of a response to a frame.
pub fn build_response(frame: &[u8], packet: &SyntheticPacket<'_>, response: &[u8]) -> (r: Vec<u8>)
    requires
        frame@.len() >= TOTAL_HEADER_LEN,
        packet.describes(frame@),
    ensures
        r@ == response_frame(frame@, response@),
{
    let mut out: Vec<u8> = Vec::new();
    push_bytes(&mut out, slice_of(frame, 6, 12));
    push_bytes(&mut out, slice_of(frame, 0, 6));
    push_bytes(&mut out, slice_of(frame, 12, 14));
    let total_len = truncate16_behind(28, response.len());
    push_ipv4_header(&mut out, total_len, 0, 64, IP_PROTO_UDP, packet.dst_ip, packet.src_ip);
    push_udp_datagram(
        &mut out,
        packet.dst_ip,
        packet.src_ip,
        packet.dst_port,
        packet.src_port,
        response,
    );
    assert(out@ =~= response_frame(frame@, response@));
    out
}

impl<H: UdpHandler + ?Sized> SyntheticUdpSocket<H> {
    pub fn new(bind_ip: [u8; 4], bind_port: u16, handler: Box<H>) -> (r: Self)
        ensures
            r.bind_ip == bind_ip,
            r.bind_port == bind_port,
            r.handler == handler,
    {
        SyntheticUdpSocket { bind_ip, bind_port, handler }
    }

    /// The datagram in a frame, `None` if it is not UDP for this socket.
    pub fn parse<'a>(&self, frame: &'a [u8]) -> (r: UdpResult<Option<SyntheticPacket<'a>>>)
        ensures
            match r {
                Ok(Some(p)) => {
                    &&& frame@.len() >= TOTAL_HEADER_LEN
                    &&& is_for(frame@, self.bind_ip@, self.bind_port)
                    &&& p.describes(frame@)
                },
                Ok(None) => frame@.len() >= TOTAL_HEADER_LEN && !is_for(
                    frame@,
                    self.bind_ip@,
                    self.bind_port,
                ),
                Err(e) => {
                    &&& frame@.len() < TOTAL_HEADER_LEN
                    &&& e == (UdpError::PacketTooShort {
                        expected: TOTAL_HEADER_LEN,
                        actual: frame@.len() as usize,
                    })
                },
            },
    {
        if frame.len() < TOTAL_HEADER_LEN {
            return Err(
                UdpError::PacketTooShort { expected: TOTAL_HEADER_LEN, actual: frame.len() },
            );
        }
        if frame[23] != IP_PROTO_UDP {
            return Ok(None);
        }
        let dst_port = read_be16(frame, 36);
        let same_ip = frame[30] == self.bind_ip[0] && frame[31] == self.bind_ip[1] && frame[32]
            == self.bind_ip[2] && frame[33] == self.bind_ip[3];
        proof {
            let dst = frame@.subrange(30, 34);
            if same_ip {
                assert(dst =~= self.bind_ip@);
            } else if dst == self.bind_ip@ {
                assert(dst[0] == self.bind_ip@[0] && dst[1] == self.bind_ip@[1] && dst[2]
                    == self.bind_ip@[2] && dst[3] == self.bind_ip@[3]);
            }
        }
        if !same_ip || dst_port != self.bind_port {
            return Ok(None);
        }
        let payload = slice_of(frame, TOTAL_HEADER_LEN, frame.len());
        assert(payload@ =~= frame@.skip(42));
        Ok(
            Some(
                SyntheticPacket {
                    src_ip: read_ipv4(frame, 26),
                    src_port: read_be16(frame, 34),
                    dst_ip: read_ipv4(frame, 30),
                    dst_port,
                    payload,
                },
            ),
        )
    }

    /// Whether the handler may answer a packet with `response`.
    pub open spec fn answers(
        self,
        packet: SyntheticPacket<'_>,
        src_ip: [u8; 4],
        dst_ip: [u8; 4],
        response: Option<Vec<u8>>,
    ) -> bool {
        &&& src_ip@ == packet.src_ip.bytes()
        &&& dst_ip@ == packet.dst_ip.bytes()
        &&& call_ensures(
            H::on_packet,
            (&*self.handler, src_ip, packet.src_port, dst_ip, packet.dst_port, packet.payload),
            response,
        )
    }

    /// Hands the payload of a frame for this socket to the handler, with the addresses and
    /// ports that `parse` finds, and gives the frame of its response. Whether there is one
    /// and what it says is up to the handler, whose own contract then says more.
    pub fn parse_and_handle(&self, frame: &[u8]) -> (r: UdpResult<Option<Vec<u8>>>)
        ensures
            if frame@.len() < TOTAL_HEADER_LEN {
                r == Err::<Option<Vec<u8>>, UdpError>(
                    UdpError::PacketTooShort {
                        expected: TOTAL_HEADER_LEN,
                        actual: frame@.len() as usize,
                    },
                )
            } else if !is_for(frame@, self.bind_ip@, self.bind_port) {
                r == Ok::<Option<Vec<u8>>, UdpError>(None)
            } else {
                exists|
                    packet: SyntheticPacket<'_>,
                    src_ip: [u8; 4],
                    dst_ip: [u8; 4],
                    response: Option<Vec<u8>>,
                |
                    {
                        &&& packet.describes(frame@)
                        &&& #[trigger] self.answers(packet, src_ip, dst_ip, response)
                        &&& is_reply(frame@, response, r)
                    }
            },
    {
        let packet = match self.parse(frame) {
            Ok(Some(packet)) => packet,
            Ok(None) => return Ok(None),
            Err(e) => return Err(e),
        };
        let src_ip = packet.src_ip.octets();
        let dst_ip = packet.dst_ip.octets();
        let response = self.handler.on_packet(
            src_ip,
            packet.src_port,
            dst_ip,
            packet.dst_port,
            packet.payload,
        );
        assert(self.answers(packet, src_ip, dst_ip, response));
        match &response {
            Some(payload) => Ok(Some(build_response(frame, &packet, payload.as_slice()))),
            None => Ok(None),
        }
    }
}

// ---------------------------------------------------------------------------
// Laws
// ---------------------------------------------------------------------------

/// A response to an IPv4 frame goes back to the sender: it parses as a datagram from the
/// address and port that the frame was for to those that it came from, with the payload of
/// the handler, and its checksums verify.
pub proof fn law_response_goes_back(frame: Seq<u8>, response: Seq<u8>)
    requires
        frame.len() >= TOTAL_HEADER_LEN,
        bytes::be16_at(frame, 12) == ETH_TYPE_IPV4,
        UDP_HEADER_LEN + response.len() <= 0xFFFF,
    ensures
        ({
            let reply = response_frame(frame, response);
            &&& udp::is_udp4_frame(reply)
            &&& udp::ipv4_cksum_valid(reply)
            &&& udp::udp_cksum_valid(reply)
            &&& forall|p: udp::ParsedUdpPacket| #[trigger]
                p.describes(reply) <==> {
                    &&& p.src_mac@ == frame.subrange(0, 6)
                    &&& p.dst_mac@ == frame.subrange(6, 12)
                    &&& p.src_ip == addr::ipv4_at(frame, 30)
                    &&& p.dst_ip == addr::ipv4_at(frame, 26)
                    &&& p.src_port == bytes::be16_at(frame, 36)
                    &&& p.dst_port == bytes::be16_at(frame, 34)
                    &&& p.payload@ == response
                    &&& p.vlan_id is None
                }
        }),
{
    let reply = response_frame(frame, response);
    let src_ip = addr::ipv4_at(frame, 30);
    let dst_ip = addr::ipv4_at(frame, 26);
    let src_port = bytes::be16_at(frame, 36);
    let dst_port = bytes::be16_at(frame, 34);
    let total_len = bytes::low16((28 + response.len()) as int);
    let header = udp::ipv4_header(total_len, 0, 64, IP_PROTO_UDP, src_ip, dst_ip);
    let datagram = udp::udp_datagram(src_ip, dst_ip, src_port, dst_port, response);
    let udp_len = (8 + response.len()) as u16;
    assert(header.len() == 20);
    assert(datagram.len() == 8 + response.len());
    assert(reply.subrange(0, 6) =~= frame.subrange(6, 12));
    assert(reply.subrange(6, 12) =~= frame.subrange(0, 6));
    assert(reply[12] == frame[12] && reply[13] == frame[13]);
    assert(reply.subrange(14, 34) =~= header);
    assert(reply.subrange(34, reply.len() as int) =~= datagram);
    assert(reply[14] == header[0]);
    assert(reply[23] == header[9]);
    assert(reply.subrange(26, 30) =~= src_ip.bytes());
    assert(reply.subrange(30, 34) =~= dst_ip.bytes());
    addr::lemma_ipv4_at_bytes(reply, 26, src_ip);
    addr::lemma_ipv4_at_bytes(reply, 30, dst_ip);
    bytes::lemma_be16_round_trip(src_port);
    bytes::lemma_be16_round_trip(dst_port);
    bytes::lemma_be16_round_trip(udp_len);
    assert(reply[34] == bytes::be16_bytes(src_port)[0]);
    assert(reply[35] == bytes::be16_bytes(src_port)[1]);
    assert(reply[36] == bytes::be16_bytes(dst_port)[0]);
    assert(reply[37] == bytes::be16_bytes(dst_port)[1]);
    assert(reply[38] == bytes::be16_bytes(udp_len)[0]);
    assert(reply[39] == bytes::be16_bytes(udp_len)[1]);
    assert(reply.subrange(42, reply.len() as int) =~= response);
    udp::lemma_ipv4_header_verifies(total_len, 0, 64, IP_PROTO_UDP, src_ip, dst_ip);
    udp::lemma_udp_datagram_verifies(src_ip, dst_ip, src_port, dst_port, response);
}

} // verus!
