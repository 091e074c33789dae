//! Sending: which frame to send, to which neighbour, and how to find out where that
//! neighbour is.

use vstd::prelude::*;
use vstd::string::StringExecFns;

use crate::addr;
use crate::addr::{Ipv4Addr, MacAddress, SocketAddr, SocketAddrV4};
use crate::arp;
use crate::arp::{ETH_ARP_FRAME_LEN, ETH_TYPE_ARP};
use crate::bytes;
use crate::bytes::{copy_bytes, read_be16};
use crate::constants::{
    ETH_HEADER_LEN, ETH_TYPE_IPV4, ETH_TYPE_VLAN, IP_PROTO_UDP, UDP_HEADER_LEN,
};
use crate::error::{ErrorKind, IoError};
use crate::gue;
use crate::gue::build_gue_frame_into;
use crate::recv_queue;
use crate::recv_queue::count;
use crate::socket;
use crate::socket::{PerfCounters, UdpSocket};
use crate::text;
use crate::text::{append_decimal, append_decimal16, append_decimal32, append_ipv4};
use crate::udp;
use crate::vlan;
use crate::udp::{build_udp_frame_into, build_udp_frame_into_vlan, parse_udp_packet_ref};

verus! {

/// How often an ARP request is sent before the destination is given up.
pub const MAX_ARP_ATTEMPTS: u32 = 3;

/// How often the backend is polled for the reply to an ARP request.
pub const ARP_POLLS_PER_ATTEMPT: u32 = 10_000;

/// Why a send is refused.
pub enum SendRefusal {
    /// The socket or the destination is IPv6.
    Ipv6,
    /// The payload exceeds this limit at this MTU.
    TooLarge { len: nat, limit: nat, mtu: u16 },
}

impl SendRefusal {
    /// The error message.
    pub open spec fn text(self) -> Seq<char> {
        match self {
            SendRefusal::Ipv6 => "IPv6 not supported"@,
            SendRefusal::TooLarge {
                len,
                limit,
                mtu,
            } => "payload too large: "@ + text::decimal(len) + " bytes exceeds max UDP payload "@
                + text::decimal(limit) + " (MTU "@ + text::decimal16(mtu) + ")"@,
        }
    }
}

/// What a send does next.
#[derive(Debug, Clone, Copy)]
pub enum SendStep {
    /// It sends the frame; the NIC inserts this tag.
    Transmit { hw_vlan_tci: Option<u16> },
    /// It finds out where this neighbour is.
    Resolve(Ipv4Addr),
}

/// How a datagram is put on the wire.
pub enum Wire {
    /// In the tunnel.
    Tunnel,
    /// Tagged by the NIC.
    HardwareTag(u16),
    /// Tagged in the frame.
    SoftwareTag(u16),
    /// Untagged.
    Plain,
}

impl UdpSocket {
    /// Why a payload of `len` bytes for `dst` is refused.
    pub open spec fn refusal(self, len: nat, dst: SocketAddr) -> Option<SendRefusal> {
        if self.local_addr is V6 || dst is V6 {
            Some(SendRefusal::Ipv6)
        } else if len > self.send_limit() {
            Some(
                SendRefusal::TooLarge {
                    len,
                    limit: self.send_limit(),
                    mtu: self.routing_table.mtu,
                },
            )
        } else {
            None
        }
    }

    /// The neighbour that a packet for `dst` is handed to: on the way to the far end of the
    /// tunnel, or to the destination.
    pub open spec fn neighbour(self, dst: Ipv4Addr) -> Ipv4Addr {
        self.routing_table.route(
            match self.gue_config {
                Some(config) => config.remote_ip,
                None => dst,
            },
        ).neighbour()
    }

    /// How a datagram is put on the wire.
    pub open spec fn wire(self) -> Wire {
        match (self.gue_config, self.vlan_config) {
            (Some(_), _) => Wire::Tunnel,
            (None, Some(config)) => if config.mode is Access {
                Wire::Plain
            } else if self.dpdk && self.tx_offload.vlan_insert && !config.force_software {
                Wire::HardwareTag(config.tci())
            } else {
                Wire::SoftwareTag(config.tci())
            },
            (None, None) => Wire::Plain,
        }
    }

    /// The frame of a datagram for `dst`, handed to `mac`.
    pub open spec fn sent_frame(self, payload: Seq<u8>, dst: SocketAddrV4, mac: Seq<u8>) -> Seq<u8> {
        let src = self.local_addr->V4_0;
        match self.wire() {
            Wire::Tunnel => udp::udp4_frame(
                self.local_mac@,
                mac,
                src.ip,
                self.gue_config.unwrap().remote_ip,
                self.gue_config.unwrap().local_port,
                self.gue_config.unwrap().remote_port,
                gue::gue_payload(src.ip, dst.ip, src.port, dst.port, payload),
                self.ttl,
            ),
            Wire::SoftwareTag(tci) => udp::udp4_frame_tagged(
                self.local_mac@,
                mac,
                src.ip,
                dst.ip,
                src.port,
                dst.port,
                payload,
                self.ttl,
                tci,
            ),
            _ => udp::udp4_frame(
                self.local_mac@,
                mac,
                src.ip,
                dst.ip,
                src.port,
                dst.port,
                payload,
                self.ttl,
            ),
        }
    }

    /// The tag that the NIC inserts.
    pub open spec fn inserted_tag(self) -> Option<u16> {
        match self.wire() {
            Wire::HardwareTag(tci) => Some(tci),
            _ => None,
        }
    }

    /// Largest payload that the frame buffer takes, other than in the tunnel.
    pub open spec fn frame_limit(self) -> int {
        if self.wire() is SoftwareTag {
            udp::max_payload_tagged()
        } else {
            udp::max_payload()
        }
    }

    /// The error when a payload does not fit the frame buffer.
    pub open spec fn build_error(self, len: nat) -> Seq<char> {
        "packet build failed: "@ + udp::payload_too_large(self.frame_limit(), socket::nat_int(len)).text()
    }

    /// Checks whether a payload of `len` bytes can be sent to `dst`.
    fn check_send(&self, len: usize, dst: &SocketAddr) -> (r: Result<SocketAddrV4, IoError>)
        ensures
            match r {
                Ok(v4) => self.refusal(len as nat, *dst) is None && *dst == SocketAddr::V4(v4),
                Err(e) => {
                    &&& self.refusal(len as nat, *dst) matches Some(why)
                    &&& e.kind == ErrorKind::InvalidInput
                    &&& e.message@ == why.text()
                },
            },
    {
        if let SocketAddr::V6(_) = self.local_addr {
            return Err(IoError::new(ErrorKind::InvalidInput, "IPv6 not supported"));
        }
        let v4 = match *dst {
            SocketAddr::V4(v4) => v4,
            SocketAddr::V6(_) => {
                return Err(IoError::new(ErrorKind::InvalidInput, "IPv6 not supported"));
            },
        };
        let limit = self.max_gue_payload();
        if len > limit {
            let mut message = String::from_str("payload too large: ");
            append_decimal(&mut message, len as u64);
            message.append(" bytes exceeds max UDP payload ");
            append_decimal(&mut message, limit as u64);
            message.append(" (MTU ");
            append_decimal16(&mut message, self.routing_table.mtu());
            message.append(")");
            return Err(IoError { kind: ErrorKind::InvalidInput, message });
        }
        Ok(v4)
    }

    /// Builds the frame of a datagram for `dst`, handed to `mac`, into `tx_buf`.
    pub fn build_frame(
        &self,
        tx_buf: &mut Vec<u8>,
        payload: &[u8],
        dst: &SocketAddrV4,
        mac: &MacAddress,
    ) -> (r: Result<Option<u16>, IoError>)
        requires
            self.refusal(payload@.len(), SocketAddr::V4(*dst)) is None,
        ensures
            match r {
                Ok(hw_vlan_tci) => {
                    &&& self.wire() is Tunnel || payload@.len() <= self.frame_limit()
                    &&& hw_vlan_tci == self.inserted_tag()
                    &&& final(tx_buf)@ == self.sent_frame(payload@, *dst, mac@)
                },
                Err(e) => {
                    &&& !(self.wire() is Tunnel)
                    &&& payload@.len() > self.frame_limit()
                    &&& e.kind == ErrorKind::Other
                    &&& e.message@ == self.build_error(payload@.len())
                },
            },
    {
        let src = match self.local_addr {
            SocketAddr::V4(v4) => v4,
            SocketAddr::V6(_) => SocketAddrV4::new(Ipv4Addr::unspecified(), 0),
        };
        if let Some(config) = &self.gue_config {
            assert(payload@.len() <= gue::gue_max_payload());
            let _ = build_gue_frame_into(
                tx_buf,
                &self.local_mac,
                &mac.octets(),
                src.ip,
                config.remote_ip,
                config.local_port,
                config.remote_port,
                src.ip,
                dst.ip,
                src.port,
                dst.port,
                payload,
                self.ttl,
            );
            return Ok(None);
        }
        let mut hw_vlan_tci: Option<u16> = None;
        let built = match &self.vlan_config {
            Some(config) if config.tags_on_tx() && !(self.has_hw_vlan_insert()
                && !config.force_software) => build_udp_frame_into_vlan(
                tx_buf,
                &self.local_mac,
                &mac.octets(),
                src.ip,
                dst.ip,
                src.port,
                dst.port,
                payload,
                self.ttl,
                config,
            ),
            Some(config) => {
                if config.tags_on_tx() {
                    hw_vlan_tci = Some(config.encode_tci());
                }
                build_udp_frame_into(
                    tx_buf,
                    &self.local_mac,
                    &mac.octets(),
                    src.ip,
                    dst.ip,
                    src.port,
                    dst.port,
                    payload,
                    self.ttl,
                )
            },
            None => build_udp_frame_into(
                tx_buf,
                &self.local_mac,
                &mac.octets(),
                src.ip,
                dst.ip,
                src.port,
                dst.port,
                payload,
                self.ttl,
            ),
        };
        match built {
            Ok(_) => Ok(hw_vlan_tci),
            Err(e) => {
                let mut message = String::from_str("packet build failed: ");
                message.append(e.message().as_str());
                Err(IoError { kind: ErrorKind::Other, message })
            },
        }
    }
}

impl UdpSocket {
    /// Where a neighbour is, as far as the socket knows.
    pub open spec fn known_mac(self, ip: Ipv4Addr, now: u64) -> Option<Seq<u8>> {
        if ip == addr::ipv4_broadcast() {
            Some(addr::broadcast_mac())
        } else {
            match self.arp_handler.cache.find(ip, now) {
                Some(mac) => Some(mac@),
                None => None,
            }
        }
    }

    /// The socket after a neighbour was looked up.
    pub open spec fn with_lookup(self, hit: bool) -> UdpSocket {
        UdpSocket {
            perf_counters: if hit {
                PerfCounters {
                    arp_cache_hits: recv_queue::wrapped_sum(self.perf_counters.arp_cache_hits, 1),
                    ..self.perf_counters
                }
            } else {
                PerfCounters {
                    arp_cache_misses: recv_queue::wrapped_sum(
                        self.perf_counters.arp_cache_misses,
                        1,
                    ),
                    ..self.perf_counters
                }
            },
            ..self
        }
    }

    /// Where a datagram for `dst` is handed to, if the socket knows or does not ask.
    pub open spec fn chosen_mac(self, dst: Ipv4Addr, now: u64) -> Option<Seq<u8>> {
        match self.known_mac(self.neighbour(dst), now) {
            Some(mac) => Some(mac),
            None => if self.auto_arp {
                None
            } else {
                Some(self.dst_mac@)
            },
        }
    }

    /// Whether `r` is what building the frame of a datagram gives.
    pub open spec fn built(
        self,
        r: Result<SendStep, IoError>,
        tx_buf: Seq<u8>,
        payload: Seq<u8>,
        dst: SocketAddrV4,
        mac: Seq<u8>,
    ) -> bool {
        if self.wire() is Tunnel || payload.len() <= self.frame_limit() {
            &&& r == Ok::<SendStep, IoError>(
                SendStep::Transmit { hw_vlan_tci: self.inserted_tag() },
            )
            &&& tx_buf == self.sent_frame(payload, dst, mac)
        } else {
            r matches Err(e) && e.kind == ErrorKind::Other && e.message@ == self.build_error(
                payload.len(),
            )
        }
    }

    /// Starts to send a datagram: it is refused, its frame is in `tx_buf` and can be
    /// sent, or the neighbour must be resolved first.
    pub fn send_to_addr(
        &mut self,
        tx_buf: &mut Vec<u8>,
        buf: &[u8],
        addr: SocketAddr,
        now: u64,
    ) -> (r: Result<SendStep, IoError>)
        requires
            old(self).wf(),
        ensures
            final(self).wf(),
            final(self).send_started(*old(self), r, final(tx_buf)@, buf@, addr, now),
    {
        let dst = match self.check_send(buf.len(), &addr) {
            Ok(dst) => dst,
            Err(e) => return Err(e),
        };
        let far_end = match &self.gue_config {
            Some(config) => config.remote_ip,
            None => dst.ip,
        };
        let hop = self.routing_table.lookup(far_end).ip();
        let mac = match self.arp_handler.resolve(&hop, now) {
            Some(mac) => {
                self.perf_counters.arp_cache_hits = count(self.perf_counters.arp_cache_hits, 1);
                mac
            },
            None => {
                self.perf_counters.arp_cache_misses = count(
                    self.perf_counters.arp_cache_misses,
                    1,
                );
                if self.auto_arp {
                    return Ok(SendStep::Resolve(hop));
                }
                self.dst_mac
            },
        };
        assert(self.wire() == old(self).wire());
        match self.build_frame(tx_buf, buf, &dst, &mac) {
            Ok(hw_vlan_tci) => Ok(SendStep::Transmit { hw_vlan_tci }),
            Err(e) => Err(e),
        }
    }

    /// Whether `r` is what starting to send to `addr` gives.
    pub open spec fn send_started(
        self,
        before: UdpSocket,
        r: Result<SendStep, IoError>,
        tx_buf: Seq<u8>,
        payload: Seq<u8>,
        addr: SocketAddr,
        now: u64,
    ) -> bool {
        match before.refusal(payload.len(), addr) {
            Some(why) => r matches Err(e) && e.kind == ErrorKind::InvalidInput && e.message@
                == why.text() && self == before,
            None => {
                let dst = addr->V4_0;
                let hop = before.neighbour(dst.ip);
                &&& self == before.with_lookup(before.known_mac(hop, now) is Some)
                &&& match before.chosen_mac(dst.ip, now) {
                    Some(mac) => before.built(r, tx_buf, payload, dst, mac),
                    None => r == Ok::<SendStep, IoError>(SendStep::Resolve(hop)),
                }
            },
        }
    }

    /// Starts to send a datagram to an address. Without one it fails.
    pub fn send_to(
        &mut self,
        tx_buf: &mut Vec<u8>,
        buf: &[u8],
        addr: Option<SocketAddr>,
        now: u64,
    ) -> (r: Result<SendStep, IoError>)
        requires
            old(self).wf(),
        ensures
            final(self).wf(),
            match addr {
                Some(addr) => final(self).send_started(
                    *old(self),
                    r,
                    final(tx_buf)@,
                    buf@,
                    addr,
                    now,
                ),
                None => r matches Err(e) && e.kind == ErrorKind::InvalidInput && e.message@
                    == "Invalid address"@ && *final(self) == *old(self),
            },
    {
        match addr {
            Some(addr) => self.send_to_addr(tx_buf, buf, addr, now),
            None => Err(IoError::new(ErrorKind::InvalidInput, "Invalid address")),
        }
    }

    /// Starts to send a datagram to the peer. Without one it fails.
    pub fn send(&mut self, tx_buf: &mut Vec<u8>, buf: &[u8], now: u64) -> (r: Result<
        SendStep,
        IoError,
    >)
        requires
            old(self).wf(),
        ensures
            final(self).wf(),
            match old(self).connected_addr {
                Some(peer) => final(self).send_started(
                    *old(self),
                    r,
                    final(tx_buf)@,
                    buf@,
                    peer,
                    now,
                ),
                None => r matches Err(e) && e.kind == ErrorKind::NotConnected && e.message@
                    == "Socket not connected"@ && *final(self) == *old(self),
            },
    {
        match self.connected_addr {
            Some(peer) => self.send_to_addr(tx_buf, buf, peer, now),
            None => Err(IoError::new(ErrorKind::NotConnected, "Socket not connected")),
        }
    }

    /// Goes on to send a datagram when the neighbour is resolved.
    pub fn send_resolved(
        &self,
        tx_buf: &mut Vec<u8>,
        buf: &[u8],
        addr: SocketAddr,
        mac: &MacAddress,
    ) -> (r: Result<SendStep, IoError>)
        ensures
            match self.refusal(buf@.len(), addr) {
                Some(why) => r matches Err(e) && e.kind == ErrorKind::InvalidInput && e.message@
                    == why.text(),
                None => self.built(r, final(tx_buf)@, buf@, addr->V4_0, mac@),
            },
    {
        let dst = match self.check_send(buf.len(), &addr) {
            Ok(dst) => dst,
            Err(e) => return Err(e),
        };
        match self.build_frame(tx_buf, buf, &dst, mac) {
            Ok(hw_vlan_tci) => Ok(SendStep::Transmit { hw_vlan_tci }),
            Err(e) => Err(e),
        }
    }

    /// Whether a sent datagram of `len` bytes can be counted.
    pub open spec fn can_count_send(self, len: nat) -> bool {
        self.connection_state matches Some(state) ==> state.can_send(len)
    }

    /// Counts a datagram that was sent, and gives its length.
    pub fn record_sent(&mut self, len: usize) -> (r: usize)
        requires
            old(self).can_count_send(len as nat),
        ensures
            r == len,
            *final(self) == (UdpSocket {
                perf_counters: PerfCounters {
                    tx_packets: recv_queue::wrapped_sum(old(self).perf_counters.tx_packets, 1),
                    tx_bytes: recv_queue::wrapped_sum(
                        old(self).perf_counters.tx_bytes,
                        len as int,
                    ),
                    ..old(self).perf_counters
                },
                connection_state: match old(self).connection_state {
                    Some(state) => Some(state.with_send(len as nat)),
                    None => None,
                },
                ..*old(self)
            }),
    {
        self.perf_counters.tx_packets = count(self.perf_counters.tx_packets, 1);
        self.perf_counters.tx_bytes = count(self.perf_counters.tx_bytes, len as u64);
        match self.connection_state {
            Some(state) => {
                let mut state = state;
                state.record_send(len);
                self.connection_state = Some(state);
            },
            None => {},
        }
        len
    }

    /// Counts a send that failed.
    pub fn record_send_failure(&mut self)
        ensures
            *final(self) == (UdpSocket {
                perf_counters: PerfCounters {
                    tx_failures: recv_queue::wrapped_sum(old(self).perf_counters.tx_failures, 1),
                    ..old(self).perf_counters
                },
                ..*old(self)
            }),
    {
        self.perf_counters.tx_failures = count(self.perf_counters.tx_failures, 1);
    }
}

// ---------------------------------------------------------------------------
// Resolving a neighbour
// ---------------------------------------------------------------------------

/// The search for the Ethernet address of a neighbour.
#[derive(Debug, Clone, Copy)]
pub struct ArpResolution {
    pub target: Ipv4Addr,
    /// Requests whose time is over.
    pub attempt: u32,
    /// Polls since the last request.
    pub polls: u32,
}

/// What a search does after a poll.
#[derive(Debug, Clone)]
pub enum ArpStep {
    /// It has found the neighbour.
    Found(MacAddress),
    /// It waits and polls again.
    Wait,
    /// It waits, sends the request again, and polls.
    Repeat,
    /// It gives up.
    Failed(IoError),
}

impl ArpResolution {
    /// A search that can go on.
    pub open spec fn wf(self) -> bool {
        self.attempt < MAX_ARP_ATTEMPTS && self.polls < ARP_POLLS_PER_ATTEMPT
    }

    /// All polls so far.
    pub open spec fn total(self) -> int {
        self.attempt * ARP_POLLS_PER_ATTEMPT + self.polls
    }
}

impl UdpSocket {
    /// Starts the search for a neighbour: the state of the search and the request to send.
    /// A socket without an address of its own cannot ask.
    pub fn start_resolve(&self, target: Ipv4Addr) -> (r: Option<
        (ArpResolution, [u8; ETH_ARP_FRAME_LEN]),
    >)
        ensures
            r is Some <==> self.arp_handler.local_ips@.len() > 0,
            r matches Some(started) ==> started.0 == (ArpResolution {
                target,
                attempt: 0,
                polls: 0,
            }) && started.0.wf() && started.1@ == arp::request_frame(
                self.arp_handler.local_mac@,
                self.arp_handler.local_ips@[0],
                target,
            ),
    {
        match self.arp_handler.make_request(target) {
            Some(frame) => Some((ArpResolution { target, attempt: 0, polls: 0 }, frame)),
            None => None,
        }
    }

    /// A step of the search, after the frames of a poll were absorbed.
    pub fn resolve_arp(&self, search: &mut ArpResolution, now: u64) -> (r: ArpStep)
        requires
            old(search).wf(),
        ensures
            match self.known_mac(old(search).target, now) {
                Some(mac) => r matches ArpStep::Found(m) && m@ == mac && *final(search) == *old(
                    search,
                ),
                None => {
                    &&& final(search).target == old(search).target
                    &&& final(search).total() == old(search).total() + 1
                    &&& match r {
                        ArpStep::Found(_) => false,
                        ArpStep::Wait => final(search).wf() && final(search).polls > 0,
                        ArpStep::Repeat => final(search).wf() && final(search).polls == 0,
                        ArpStep::Failed(e) => {
                            &&& final(search).total() == MAX_ARP_ATTEMPTS * ARP_POLLS_PER_ATTEMPT
                            &&& e.kind == ErrorKind::AddrNotAvailable
                            &&& e.message@ == "ARP resolution failed for "@ + text::ipv4_text(
                                old(search).target,
                            ) + " after "@ + text::decimal32(MAX_ARP_ATTEMPTS) + " attempts"@
                        },
                    }
                },
            },
    {
        if let Some(mac) = self.arp_handler.resolve(&search.target, now) {
            return ArpStep::Found(mac);
        }
        if search.polls + 1 < ARP_POLLS_PER_ATTEMPT {
            search.polls = search.polls + 1;
            return ArpStep::Wait;
        }
        search.polls = 0;
        search.attempt = search.attempt + 1;
        if search.attempt < MAX_ARP_ATTEMPTS {
            return ArpStep::Repeat;
        }
        let mut message = String::from_str("ARP resolution failed for ");
        append_ipv4(&mut message, &search.target);
        message.append(" after ");
        append_decimal32(&mut message, MAX_ARP_ATTEMPTS);
        message.append(" attempts");
        ArpStep::Failed(IoError { kind: ErrorKind::AddrNotAvailable, message })
    }

    /// The socket after a frame came in while a neighbour was searched for, and the frame
    /// to send in reply: ARP packets are handled, and the payload of any UDP datagram goes
    /// to the receive queue. Only untagged frames count.
    pub open spec fn absorbed(
        self,
        before: UdpSocket,
        frame: Seq<u8>,
        now: u64,
        reply: Option<Seq<u8>>,
    ) -> bool {
        if frame.len() >= 14 && bytes::be16_at(frame, 12) == ETH_TYPE_ARP {
            match arp::arp_parse(frame) {
                Some(v) => {
                    &&& self.learned(before, v.sender_ip, v.sender_mac, now)
                    &&& reply == if v.operation == arp::ARP_OP_REQUEST
                        && before.arp_handler.local_ips@.contains(v.target_ip) {
                        Some(
                            arp::reply_frame(
                                before.arp_handler.local_mac@,
                                v.target_ip,
                                v.sender_mac,
                                v.sender_ip,
                            ),
                        )
                    } else {
                        None
                    }
                },
                None => self == before && reply is None,
            }
        } else if frame.len() >= 14 && bytes::be16_at(frame, 12) == ETH_TYPE_IPV4
            && udp::is_udp4_frame(frame) {
            let start = udp::ip4_payload_start(frame, 14);
            &&& self.learned_and_queued(
                before,
                addr::ipv4_at(frame, 26),
                frame.subrange(6, 12),
                now,
                udp::udp_payload_at(frame, start),
                socket::v4(addr::ipv4_at(frame, 26), bytes::be16_at(frame, start)),
            )
            &&& reply is None
        } else {
            self == before && reply is None
        }
    }

    /// The socket after it learned about a sender, whose payload went to the receive
    /// queue.
    pub open spec fn learned_and_queued(
        self,
        before: UdpSocket,
        src_ip: Ipv4Addr,
        src_mac: Seq<u8>,
        now: u64,
        payload: Seq<u8>,
        src: SocketAddr,
    ) -> bool {
        exists|taught: UdpSocket| #[trigger]
            taught.learned(before, src_ip, src_mac, now) && self.queued(taught, payload, src)
    }

    /// Takes a frame that came in while a neighbour was searched for, and gives the frame
    /// to send in reply.
    pub fn absorb(&mut self, frame: &[u8], now: u64) -> (r: Option<Vec<u8>>)
        requires
            old(self).wf(),
        ensures
            final(self).wf(),
            final(self).absorbed(*old(self), frame@, now, socket::reply_view(r)),
    {
        if frame.len() < 14 {
            return None;
        }
        let ethertype = read_be16(frame, 12);
        if ethertype == ETH_TYPE_ARP {
            return match self.arp_handler.process_arp(frame, now) {
                Some(reply) => Some(copy_bytes(&reply)),
                None => None,
            };
        }
        if ethertype != ETH_TYPE_IPV4 {
            return None;
        }
        if let Some(parsed) = parse_udp_packet_ref(frame) {
            let sender = MacAddress::new(parsed.src_mac);
            self.arp_handler.cache.insert(parsed.src_ip, sender, now);
            let ghost taught = *self;
            let src = SocketAddr::V4(SocketAddrV4::new(parsed.src_ip, parsed.src_port));
            self.enqueue(copy_bytes(parsed.payload), src);
            proof {
                assert(sender@ == parsed.src_mac@);
                assert(taught.learned(*old(self), parsed.src_ip, parsed.src_mac@, now));
                assert(self.learned_and_queued(
                    *old(self),
                    parsed.src_ip,
                    parsed.src_mac@,
                    now,
                    parsed.payload@,
                    src,
                ));
            }
        }
        None
    }
}

// ---------------------------------------------------------------------------
// Laws
// ---------------------------------------------------------------------------

/// What a frame with a datagram behind an Ethernet header is to a socket that listens on
/// its port.
proof fn lemma_datagram_is_received(
    receiver: UdpSocket,
    eth: Seq<u8>,
    src_ip: Ipv4Addr,
    dst: SocketAddrV4,
    src_port: u16,
    payload: Seq<u8>,
    ttl: u8,
    hw_vlan_tci: Option<u16>,
)
    requires
        UDP_HEADER_LEN + payload.len() <= 0xFFFF,
        ({
            let frame = eth + udp::udp4_packet(src_ip, dst.ip, src_port, dst.port, payload, ttl);
            &&& udp::ipv4_cksum_valid(frame)
            &&& udp::udp_cksum_valid(frame)
            &&& vlan::layout_of(frame, hw_vlan_tci) matches Some(layout)
            &&& layout.ethertype == ETH_TYPE_IPV4
            &&& layout.l3() == eth.len()
            &&& socket::vlan_passes(receiver.vlan_config, layout)
        }),
        receiver.gue_config matches Some(config) ==> config.local_port != dst.port,
    ensures
        ({
            let frame = eth + udp::udp4_packet(src_ip, dst.ip, src_port, dst.port, payload, ttl);
            receiver.rx_view(frame, dst.port, hw_vlan_tci) == (socket::RxView::Plain {
                src_ip,
                src_mac: frame.subrange(6, 12),
                src_port,
                dst_port: dst.port,
                payload,
            })
        }),
{
    let frame = eth + udp::udp4_packet(src_ip, dst.ip, src_port, dst.port, payload, ttl);
    let l3 = socket::nat_int(eth.len());
    udp::lemma_udp4_packet_at(eth, src_ip, dst.ip, src_port, dst.port, payload, ttl);
    let header = frame.subrange(l3, l3 + 20);
    assert(header[9] == IP_PROTO_UDP);
    assert(frame[l3 + 9] == header[9]);
    assert(udp::is_udp4_frame(frame));
}

/// A datagram that is sent untagged is received as it was sent by a socket that listens on
/// its destination, takes the VLAN that the NIC reports for the frame, and has no tunnel
/// on that port.
pub proof fn law_sent_frame_is_received(
    sender: UdpSocket,
    receiver: UdpSocket,
    payload: Seq<u8>,
    dst: SocketAddrV4,
    mac: [u8; 6],
    hw_vlan_tci: Option<u16>,
)
    requires
        sender.local_addr is V4,
        sender.wire() is Plain || sender.wire() is HardwareTag,
        payload.len() <= sender.frame_limit(),
        socket::vlan_passes(
            receiver.vlan_config,
            (vlan::FrameLayout {
                ethertype: ETH_TYPE_IPV4,
                l3_offset: ETH_HEADER_LEN,
                vlan_tci: hw_vlan_tci,
            }),
        ),
        receiver.gue_config matches Some(config) ==> config.local_port != dst.port,
    ensures
        receiver.rx_view(sender.sent_frame(payload, dst, mac@), dst.port, hw_vlan_tci) == (
        socket::RxView::Plain {
            src_ip: sender.local_addr->V4_0.ip,
            src_mac: sender.local_mac@,
            src_port: sender.local_addr->V4_0.port,
            dst_port: dst.port,
            payload,
        }),
{
    let src = sender.local_addr->V4_0;
    let eth = udp::eth_header(mac@, sender.local_mac@, ETH_TYPE_IPV4);
    let frame = sender.sent_frame(payload, dst, mac@);
    udp::law_built_checksums_verify(
        sender.local_mac,
        mac,
        src.ip,
        dst.ip,
        src.port,
        dst.port,
        payload,
        sender.ttl,
        0,
    );
    bytes::lemma_be16_round_trip(ETH_TYPE_IPV4);
    assert(eth.len() == 14);
    assert(frame[12] == bytes::be16_bytes(ETH_TYPE_IPV4)[0]);
    assert(frame[13] == bytes::be16_bytes(ETH_TYPE_IPV4)[1]);
    assert(frame.subrange(6, 12) =~= sender.local_mac@);
    lemma_datagram_is_received(
        receiver,
        eth,
        src.ip,
        dst,
        src.port,
        payload,
        sender.ttl,
        hw_vlan_tci,
    );
}

/// A datagram that is sent with a tag in its frame is received as it was sent by a socket
/// that listens on its destination, takes that VLAN, and has no tunnel on that port.
pub proof fn law_tagged_frame_is_received(
    sender: UdpSocket,
    receiver: UdpSocket,
    payload: Seq<u8>,
    dst: SocketAddrV4,
    mac: [u8; 6],
    tci: u16,
    hw_vlan_tci: Option<u16>,
)
    requires
        sender.local_addr is V4,
        sender.wire() == Wire::SoftwareTag(tci),
        payload.len() <= sender.frame_limit(),
        receiver.vlan_config matches Some(config) ==> config.accepts(Some(vlan::tci_vid(tci))),
        receiver.gue_config matches Some(config) ==> config.local_port != dst.port,
    ensures
        receiver.rx_view(sender.sent_frame(payload, dst, mac@), dst.port, hw_vlan_tci) == (
        socket::RxView::Plain {
            src_ip: sender.local_addr->V4_0.ip,
            src_mac: sender.local_mac@,
            src_port: sender.local_addr->V4_0.port,
            dst_port: dst.port,
            payload,
        }),
{
    let src = sender.local_addr->V4_0;
    let eth = udp::eth_header_tagged(mac@, sender.local_mac@, tci, ETH_TYPE_IPV4);
    let frame = sender.sent_frame(payload, dst, mac@);
    udp::law_built_checksums_verify(
        sender.local_mac,
        mac,
        src.ip,
        dst.ip,
        src.port,
        dst.port,
        payload,
        sender.ttl,
        tci,
    );
    bytes::lemma_be16_round_trip(ETH_TYPE_IPV4);
    bytes::lemma_be16_round_trip(ETH_TYPE_VLAN);
    bytes::lemma_be16_round_trip(tci);
    assert(eth.len() == 18);
    assert(frame[12] == bytes::be16_bytes(ETH_TYPE_VLAN)[0]);
    assert(frame[13] == bytes::be16_bytes(ETH_TYPE_VLAN)[1]);
    assert(frame[14] == bytes::be16_bytes(tci)[0]);
    assert(frame[15] == bytes::be16_bytes(tci)[1]);
    assert(frame[16] == bytes::be16_bytes(ETH_TYPE_IPV4)[0]);
    assert(frame[17] == bytes::be16_bytes(ETH_TYPE_IPV4)[1]);
    assert(frame.subrange(6, 12) =~= sender.local_mac@);
    lemma_datagram_is_received(
        receiver,
        eth,
        src.ip,
        dst,
        src.port,
        payload,
        sender.ttl,
        hw_vlan_tci,
    );
}

/// A datagram that is sent through the tunnel is received, with the addresses it had
/// inside the tunnel, by a socket at the far end that listens on its destination.
pub proof fn law_tunnelled_frame_is_received(
    sender: UdpSocket,
    receiver: UdpSocket,
    payload: Seq<u8>,
    dst: SocketAddrV4,
    mac: [u8; 6],
    hw_vlan_tci: Option<u16>,
)
    requires
        sender.local_addr is V4,
        sender.wire() is Tunnel,
        payload.len() <= sender.send_limit(),
        socket::vlan_passes(
            receiver.vlan_config,
            (vlan::FrameLayout {
                ethertype: ETH_TYPE_IPV4,
                l3_offset: ETH_HEADER_LEN,
                vlan_tci: hw_vlan_tci,
            }),
        ),
        receiver.gue_config matches Some(config) && config.local_port
            == sender.gue_config->Some_0.remote_port,
    ensures
        receiver.rx_view(sender.sent_frame(payload, dst, mac@), dst.port, hw_vlan_tci) == (
        socket::RxView::Tunnelled { src: sender.local_addr, payload }),
{
    let src = sender.local_addr->V4_0;
    let config = sender.gue_config->Some_0;
    let frame = sender.sent_frame(payload, dst, mac@);
    let data = gue::gue_payload(src.ip, dst.ip, src.port, dst.port, payload);
    let eth = udp::eth_header(mac@, sender.local_mac@, ETH_TYPE_IPV4);
    gue::law_gue_round_trip(
        sender.local_mac,
        mac,
        src.ip,
        config.remote_ip,
        config.local_port,
        config.remote_port,
        src.ip,
        dst.ip,
        src.port,
        dst.port,
        payload,
        sender.ttl,
    );
    bytes::lemma_be16_round_trip(ETH_TYPE_IPV4);
    assert(eth.len() == 14);
    assert(frame[12] == bytes::be16_bytes(ETH_TYPE_IPV4)[0]);
    assert(frame[13] == bytes::be16_bytes(ETH_TYPE_IPV4)[1]);
}

/// Whether a search goes on or fails is settled by how often it has polled: it fails at
/// the last poll and not before.
pub proof fn law_search_is_bounded(before: ArpResolution, after: ArpResolution)
    requires
        before.wf(),
        after.total() == before.total() + 1,
    ensures
        after.total() <= 30_000,
        after.wf() ==> after.total() < 30_000,
        before.total() == before.attempt * 10_000 + before.polls,
        before.wf() <==> before.attempt < 3 && before.polls < 10_000,
{
}

} // verus!
