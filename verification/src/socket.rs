//! The state of a UDP socket: its settings, its receive buffer and what it does about
//! received frames.
//!
//! The socket holds no device. Frames come in and go out as bytes, and time comes in as
//! a number of nanoseconds on a clock that never runs backwards.

use std::collections::VecDeque;

use vstd::prelude::*;

use crate::addr::{Ipv4Addr, MacAddress, SocketAddr, SocketAddrV4};
use crate::arp;
use crate::arp::{ArpCache, ArpHandler, ETH_TYPE_ARP};
use crate::backend::{HwRxOffload, HwTxOffload};
use crate::bytes;
use crate::bytes::{copy_bytes, copy_prefix};
use crate::constants::{ETH_HEADER_LEN, ETH_TYPE_IPV4};
use crate::error::{ErrorKind, IoError};
use crate::gue;
use crate::gue::{try_decap_gue, GueConfig};
use crate::icmp;
use crate::icmp::{IcmpAction, IcmpHandler, IP_PROTO_ICMP};
use crate::recv_queue;
use crate::recv_queue::{count, ConnectionState, ReceiveQueue, RecvDropStats};
use crate::routing::RoutingTable;
use crate::udp;
use crate::udp::{parse_udp_packet_ref, verify_ipv4_checksum, verify_udp_checksum};
use crate::vlan;
use crate::vlan::{detect_vlan, strip_tag, vlan_id_of, VlanConfig};

verus! {

/// Most errors that wait in the error queue of a socket.
pub const MAX_ERROR_QUEUE: usize = 16;

/// Counters of a socket. They start again at zero when they overflow.
#[derive(Debug, Clone, Copy, PartialEq, Eq, Structural)]
pub struct PerfCounters {
    pub rx_packets: u64,
    pub rx_bytes: u64,
    pub rx_bursts: u64,
    pub rx_burst_sum: u64,
    pub rx_arp_handled: u64,
    pub rx_icmp_handled: u64,
    pub rx_drops_parse_fail: u64,
    pub rx_drops_buffer_full: u64,
    pub tx_packets: u64,
    pub tx_bytes: u64,
    pub tx_failures: u64,
    pub arp_cache_hits: u64,
    pub arp_cache_misses: u64,
}

impl PerfCounters {
    /// Counters that have counted nothing.
    pub open spec fn zero() -> PerfCounters {
        PerfCounters {
            rx_packets: 0,
            rx_bytes: 0,
            rx_bursts: 0,
            rx_burst_sum: 0,
            rx_arp_handled: 0,
            rx_icmp_handled: 0,
            rx_drops_parse_fail: 0,
            rx_drops_buffer_full: 0,
            tx_packets: 0,
            tx_bytes: 0,
            tx_failures: 0,
            arp_cache_hits: 0,
            arp_cache_misses: 0,
        }
    }

    pub fn new() -> (r: Self)
        ensures
            r == PerfCounters::zero(),
    {
        PerfCounters {
            rx_packets: 0,
            rx_bytes: 0,
            rx_bursts: 0,
            rx_burst_sum: 0,
            rx_arp_handled: 0,
            rx_icmp_handled: 0,
            rx_drops_parse_fail: 0,
            rx_drops_buffer_full: 0,
            tx_packets: 0,
            tx_bytes: 0,
            tx_failures: 0,
            arp_cache_hits: 0,
            arp_cache_misses: 0,
        }
    }

    /// The counters after a datagram with a payload of `len` bytes was received.
    pub open spec fn with_rx(self, len: nat) -> PerfCounters {
        PerfCounters {
            rx_packets: recv_queue::wrapped_sum(self.rx_packets, 1),
            rx_bytes: recv_queue::wrapped_sum(self.rx_bytes, nat_int(len)),
            ..self
        }
    }

    /// The counters after a payload found the receive buffer full.
    pub open spec fn with_buffer_full(self) -> PerfCounters {
        PerfCounters {
            rx_drops_buffer_full: recv_queue::wrapped_sum(self.rx_drops_buffer_full, 1),
            ..self
        }
    }
}

/// A natural number as an integer.
pub open spec fn nat_int(n: nat) -> int {
    n as int
}

/// What an error says.
pub struct ErrorView {
    pub kind: ErrorKind,
    pub message: Seq<char>,
}

/// What an error says.
pub open spec fn error_view(e: IoError) -> ErrorView {
    ErrorView { kind: e.kind, message: e.message@ }
}

/// What errors say.
pub open spec fn error_views(errors: Seq<IoError>) -> Seq<ErrorView> {
    errors.map_values(|e: IoError| error_view(e))
}

/// A UDP socket.
pub struct UdpSocket {
    pub local_addr: SocketAddr,
    /// Ethernet address of the backend.
    pub local_mac: [u8; 6],
    pub connected_addr: Option<SocketAddr>,
    pub ttl: u8,
    /// Ethernet address for destinations that are not resolved.
    pub dst_mac: MacAddress,
    /// Answers ARP, with the cache that the socket looks destinations up in.
    pub arp_handler: ArpHandler,
    /// The ARP cache of the DPDK port, where the socket is on another backend and looks
    /// destinations up in a cache of its own.
    pub port_arp_cache: Option<ArpCache>,
    pub icmp_handler: IcmpHandler,
    pub connection_state: Option<ConnectionState>,
    pub recv_queue: ReceiveQueue,
    /// Whether the pipeline has put packets into the receive queue.
    pub has_buffered_packets: bool,
    /// Answer ARP requests, and ask for addresses that are not known.
    pub auto_arp: bool,
    /// Answer echo requests.
    pub auto_icmp: bool,
    /// Announce the address when the socket is bound.
    pub auto_garp: bool,
    /// Nanoseconds that a receive waits, forever if `None`.
    pub read_timeout: Option<u128>,
    /// Nanoseconds that a send waits, forever if `None`.
    pub write_timeout: Option<u128>,
    pub routing_table: RoutingTable,
    pub vlan_config: Option<VlanConfig>,
    pub gue_config: Option<GueConfig>,
    pub rx_drops: RecvDropStats,
    pub error_queue: VecDeque<IoError>,
    pub perf_counters: PerfCounters,
    pub tx_offload: HwTxOffload,
    pub rx_offload: HwRxOffload,
    /// Name of the backend.
    pub backend_name: String,
    /// Whether the socket drives the DPDK port itself.
    pub dpdk: bool,
    /// Whether worker threads feed the socket.
    pub has_pipeline: bool,
    /// The worker whose ring is looked at first.
    pub recv_from_rr_index: usize,
}

/// The port of a socket address, 0 for IPv6.
pub open spec fn v4_port(addr: SocketAddr) -> u16 {
    match addr {
        SocketAddr::V4(a) => a.port,
        SocketAddr::V6(_) => 0,
    }
}

/// The IPv4 socket address of an address and a port.
pub open spec fn v4(ip: Ipv4Addr, port: u16) -> SocketAddr {
    SocketAddr::V4(SocketAddrV4 { ip, port })
}

// ---------------------------------------------------------------------------
// What a received frame is
// ---------------------------------------------------------------------------

/// What a received frame is to a socket.
pub enum RxView {
    /// Nothing: too short, from a foreign VLAN, or in a tunnel to another port.
    Ignored,
    /// An ARP packet.
    Arp,
    /// An ICMP message.
    Icmp,
    /// No UDP datagram with right checksums.
    Malformed,
    /// A datagram out of the tunnel.
    Tunnelled { src: SocketAddr, payload: Seq<u8> },
    /// A datagram.
    Plain {
        src_ip: Ipv4Addr,
        src_mac: Seq<u8>,
        src_port: u16,
        dst_port: u16,
        payload: Seq<u8>,
    },
}

/// What a received frame is to a socket.
pub enum RxFrame<'a> {
    Ignored,
    Arp,
    Icmp,
    Malformed,
    Tunnelled { src: SocketAddr, payload: &'a [u8] },
    Plain {
        src_ip: Ipv4Addr,
        src_mac: [u8; 6],
        src_port: u16,
        dst_port: u16,
        payload: &'a [u8],
    },
}

impl<'a> View for RxFrame<'a> {
    type V = RxView;

    open spec fn view(&self) -> RxView {
        match *self {
            RxFrame::Ignored => RxView::Ignored,
            RxFrame::Arp => RxView::Arp,
            RxFrame::Icmp => RxView::Icmp,
            RxFrame::Malformed => RxView::Malformed,
            RxFrame::Tunnelled { src, payload } => RxView::Tunnelled { src, payload: payload@ },
            RxFrame::Plain { src_ip, src_mac, src_port, dst_port, payload } => RxView::Plain {
                src_ip,
                src_mac: src_mac@,
                src_port,
                dst_port,
                payload: payload@,
            },
        }
    }
}

/// Whether the VLAN configuration lets a frame with this layout pass.
pub open spec fn vlan_passes(config: Option<VlanConfig>, layout: vlan::FrameLayout) -> bool {
    match config {
        Some(c) => c.accepts(vlan::layout_vid(layout)),
        None => true,
    }
}

/// Whether a frame with this layout carries a message of protocol 1 over IPv4.
pub open spec fn carries_control(frame: Seq<u8>, layout: vlan::FrameLayout) -> bool {
    layout.ethertype == ETH_TYPE_IPV4 && frame.len() > layout.l3() + 9 && frame[layout.l3() + 9]
        == IP_PROTO_ICMP
}

/// Where the inner packet of a frame out of the configured tunnel starts.
pub open spec fn tunnel_inner(
    config: Option<GueConfig>,
    frame: Seq<u8>,
    layout: vlan::FrameLayout,
) -> Option<int> {
    match config {
        Some(c) => if layout.ethertype == ETH_TYPE_IPV4 {
            gue::gue4_inner(frame, layout.l3(), c.local_port)
        } else {
            None
        },
        None => None,
    }
}

/// The source of the datagram at `l3`.
pub open spec fn source_at(frame: Seq<u8>, l3: int) -> SocketAddr {
    v4(crate::addr::ipv4_at(frame, l3 + 12), bytes::be16_at(frame, udp::ip4_payload_start(frame, l3)))
}

/// Whether a frame is a UDP datagram with right checksums.
pub open spec fn is_valid_udp(frame: Seq<u8>) -> bool {
    udp::is_udp4_frame(frame) && udp::ipv4_cksum_valid(frame) && udp::udp_cksum_valid(frame)
}

/// The datagram in a frame with this layout.
pub open spec fn plain_at(frame: Seq<u8>, layout: vlan::FrameLayout) -> RxView {
    let start = udp::ip4_payload_start(frame, layout.l3());
    RxView::Plain {
        src_ip: crate::addr::ipv4_at(frame, layout.l3() + 12),
        src_mac: frame.subrange(6, 12),
        src_port: bytes::be16_at(frame, start),
        dst_port: bytes::be16_at(frame, start + 2),
        payload: udp::udp_payload_at(frame, start),
    }
}

/// The datagram out of a tunnel whose inner packet starts at `inner`, if it is for the
/// port.
pub open spec fn tunnelled_at(frame: Seq<u8>, inner: int, port: u16) -> RxView {
    let start = udp::ip4_payload_start(frame, inner);
    if bytes::be16_at(frame, start + 2) != port {
        RxView::Ignored
    } else {
        RxView::Tunnelled {
            src: source_at(frame, inner),
            payload: udp::udp_payload_at(frame, start),
        }
    }
}

impl UdpSocket {
    /// The invariant of a socket.
    pub open spec fn wf(self) -> bool {
        self.recv_queue.wf() && self.routing_table.wf() && self.error_queue@.len()
            <= MAX_ERROR_QUEUE
    }

    /// What a received frame is to this socket, for a port. `hw_vlan_tci` is the tag
    /// control word that the NIC stripped off.
    pub open spec fn rx_view(self, frame: Seq<u8>, port: u16, hw_vlan_tci: Option<u16>) -> RxView {
        match vlan::layout_of(frame, hw_vlan_tci) {
            Some(layout) => if !vlan_passes(self.vlan_config, layout) {
                RxView::Ignored
            } else if layout.ethertype == ETH_TYPE_ARP && self.auto_arp {
                RxView::Arp
            } else if carries_control(frame, layout) {
                RxView::Icmp
            } else {
                match tunnel_inner(self.gue_config, frame, layout) {
                    Some(inner) => tunnelled_at(frame, inner, port),
                    None => if is_valid_udp(frame) {
                        plain_at(frame, layout)
                    } else {
                        RxView::Malformed
                    },
                }
            },
            None => RxView::Ignored,
        }
    }

    /// Finds out what a received frame is to this socket.
    pub fn classify<'a>(
        &self,
        frame: &'a [u8],
        port: u16,
        hw_vlan_tci: Option<u16>,
    ) -> (r: RxFrame<'a>)
        ensures
            r@ == self.rx_view(frame@, port, hw_vlan_tci),
            match r {
                RxFrame::Tunnelled { payload, .. } => payload@.len() <= frame@.len(),
                RxFrame::Plain { payload, .. } => payload@.len() <= frame@.len(),
                _ => true,
            },
    {
        let layout = match detect_vlan(frame, hw_vlan_tci) {
            Some(layout) => layout,
            None => return RxFrame::Ignored,
        };
        if let Some(config) = &self.vlan_config {
            if !config.accepts_frame(vlan_id_of(&layout)) {
                return RxFrame::Ignored;
            }
        }
        if layout.ethertype == ETH_TYPE_ARP && self.auto_arp {
            return RxFrame::Arp;
        }
        if layout.ethertype == ETH_TYPE_IPV4 && frame.len() > layout.l3_offset + 9
            && frame[layout.l3_offset + 9] == IP_PROTO_ICMP {
            return RxFrame::Icmp;
        }
        if let Some(config) = &self.gue_config {
            if layout.ethertype == ETH_TYPE_IPV4 {
                if let Some(decap) = try_decap_gue(frame, layout.l3_offset, config.local_port) {
                    if decap.inner_dst_port != port {
                        return RxFrame::Ignored;
                    }
                    return RxFrame::Tunnelled {
                        src: SocketAddr::V4(
                            SocketAddrV4::new(decap.inner_src_ip, decap.inner_src_port),
                        ),
                        payload: decap.payload,
                    };
                }
            }
        }
        let parsed = match parse_udp_packet_ref(frame) {
            Some(parsed) => parsed,
            None => return RxFrame::Malformed,
        };
        if !verify_ipv4_checksum(frame) || !verify_udp_checksum(frame) {
            return RxFrame::Malformed;
        }
        RxFrame::Plain {
            src_ip: parsed.src_ip,
            src_mac: parsed.src_mac,
            src_port: parsed.src_port,
            dst_port: parsed.dst_port,
            payload: parsed.payload,
        }
    }
}

// ---------------------------------------------------------------------------
// What a socket does about a received frame
// ---------------------------------------------------------------------------

/// Bytes received, and who sent them.
pub type Received = Option<(usize, SocketAddr)>;

/// The error that a frame queues on a socket: that of an error message about a
/// datagram that one of the addresses sent from the port.
pub open spec fn queued_error(frame: Seq<u8>, ips: Seq<Ipv4Addr>, port: u16) -> Option<ErrorView> {
    match (icmp::request_for(frame, ips), icmp::icmp_error_of(frame)) {
        (None, Some(info)) => if ips.contains(info.original_src_ip) && info.original_src_port
            == port {
            Some(
                ErrorView {
                    kind: icmp::error_kind(info.icmp_type, info.icmp_code),
                    message: info.cause() + " (from "@ + crate::text::ipv4_text(info.error_source)
                        + ")"@,
                },
            )
        } else {
            None
        },
        _ => None,
    }
}

/// The echo reply to a frame.
pub open spec fn echo_reply(frame: Seq<u8>, ips: Seq<Ipv4Addr>, mac: Seq<u8>) -> Option<Seq<u8>> {
    match icmp::request_for(frame, ips) {
        Some(v) => Some(icmp::icmp_frame(v.reply_from(mac))),
        None => None,
    }
}

/// The queue after an error arrived: with it at the end, or as it was if it is full.
pub open spec fn with_error(queue: Seq<ErrorView>, error: Option<ErrorView>) -> Seq<ErrorView> {
    match error {
        Some(e) => if queue.len() < MAX_ERROR_QUEUE {
            queue.push(e)
        } else {
            queue
        },
        None => queue,
    }
}

/// The bytes of an optional vector.
pub open spec fn reply_view(reply: Option<Vec<u8>>) -> Option<Seq<u8>> {
    match reply {
        Some(b) => Some(b@),
        None => None,
    }
}

impl UdpSocket {
    /// Whether the socket takes datagrams from `src`: any, or those of its peer.
    pub open spec fn wants(self, src: SocketAddr) -> bool {
        self.connected_addr is None || self.connected_addr == Some(src)
    }

    /// Whether a received datagram of `len` bytes can be counted.
    pub open spec fn can_count(self, len: nat) -> bool {
        self.connection_state matches Some(state) ==> state.can_recv(len)
    }

    /// The socket after a payload went to the receive queue, or was dropped because the
    /// queue is full.
    pub open spec fn queued(self, before: UdpSocket, payload: Seq<u8>, src: SocketAddr) -> bool {
        &&& self.recv_queue.offered(before.recv_queue, payload, src)
        &&& self == (UdpSocket {
            recv_queue: self.recv_queue,
            rx_drops: if before.recv_queue.has_room(payload.len()) {
                before.rx_drops
            } else {
                before.rx_drops.with_drop(payload.len())
            },
            perf_counters: if before.recv_queue.has_room(payload.len()) {
                before.perf_counters
            } else {
                before.perf_counters.with_buffer_full()
            },
            ..before
        })
    }

    /// The socket after `len` bytes were handed to the caller, which are counted for a
    /// connection.
    pub open spec fn counted(self, before: UdpSocket, len: nat) -> bool {
        self == (UdpSocket {
            connection_state: match before.connection_state {
                Some(state) => Some(state.with_recv(len)),
                None => None,
            },
            ..before
        })
    }

    /// The socket, the buffer and the result after a datagram for the socket came in. The
    /// first one goes to the buffer; others, and those of strangers to a connected
    /// socket, go to the receive queue.
    pub open spec fn delivered(
        self,
        before: UdpSocket,
        payload: Seq<u8>,
        src: SocketAddr,
        counted: bool,
        old_buf: Seq<u8>,
        buf: Seq<u8>,
        old_result: Received,
        result: Received,
    ) -> bool {
        if before.wants(src) && old_result is None {
            &&& result matches Some(got) && got.0 == bytes::fitting(old_buf.len(), payload.len())
                && got.1 == src
            &&& buf == bytes::overlaid(old_buf, payload)
            &&& if counted {
                self.counted(before, bytes::fitting(old_buf.len(), payload.len()))
            } else {
                self == before
            }
        } else {
            &&& result == old_result
            &&& buf == old_buf
            &&& self.queued(before, payload, src)
        }
    }

    /// The socket after it learned where `ip` is.
    pub open spec fn learned(self, before: UdpSocket, ip: Ipv4Addr, mac: Seq<u8>, now: u64) -> bool {
        &&& arp::learned(before.arp_handler.cache@, self.arp_handler.cache@, ip, mac, now)
        &&& self == (UdpSocket {
            arp_handler: ArpHandler {
                cache: self.arp_handler.cache,
                ..before.arp_handler
            },
            ..before
        })
    }

    /// The socket after a datagram with a payload of `len` bytes was counted.
    pub open spec fn with_rx(self, len: nat) -> UdpSocket {
        UdpSocket { perf_counters: self.perf_counters.with_rx(len), ..self }
    }

    /// The socket, the buffer and the result after a frame was received, and the frame to
    /// send in reply.
    pub open spec fn received(
        self,
        before: UdpSocket,
        view: RxView,
        frame: Seq<u8>,
        port: u16,
        now: u64,
        old_buf: Seq<u8>,
        buf: Seq<u8>,
        old_result: Received,
        result: Received,
        reply: Option<Seq<u8>>,
    ) -> bool {
        match view {
            RxView::Ignored => {
                &&& self == before
                &&& buf == old_buf
                &&& result == old_result
                &&& reply is None
            },
            RxView::Malformed => {
                &&& self == (UdpSocket {
                    perf_counters: PerfCounters {
                        rx_drops_parse_fail: recv_queue::wrapped_sum(
                            before.perf_counters.rx_drops_parse_fail,
                            1,
                        ),
                        ..before.perf_counters
                    },
                    ..before
                })
                &&& buf == old_buf
                &&& result == old_result
                &&& reply is None
            },
            RxView::Arp => {
                &&& buf == old_buf
                &&& result == old_result
                &&& self.arp_handled(before, frame, now, reply)
            },
            RxView::Icmp => {
                &&& buf == old_buf
                &&& result == old_result
                &&& self.control_handled(before, frame, reply)
            },
            RxView::Tunnelled { src, payload } => {
                &&& self.delivered(
                    before.with_rx(payload.len()),
                    payload,
                    src,
                    false,
                    old_buf,
                    buf,
                    old_result,
                    result,
                )
                &&& reply is None
            },
            RxView::Plain { src_ip, src_mac, src_port, dst_port, payload } => {
                &&& self.learned_and_passed_on(
                    before.with_rx(payload.len()),
                    src_ip,
                    src_mac,
                    now,
                    payload,
                    v4(src_ip, src_port),
                    dst_port == port,
                    old_buf,
                    buf,
                    old_result,
                    result,
                )
                &&& reply is None
            },
        }
    }

    /// The socket, the buffer and the result after a datagram came in from an address that
    /// the socket learned about.
    pub open spec fn learned_and_passed_on(
        self,
        before: UdpSocket,
        src_ip: Ipv4Addr,
        src_mac: Seq<u8>,
        now: u64,
        payload: Seq<u8>,
        src: SocketAddr,
        ours: bool,
        old_buf: Seq<u8>,
        buf: Seq<u8>,
        old_result: Received,
        result: Received,
    ) -> bool {
        exists|taught: UdpSocket| #[trigger]
            taught.learned(before, src_ip, src_mac, now) && self.passed_on(
                taught,
                payload,
                src,
                ours,
                old_buf,
                buf,
                old_result,
                result,
            )
    }

    /// The socket, the buffer and the result after a datagram came in that is for the
    /// socket or not.
    pub open spec fn passed_on(
        self,
        before: UdpSocket,
        payload: Seq<u8>,
        src: SocketAddr,
        ours: bool,
        old_buf: Seq<u8>,
        buf: Seq<u8>,
        old_result: Received,
        result: Received,
    ) -> bool {
        if ours {
            self.delivered(before, payload, src, true, old_buf, buf, old_result, result)
        } else {
            self == before && buf == old_buf && result == old_result
        }
    }

    /// The socket after an ARP packet came in, in a tagged or an untagged frame: it knows the
    /// sender, and answers a request for its address, in an untagged frame.
    pub open spec fn arp_handled(
        self,
        before: UdpSocket,
        frame: Seq<u8>,
        now: u64,
        reply: Option<Seq<u8>>,
    ) -> bool {
        let handled = PerfCounters {
            rx_arp_handled: recv_queue::wrapped_sum(before.perf_counters.rx_arp_handled, 1),
            ..before.perf_counters
        };
        match arp::arp_parse(vlan::untagged(frame)) {
            Some(v) => {
                &&& self.learned(
                    (UdpSocket { perf_counters: handled, ..before }),
                    v.sender_ip,
                    v.sender_mac,
                    now,
                )
                &&& reply == if v.operation == arp::ARP_OP_REQUEST
                    && before.arp_handler.local_ips@.contains(v.target_ip) {
                    Some(
                        arp::reply_frame(
                            before.arp_handler.local_mac@,
                            v.target_ip,
                            v.sender_mac,
                            v.sender_ip,
                        ),
                    )
                } else {
                    None
                }
            },
            None => self == (UdpSocket { perf_counters: handled, ..before }) && reply is None,
        }
    }

    /// The socket after an ICMP message came in: an error about a datagram of its own is
    /// queued, and an echo request is answered if the socket does that.
    pub open spec fn control_handled(
        self,
        before: UdpSocket,
        frame: Seq<u8>,
        reply: Option<Seq<u8>>,
    ) -> bool {
        &&& error_views(self.error_queue@) == with_error(
            error_views(before.error_queue@),
            queued_error(frame, before.icmp_handler.local_ips@, v4_port(before.local_addr)),
        )
        &&& self == (UdpSocket {
            error_queue: self.error_queue,
            perf_counters: PerfCounters {
                rx_icmp_handled: recv_queue::wrapped_sum(before.perf_counters.rx_icmp_handled, 1),
                ..before.perf_counters
            },
            ..before
        })
        &&& reply == if before.auto_icmp {
            echo_reply(frame, before.icmp_handler.local_ips@, before.icmp_handler.local_mac@)
        } else {
            None
        }
    }

    /// Counts a payload that found the receive buffer full.
    pub fn record_rx_drop(&mut self, payload_len: usize)
        ensures
            final(self).rx_drops == old(self).rx_drops.with_drop(payload_len as nat),
            *final(self) == (UdpSocket {
                rx_drops: final(self).rx_drops,
                perf_counters: old(self).perf_counters.with_buffer_full(),
                ..*old(self)
            }),
    {
        self.rx_drops.record(payload_len);
        self.perf_counters.rx_drops_buffer_full = count(
            self.perf_counters.rx_drops_buffer_full,
            1,
        );
    }

    /// Puts a payload into the receive queue, or counts it as dropped.
    pub fn enqueue(&mut self, payload: Vec<u8>, src: SocketAddr)
        requires
            old(self).recv_queue.wf(),
        ensures
            final(self).queued(*old(self), payload@, src),
    {
        let len = payload.len();
        match self.recv_queue.push(payload, src) {
            Ok(_) => {},
            Err(_) => {
                self.record_rx_drop(len);
            },
        }
    }

    /// Queues an error, unless the error queue is full.
    pub fn queue_icmp_error(&mut self, error: IoError)
        requires
            old(self).error_queue@.len() <= MAX_ERROR_QUEUE,
        ensures
            error_views(final(self).error_queue@) == with_error(
                error_views(old(self).error_queue@),
                Some(error_view(error)),
            ),
            final(self).error_queue@.len() <= MAX_ERROR_QUEUE,
            *final(self) == (UdpSocket { error_queue: final(self).error_queue, ..*old(self) }),
    {
        if self.error_queue.len() < MAX_ERROR_QUEUE {
            let ghost before = error_views(self.error_queue@);
            let ghost item = error_view(error);
            self.error_queue.push_back(error);
            assert(error_views(self.error_queue@) =~= before.push(item));
        }
    }

    /// Hands a datagram for this socket to the caller or to the receive queue.
    fn deliver(
        &mut self,
        payload: &[u8],
        src: SocketAddr,
        counted: bool,
        buf: &mut [u8],
        result: &mut Received,
    )
        requires
            old(self).recv_queue.wf(),
            *old(result) is None ==> old(self).can_count(old(buf)@.len()),
        ensures
            final(self).delivered(
                *old(self),
                payload@,
                src,
                counted,
                old(buf)@,
                final(buf)@,
                *old(result),
                *final(result),
            ),
    {
        let wanted = match self.connected_addr {
            Some(peer) => peer == src,
            None => true,
        };
        if wanted && result.is_none() {
            let len = copy_prefix(buf, payload);
            if counted {
                self.count_received(len);
            }
            *result = Some((len, src));
        } else {
            self.enqueue(copy_bytes(payload), src);
        }
    }

    /// Counts received bytes for a connection.
    pub fn count_received(&mut self, len: usize)
        requires
            old(self).can_count(len as nat),
        ensures
            final(self).counted(*old(self), len as nat),
    {
        match self.connection_state {
            Some(state) => {
                let mut state = state;
                state.record_recv(len);
                self.connection_state = Some(state);
            },
            None => {},
        }
    }

    /// Counts a received datagram.
    fn count_rx(&mut self, len: usize)
        ensures
            *final(self) == old(self).with_rx(len as nat),
    {
        self.perf_counters.rx_packets = count(self.perf_counters.rx_packets, 1);
        self.perf_counters.rx_bytes = count(self.perf_counters.rx_bytes, len as u64);
    }

    /// Learns where `ip` is.
    fn learn(&mut self, ip: Ipv4Addr, mac: [u8; 6], now: u64)
        ensures
            final(self).learned(*old(self), ip, mac@, now),
    {
        let mac_address = MacAddress::new(mac);
        self.arp_handler.cache.insert(ip, mac_address, now);
        assert(mac_address@ == mac@);
    }
}

impl UdpSocket {
    /// Handles an ARP packet, in a tagged or an untagged frame.
    fn handle_arp(&mut self, frame: &[u8], now: u64) -> (r: Option<Vec<u8>>)
        ensures
            final(self).arp_handled(*old(self), frame@, now, reply_view(r)),
    {
        let plain = strip_tag(frame);
        let reply = self.arp_handler.process_arp(plain.as_slice(), now);
        self.perf_counters.rx_arp_handled = count(self.perf_counters.rx_arp_handled, 1);
        match reply {
            Some(reply) => Some(copy_bytes(&reply)),
            None => None,
        }
    }

    /// Handles an ICMP message.
    fn handle_icmp(&mut self, frame: &[u8]) -> (r: Option<Vec<u8>>)
        requires
            old(self).error_queue@.len() <= MAX_ERROR_QUEUE,
        ensures
            final(self).control_handled(*old(self), frame@, reply_view(r)),
            final(self).error_queue@.len() <= MAX_ERROR_QUEUE,
    {
        let action = self.icmp_handler.process_icmp_full(frame);
        self.perf_counters.rx_icmp_handled = count(self.perf_counters.rx_icmp_handled, 1);
        match action {
            Some(IcmpAction::Reply(reply)) => if self.auto_icmp {
                Some(reply)
            } else {
                None
            },
            Some(IcmpAction::Error(info)) => {
                let port = match self.local_addr {
                    SocketAddr::V4(v4) => v4.port,
                    SocketAddr::V6(_) => 0,
                };
                if info.original_src_port == port {
                    self.queue_icmp_error(info.to_io_error());
                }
                None
            },
            None => None,
        }
    }

    /// Handles a received frame. The first datagram for `local_port` goes to `buf` and
    /// `result`; what it and the others do to the socket is in `received`. Gives the frame
    /// to send in reply.
    pub fn process_frame_zerocopy(
        &mut self,
        frame_data: &[u8],
        local_port: u16,
        buf: &mut [u8],
        result: &mut Received,
        hw_vlan_tci: Option<u16>,
        now: u64,
    ) -> (r: Option<Vec<u8>>)
        requires
            old(self).wf(),
            *old(result) is None ==> old(self).can_count(old(buf)@.len()),
        ensures
            final(self).wf(),
            final(buf)@.len() == old(buf)@.len(),
            final(self).received(
                *old(self),
                old(self).rx_view(frame_data@, local_port, hw_vlan_tci),
                frame_data@,
                local_port,
                now,
                old(buf)@,
                final(buf)@,
                *old(result),
                *final(result),
                reply_view(r),
            ),
    {
        let rx = self.classify(frame_data, local_port, hw_vlan_tci);
        match rx {
            RxFrame::Ignored => None,
            RxFrame::Malformed => {
                self.perf_counters.rx_drops_parse_fail = count(
                    self.perf_counters.rx_drops_parse_fail,
                    1,
                );
                None
            },
            RxFrame::Arp => self.handle_arp(frame_data, now),
            RxFrame::Icmp => self.handle_icmp(frame_data),
            RxFrame::Tunnelled { src, payload } => {
                self.count_rx(payload.len());
                self.deliver(payload, src, false, buf, result);
                None
            },
            RxFrame::Plain { src_ip, src_mac, src_port, dst_port, payload } => {
                self.count_rx(payload.len());
                self.learn(src_ip, src_mac, now);
                let ghost taught = *self;
                assert(taught.learned(
                    old(self).with_rx(payload@.len()),
                    src_ip,
                    src_mac@,
                    now,
                ));
                if dst_port == local_port {
                    let src = SocketAddr::V4(SocketAddrV4::new(src_ip, src_port));
                    self.deliver(payload, src, true, buf, result);
                }
                assert(self.passed_on(
                    taught,
                    payload@,
                    v4(src_ip, src_port),
                    dst_port == local_port,
                    old(buf)@,
                    buf@,
                    *old(result),
                    *result,
                ));
                assert(self.learned_and_passed_on(
                    old(self).with_rx(payload@.len()),
                    src_ip,
                    src_mac@,
                    now,
                    payload@,
                    v4(src_ip, src_port),
                    dst_port == local_port,
                    old(buf)@,
                    buf@,
                    *old(result),
                    *result,
                ));
                None
            },
        }
    }
}

/// A received frame, and the tag that the NIC stripped off it.
#[derive(Debug, Clone)]
pub struct RxBytes {
    pub data: Vec<u8>,
    pub hw_vlan_tci: Option<u16>,
}

/// A socket, a buffer, a result and the replies while frames of a burst are handled.
pub struct BurstState {
    pub socket: UdpSocket,
    pub buf: Seq<u8>,
    pub result: Received,
    pub replies: Seq<Seq<u8>>,
}

/// The replies with one more, if there is one.
pub open spec fn with_reply(replies: Seq<Seq<u8>>, reply: Option<Seq<u8>>) -> Seq<Seq<u8>> {
    match reply {
        Some(r) => replies.push(r),
        None => replies,
    }
}

impl BurstState {
    /// The state after one more frame.
    pub open spec fn after(self, before: BurstState, frame: RxBytes, port: u16, now: u64) -> bool {
        exists|reply: Option<Seq<u8>>| #[trigger]
            with_reply(before.replies, reply) == self.replies && self.socket.received(
                before.socket,
                before.socket.rx_view(frame.data@, port, frame.hw_vlan_tci),
                frame.data@,
                port,
                now,
                before.buf,
                self.buf,
                before.result,
                self.result,
                reply,
            )
    }
}

/// Whether `trace` are the states before, between and after the frames of a burst.
pub open spec fn is_trace(
    trace: Seq<BurstState>,
    frames: Seq<RxBytes>,
    port: u16,
    now: u64,
) -> bool {
    &&& trace.len() == frames.len() + 1
    &&& forall|i: int| 0 <= i < frames.len() ==> (#[trigger] trace[i + 1]).after(
        trace[i],
        frames[i],
        port,
        now,
    )
}

/// The bytes of the frames of a vector.
pub open spec fn frames_view(frames: Seq<Vec<u8>>) -> Seq<Seq<u8>> {
    frames.map_values(|f: Vec<u8>| f@)
}

/// What came of a burst.
pub struct Burst {
    /// The datagram that went to the buffer.
    pub result: Received,
    /// The frames to send in reply.
    pub replies: Vec<Vec<u8>>,
}

impl UdpSocket {
    /// The socket after a burst of `n` frames was counted.
    pub open spec fn with_burst(self, n: nat) -> UdpSocket {
        UdpSocket {
            perf_counters: PerfCounters {
                rx_bursts: recv_queue::wrapped_sum(self.perf_counters.rx_bursts, 1),
                rx_burst_sum: recv_queue::wrapped_sum(self.perf_counters.rx_burst_sum, nat_int(n)),
                ..self.perf_counters
            },
            ..self
        }
    }

    /// Counts a burst of `n` frames.
    fn count_burst(&mut self, n: usize)
        ensures
            *final(self) == old(self).with_burst(n as nat),
    {
        self.perf_counters.rx_bursts = count(self.perf_counters.rx_bursts, 1);
        self.perf_counters.rx_burst_sum = count(self.perf_counters.rx_burst_sum, n as u64);
    }

    /// Handles the frames of a burst one after the other. An empty burst does nothing.
    pub fn process_burst(&mut self, frames: &Vec<RxBytes>, buf: &mut [u8], now: u64) -> (r: Burst)
        requires
            old(self).wf(),
            old(self).can_count(old(buf)@.len()),
        ensures
            final(self).wf(),
            final(buf)@.len() == old(buf)@.len(),
            frames@.len() == 0 ==> *final(self) == *old(self) && final(buf)@ == old(buf)@
                && r.result is None && r.replies@.len() == 0,
            frames@.len() > 0 ==> exists|trace: Seq<BurstState>| #[trigger]
                is_trace(trace, frames@, v4_port(old(self).local_addr), now) && trace[0] == (
                BurstState {
                    socket: old(self).with_burst(frames@.len()),
                    buf: old(buf)@,
                    result: None,
                    replies: Seq::empty(),
                }) && trace.last() == (BurstState {
                    socket: *final(self),
                    buf: final(buf)@,
                    result: r.result,
                    replies: frames_view(r.replies@),
                }),
    {
        let mut result: Received = None;
        let mut replies: Vec<Vec<u8>> = Vec::new();
        if frames.len() == 0 {
            return Burst { result, replies };
        }
        let port = match self.local_addr {
            SocketAddr::V4(v4) => v4.port,
            SocketAddr::V6(_) => 0,
        };
        self.count_burst(frames.len());
        let ghost first = BurstState {
            socket: *self,
            buf: buf@,
            result: None,
            replies: Seq::empty(),
        };
        let ghost mut trace: Seq<BurstState> = seq![first];
        let mut i: usize = 0;
        assert(frames_view(replies@) =~= Seq::<Seq<u8>>::empty());
        assert(frames@.take(0) =~= Seq::<RxBytes>::empty());
        while i < frames.len()
            invariant
                i <= frames@.len(),
                frames@.len() > 0,
                self.wf(),
                buf@.len() == old(buf)@.len(),
                result is None ==> self.can_count(buf@.len()),
                is_trace(trace, frames@.take(i as int), port, now),
                trace[0] == first,
                trace.last() == (BurstState {
                    socket: *self,
                    buf: buf@,
                    result,
                    replies: frames_view(replies@),
                }),
            decreases frames@.len() - i,
        {
            let ghost before = trace.last();
            let ghost old_trace = trace;
            let ghost old_replies = frames_view(replies@);
            let reply = self.process_frame_zerocopy(
                frames[i].data.as_slice(),
                port,
                buf,
                &mut result,
                frames[i].hw_vlan_tci,
                now,
            );
            let ghost reply_bytes = reply_view(reply);
            match reply {
                Some(reply) => {
                    replies.push(reply);
                    assert(frames_view(replies@) =~= old_replies.push(reply@));
                },
                None => {},
            }
            proof {
                let next = BurstState {
                    socket: *self,
                    buf: buf@,
                    result,
                    replies: frames_view(replies@),
                };
                assert(with_reply(before.replies, reply_bytes) == next.replies);
                assert(next.after(before, frames@[i as int], port, now));
                trace = trace.push(next);
                assert forall|k: int| 0 <= k < i + 1 implies (#[trigger] trace[k + 1]).after(
                    trace[k],
                    frames@.take(i + 1)[k],
                    port,
                    now,
                ) by {
                    if k < i {
                        assert(old_trace[k + 1].after(
                            old_trace[k],
                            frames@.take(i as int)[k],
                            port,
                            now,
                        ));
                    }
                }
            }
            i = i + 1;
        }
        assert(frames@.take(frames@.len() as int) =~= frames@);
        assert(is_trace(trace, frames@, v4_port(old(self).local_addr), now));
        Burst { result, replies }
    }
}

// ---------------------------------------------------------------------------
// Receiving
// ---------------------------------------------------------------------------

/// What a receive does next.
#[derive(Debug, Clone, Copy)]
pub enum RecvStep {
    /// It is done: so many bytes came from there.
    Ready(usize, SocketAddr),
    /// It polls the backend.
    Poll,
}

impl UdpSocket {
    /// The socket and the buffer after the first queued payload was taken, if there is
    /// one.
    pub open spec fn popped(
        self,
        before: UdpSocket,
        old_buf: Seq<u8>,
        buf: Seq<u8>,
        result: Received,
    ) -> bool {
        if before.recv_queue@.len() == 0 {
            &&& result is None
            &&& buf == old_buf
            &&& self == before
        } else {
            &&& result matches Some(got) && got.0 == bytes::fitting(
                old_buf.len(),
                before.recv_queue@[0].payload.len(),
            ) && got.1 == before.recv_queue@[0].src
            &&& buf == bytes::overlaid(old_buf, before.recv_queue@[0].payload)
            &&& self.recv_queue@ == before.recv_queue@.skip(1)
        }
    }

    /// Takes the first queued payload.
    pub fn pop_buffered(&mut self, buf: &mut [u8]) -> (r: Received)
        requires
            old(self).recv_queue.wf(),
        ensures
            final(self).recv_queue.wf(),
            final(self).recv_queue.packet_limit() == old(self).recv_queue.packet_limit(),
            final(self).recv_queue.byte_limit() == old(self).recv_queue.byte_limit(),
            final(self).popped(*old(self), old(buf)@, final(buf)@, r),
            *final(self) == (UdpSocket { recv_queue: final(self).recv_queue, ..*old(self) }),
    {
        match self.recv_queue.pop() {
            Some((payload, src)) => {
                let len = copy_prefix(buf, payload.as_slice());
                Some((len, src))
            },
            None => None,
        }
    }

    /// The socket and the buffer after the first queued payload of `peer` was taken, if
    /// there is one.
    pub open spec fn picked(
        self,
        before: UdpSocket,
        peer: SocketAddr,
        old_buf: Seq<u8>,
        buf: Seq<u8>,
        result: Received,
    ) -> bool {
        match result {
            Some(got) => exists|i: int| #[trigger]
                recv_queue::first_from(before.recv_queue@, peer, i) && got.1 == peer && got.0
                    == bytes::fitting(old_buf.len(), before.recv_queue@[i].payload.len()) && buf
                    == bytes::overlaid(old_buf, before.recv_queue@[i].payload)
                    && self.recv_queue@ == before.recv_queue@.remove(i),
            None => {
                &&& recv_queue::none_from(before.recv_queue@, peer)
                &&& buf == old_buf
                &&& self == before
            },
        }
    }

    /// The socket and the buffer after a queued payload was taken: the first, or with
    /// `peer_only` the first of the peer if there is one.
    pub open spec fn taken(
        self,
        before: UdpSocket,
        peer_only: bool,
        old_buf: Seq<u8>,
        buf: Seq<u8>,
        result: Received,
    ) -> bool {
        match before.connected_addr {
            Some(peer) if peer_only => self.picked(before, peer, old_buf, buf, result),
            _ => self.popped(before, old_buf, buf, result),
        }
    }

    /// Takes a queued payload: the first, or with `peer_only` the first of the peer if the
    /// socket has one.
    pub fn take_buffered(&mut self, buf: &mut [u8], peer_only: bool) -> (r: Received)
        requires
            old(self).recv_queue.wf(),
        ensures
            final(self).recv_queue.wf(),
            final(self).recv_queue.packet_limit() == old(self).recv_queue.packet_limit(),
            final(self).recv_queue.byte_limit() == old(self).recv_queue.byte_limit(),
            final(self).taken(*old(self), peer_only, old(buf)@, final(buf)@, r),
            *final(self) == (UdpSocket { recv_queue: final(self).recv_queue, ..*old(self) }),
    {
        match self.connected_addr {
            Some(peer) if peer_only => match self.recv_queue.pop_from(peer) {
                Some(payload) => {
                    let len = copy_prefix(buf, payload.as_slice());
                    Some((len, peer))
                },
                None => None,
            },
            _ => self.pop_buffered(buf),
        }
    }

    /// Whether a wait that started at `started` has reached the read timeout.
    pub open spec fn timed_out(self, started: u64, now: u64) -> bool {
        self.read_timeout matches Some(limit) && now - started >= limit
    }

    /// Whether `r` is what a step of a receive that waits gives. It fails on an IPv6 socket
    /// and when the wait has reached the read timeout; otherwise it takes a queued payload
    /// or polls.
    pub open spec fn stepped(
        self,
        before: UdpSocket,
        peer_only: bool,
        old_buf: Seq<u8>,
        buf: Seq<u8>,
        started: u64,
        now: u64,
        r: Result<RecvStep, IoError>,
    ) -> bool {
        match r {
            Ok(step) => {
                &&& before.local_addr is V4
                &&& !before.timed_out(started, now)
                &&& match step {
                    RecvStep::Ready(len, src) => self.taken(
                        before,
                        peer_only,
                        old_buf,
                        buf,
                        Some((len, src)),
                    ),
                    RecvStep::Poll => self.taken(before, peer_only, old_buf, buf, None),
                }
            },
            Err(e) => {
                &&& buf == old_buf
                &&& self == before
                &&& if before.local_addr is V6 {
                    e.kind == ErrorKind::InvalidInput && e.message@ == "IPv6 not supported"@
                } else {
                    before.timed_out(started, now) && e.kind == ErrorKind::WouldBlock && e.message@
                        == "read timed out"@
                }
            },
        }
    }

    /// A step of a receive that waits.
    fn recv_step(&mut self, buf: &mut [u8], peer_only: bool, started: u64, now: u64) -> (r: Result<
        RecvStep,
        IoError,
    >)
        requires
            old(self).wf(),
            started <= now,
        ensures
            final(self).wf(),
            *final(self) == (UdpSocket { recv_queue: final(self).recv_queue, ..*old(self) }),
            final(self).stepped(*old(self), peer_only, old(buf)@, final(buf)@, started, now, r),
    {
        if let SocketAddr::V6(_) = self.local_addr {
            return Err(IoError::new(ErrorKind::InvalidInput, "IPv6 not supported"));
        }
        if let Some(limit) = self.read_timeout {
            if (now - started) as u128 >= limit {
                return Err(IoError::new(ErrorKind::WouldBlock, "read timed out"));
            }
        }
        match self.take_buffered(buf, peer_only) {
            Some((len, src)) => Ok(RecvStep::Ready(len, src)),
            None => Ok(RecvStep::Poll),
        }
    }

    /// A step of a receive that waits for a datagram of anyone. What strangers sent to a
    /// connected socket is handed out too, once it is in the receive queue.
    pub fn recv_from(&mut self, buf: &mut [u8], started: u64, now: u64) -> (r: Result<
        RecvStep,
        IoError,
    >)
        requires
            old(self).wf(),
            started <= now,
        ensures
            final(self).wf(),
            *final(self) == (UdpSocket { recv_queue: final(self).recv_queue, ..*old(self) }),
            final(self).stepped(*old(self), false, old(buf)@, final(buf)@, started, now, r),
    {
        self.recv_step(buf, false, started, now)
    }

    /// A step of a receive that waits for a datagram of the address that the socket is
    /// connected to. What others sent stays in the receive queue. A socket without a peer
    /// takes what anyone sends.
    pub fn recv(&mut self, buf: &mut [u8], started: u64, now: u64) -> (r: Result<RecvStep, IoError>)
        requires
            old(self).wf(),
            started <= now,
        ensures
            final(self).wf(),
            *final(self) == (UdpSocket { recv_queue: final(self).recv_queue, ..*old(self) }),
            final(self).stepped(*old(self), true, old(buf)@, final(buf)@, started, now, r),
    {
        self.recv_step(buf, true, started, now)
    }

    /// The first step of a receive that does not wait: it fails on an IPv6 socket, and
    /// otherwise takes a queued payload or polls once.
    pub fn try_recv_from(&mut self, buf: &mut [u8]) -> (r: Result<RecvStep, IoError>)
        requires
            old(self).wf(),
        ensures
            final(self).wf(),
            *final(self) == (UdpSocket { recv_queue: final(self).recv_queue, ..*old(self) }),
            match r {
                Ok(step) => {
                    &&& old(self).local_addr is V4
                    &&& match step {
                        RecvStep::Ready(len, src) => final(self).popped(
                            *old(self),
                            old(buf)@,
                            final(buf)@,
                            Some((len, src)),
                        ),
                        RecvStep::Poll => final(self).popped(
                            *old(self),
                            old(buf)@,
                            final(buf)@,
                            None,
                        ),
                    }
                },
                Err(e) => {
                    &&& old(self).local_addr is V6
                    &&& final(buf)@ == old(buf)@
                    &&& *final(self) == *old(self)
                    &&& e.kind == ErrorKind::InvalidInput
                    &&& e.message@ == "IPv6 not supported"@
                },
            },
    {
        if let SocketAddr::V6(_) = self.local_addr {
            return Err(IoError::new(ErrorKind::InvalidInput, "IPv6 not supported"));
        }
        match self.pop_buffered(buf) {
            Some((len, src)) => Ok(RecvStep::Ready(len, src)),
            None => Ok(RecvStep::Poll),
        }
    }

    // -----------------------------------------------------------------------
    // The receive buffer
    // -----------------------------------------------------------------------

    /// Number of queued packets.
    pub fn recv_queue_len(&self) -> (r: usize)
        ensures
            r == self.recv_queue@.len(),
    {
        self.recv_queue.len()
    }

    /// Most bytes that the receive buffer takes.
    pub fn recv_buffer_size(&self) -> (r: usize)
        ensures
            r == self.recv_queue.byte_limit(),
    {
        self.recv_queue.max_bytes()
    }

    /// Sets how many bytes the receive buffer takes: any number but 0. What is queued
    /// stays queued.
    pub fn set_recv_buffer_size(&mut self, bytes: usize) -> (r: Result<(), IoError>)
        requires
            old(self).wf(),
        ensures
            final(self).wf(),
            *final(self) == (UdpSocket { recv_queue: final(self).recv_queue, ..*old(self) }),
            final(self).recv_queue@ == old(self).recv_queue@,
            final(self).recv_queue.packet_limit() == old(self).recv_queue.packet_limit(),
            match r {
                Ok(_) => bytes != 0 && final(self).recv_queue.byte_limit() == bytes,
                Err(e) => bytes == 0 && final(self).recv_queue == old(self).recv_queue && e.kind
                    == ErrorKind::InvalidInput && e.message@ == "recv buffer size must be > 0"@,
            },
    {
        if bytes == 0 {
            return Err(IoError::new(ErrorKind::InvalidInput, "recv buffer size must be > 0"));
        }
        self.recv_queue.set_max_bytes(bytes);
        Ok(())
    }

    /// Bytes in the queued payloads.
    pub fn recv_buffer_bytes(&self) -> (r: usize)
        requires
            self.wf(),
        ensures
            r == recv_queue::total_bytes(self.recv_queue@),
    {
        self.recv_queue.bytes()
    }

    /// What was dropped because the receive buffer was full.
    pub fn recv_drops(&self) -> (r: RecvDropStats)
        ensures
            r == self.rx_drops,
    {
        self.rx_drops
    }

    /// Sets the drop counters to zero.
    pub fn reset_recv_drops(&mut self)
        ensures
            *final(self) == (UdpSocket {
                rx_drops: RecvDropStats { packets: 0, bytes: 0 },
                ..*old(self)
            }),
    {
        self.rx_drops = RecvDropStats { packets: 0, bytes: 0 };
    }

    // -----------------------------------------------------------------------
    // The error queue
    // -----------------------------------------------------------------------

    /// Takes the error that waits longest.
    pub fn take_error(&mut self) -> (r: Result<Option<IoError>, IoError>)
        ensures
            *final(self) == (UdpSocket { error_queue: final(self).error_queue, ..*old(self) }),
            r is Ok,
            match r->Ok_0 {
                Some(e) => {
                    &&& old(self).error_queue@.len() > 0
                    &&& e == old(self).error_queue@[0]
                    &&& final(self).error_queue@ == old(self).error_queue@.skip(1)
                },
                None => old(self).error_queue@.len() == 0 && final(self).error_queue@ == old(
                    self,
                ).error_queue@,
            },
    {
        let r = self.error_queue.pop_front();
        proof {
            if old(self).error_queue@.len() > 0 {
                assert(self.error_queue@ =~= old(self).error_queue@.skip(1));
            }
        }
        Ok(r)
    }

    /// How many errors wait.
    pub fn pending_errors(&self) -> (r: usize)
        ensures
            r == self.error_queue@.len(),
    {
        self.error_queue.len()
    }

    /// Whether an error waits.
    pub fn has_pending_error(&self) -> (r: bool)
        ensures
            r == (self.error_queue@.len() > 0),
    {
        self.error_queue.len() > 0
    }
}

// ---------------------------------------------------------------------------
// Laws
// ---------------------------------------------------------------------------

/// A datagram for the socket is never lost unnoticed: it goes to the caller, to the end of
/// the receive queue, or into the drop counters.
pub proof fn law_datagram_is_accounted_for(
    before: UdpSocket,
    after: UdpSocket,
    payload: Seq<u8>,
    src: SocketAddr,
    counted: bool,
    old_buf: Seq<u8>,
    buf: Seq<u8>,
    old_result: Received,
    result: Received,
)
    requires
        after.delivered(before, payload, src, counted, old_buf, buf, old_result, result),
    ensures
        ({
            ||| old_result is None && (result matches Some(got) && got.1 == src)
                && after.recv_queue == before.recv_queue && after.rx_drops == before.rx_drops
            ||| after.recv_queue@ == before.recv_queue@.push(
                recv_queue::QueuedView { payload, src },
            ) && after.rx_drops == before.rx_drops && result == old_result
            ||| after.recv_queue@ == before.recv_queue@ && after.rx_drops
                == before.rx_drops.with_drop(payload.len()) && result == old_result
        }),
{
}

/// What a stranger sends to a connected socket does not go to the buffer of the caller.
pub proof fn law_strangers_are_not_handed_out(
    before: UdpSocket,
    after: UdpSocket,
    peer: SocketAddr,
    payload: Seq<u8>,
    src: SocketAddr,
    counted: bool,
    old_buf: Seq<u8>,
    buf: Seq<u8>,
    old_result: Received,
    result: Received,
)
    requires
        after.delivered(before, payload, src, counted, old_buf, buf, old_result, result),
        before.connected_addr == Some(peer),
        src != peer,
    ensures
        result == old_result,
        buf == old_buf,
{
}

/// A receive from the peer hands out a payload that the peer sent, the oldest one, and
/// leaves all others in the queue and in order.
pub proof fn law_recv_is_from_the_peer(
    before: UdpSocket,
    after: UdpSocket,
    peer: SocketAddr,
    old_buf: Seq<u8>,
    buf: Seq<u8>,
    got: (usize, SocketAddr),
)
    requires
        after.taken(before, true, old_buf, buf, Some(got)),
        before.connected_addr == Some(peer),
    ensures
        got.1 == peer,
        exists|i: int| #[trigger]
            recv_queue::first_from(before.recv_queue@, peer, i) && after.recv_queue@
                == before.recv_queue@.remove(i),
{
}

/// A payload that fits the buffer arrives whole, and one that does not is cut off.
pub proof fn law_payload_arrives_in_buffer(
    before: UdpSocket,
    after: UdpSocket,
    payload: Seq<u8>,
    src: SocketAddr,
    counted: bool,
    old_buf: Seq<u8>,
    buf: Seq<u8>,
    result: Received,
)
    requires
        after.delivered(before, payload, src, counted, old_buf, buf, None, result),
        before.wants(src),
    ensures
        buf.len() == old_buf.len(),
        result matches Some(got) && got.1 == src && buf.take(usize_int(got.0)) == payload.take(
            usize_int(got.0),
        ) && (payload.len() <= old_buf.len() ==> got.0 == payload.len()),
{
    let n = nat_int(bytes::fitting(old_buf.len(), payload.len()));
    assert(buf.take(n) =~= payload.take(n));
}

/// A length as an integer.
pub open spec fn usize_int(n: usize) -> int {
    n as int
}

/// The error queue never holds more errors than it may, and what is in it stays in it and
/// in order while errors arrive.
pub proof fn law_error_queue_is_bounded(queue: Seq<ErrorView>, error: Option<ErrorView>)
    requires
        queue.len() <= 16,
    ensures
        with_error(queue, error).len() <= 16,
        with_error(queue, error).take(nat_int(queue.len())) == queue,
{
    assert(with_error(queue, error).take(nat_int(queue.len())) =~= queue);
}

/// An ARP packet in a tagged frame is handled as one whose tag the NIC stripped: the same
/// frames pass, and they teach the socket the same and get the same reply.
pub proof fn law_tagged_arp_is_handled_alike(
    before: UdpSocket,
    after: UdpSocket,
    frame: Seq<u8>,
    tci: u16,
    port: u16,
    now: u64,
    reply: Option<Seq<u8>>,
)
    requires
        frame.len() >= ETH_HEADER_LEN,
        bytes::be16_at(frame, 12) == ETH_TYPE_ARP,
    ensures
        before.rx_view(vlan::tagged(frame, tci), port, None) is Arp <==> before.rx_view(
            frame,
            port,
            Some(tci),
        ) is Arp,
        after.arp_handled(before, vlan::tagged(frame, tci), now, reply) <==> after.arp_handled(
            before,
            frame,
            now,
            reply,
        ),
{
    vlan::law_untagged_undoes_tagged(frame, tci);
}

} // verus!
