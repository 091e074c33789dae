//! What a socket keeps and hands out, as seen from outside: binding, queues, waits, offloads and
//! worker threads.

use std::collections::VecDeque;

use vstd::prelude::*;

use crate::addr;
use crate::addr::{Ipv4Addr, Ipv6Addr, SocketAddr, SocketAddrV4};
use crate::arp;
use crate::arp::{ArpCache, ArpCacheEntry, ProcArpEntry};
use crate::backend;
use crate::backend::HwTxOffload;
use crate::bind::{BackendInfo, DetectedNetwork, EphemeralPorts, UdpSocketBuilder};
use crate::bytes;
use crate::checksum;
use crate::error::{ErrorKind, IoError, UdpError, UdpResult};
use crate::frame_pool;
use crate::frame_pool::{AppPacket, FramePool};
use crate::icmp;
use crate::icmpv6;
use crate::pipeline;
use crate::recv_queue;
use crate::recv_queue::{QueuedView, ReceiveQueue};
use crate::settings;
use crate::socket;
use crate::socket::{Received, RecvStep, UdpSocket};
use crate::synthetic;
use crate::udp;
use crate::wire_laws;

verus! {

// ---------------------------------------------------------------------------
// The receive queue
// ---------------------------------------------------------------------------

/// A payload goes to the end of the queue exactly if there are fewer packets than the limit and
/// the bytes of all payloads with it stay within theirs. Nothing else in the queue changes.
pub proof fn law_when_a_payload_is_queued(
    before: ReceiveQueue,
    after: ReceiveQueue,
    payload: Seq<u8>,
    src: SocketAddr,
)
    requires
        after.offered(before, payload, src),
    ensures
        before@.len() < before.packet_limit() && recv_queue::total_bytes(before@) + payload.len()
            <= before.byte_limit() ==> after@ == before@.push(QueuedView { payload, src }),
        before@.len() >= before.packet_limit() || recv_queue::total_bytes(before@) + payload.len()
            > before.byte_limit() ==> after@ == before@,
{
}

/// The bytes in a queue are those of its payloads, added up.
pub proof fn law_bytes_add_up(packets: Seq<QueuedView>, p: QueuedView)
    ensures
        recv_queue::total_bytes(Seq::<QueuedView>::empty()) == 0,
        recv_queue::total_bytes(packets.push(p)) == recv_queue::total_bytes(packets)
            + p.payload.len(),
{
    assert(packets.push(p).drop_last() =~= packets);
}

/// A receive that has not waited too long hands out the oldest payload in the queue, as much of it
/// as the buffer holds, with its source, and leaves the others; with an empty queue it polls.
pub proof fn law_receive_hands_out_the_oldest(
    before: UdpSocket,
    after: UdpSocket,
    old_buf: Seq<u8>,
    buf: Seq<u8>,
    started: u64,
    now: u64,
    r: Result<RecvStep, IoError>,
)
    requires
        after.stepped(before, false, old_buf, buf, started, now, r),
        before.local_addr is V4,
        before.read_timeout matches Some(limit) ==> now - started < limit,
        old_buf.len() <= usize::MAX,
    ensures
        before.recv_queue@.len() == 0 ==> r == Ok::<RecvStep, IoError>(RecvStep::Poll) && buf
            == old_buf && after == before,
        before.recv_queue@.len() > 0 ==> {
            let first = before.recv_queue@[0];
            let n = if first.payload.len() < old_buf.len() {
                first.payload.len() as int
            } else {
                old_buf.len() as int
            };
            &&& r matches Ok(RecvStep::Ready(len, src)) && len == n && src == first.src
            &&& buf.len() == old_buf.len()
            &&& forall|k: int| 0 <= k < n ==> #[trigger] buf[k] == first.payload[k]
            &&& forall|k: int| n <= k < buf.len() ==> #[trigger] buf[k] == old_buf[k]
            &&& after.recv_queue@.len() == before.recv_queue@.len() - 1
            &&& forall|k: int|
                0 <= k < after.recv_queue@.len() ==> #[trigger] after.recv_queue@[k]
                    == before.recv_queue@[k + 1]
        },
{
}

/// A receive from the peer that has not waited too long hands out the oldest payload that the peer
/// sent and leaves the others, in order; where the peer has sent none of them it polls.
pub proof fn law_receive_waits_for_the_peer(
    before: UdpSocket,
    after: UdpSocket,
    peer: SocketAddr,
    old_buf: Seq<u8>,
    buf: Seq<u8>,
    started: u64,
    now: u64,
    r: Result<RecvStep, IoError>,
)
    requires
        after.stepped(before, true, old_buf, buf, started, now, r),
        before.local_addr is V4,
        before.connected_addr == Some(peer),
        before.read_timeout matches Some(limit) ==> now - started < limit,
        old_buf.len() <= usize::MAX,
    ensures
        (forall|k: int|
            0 <= k < before.recv_queue@.len() ==> #[trigger] before.recv_queue@[k].src != peer)
            ==> r == Ok::<RecvStep, IoError>(RecvStep::Poll) && buf == old_buf && after == before,
        forall|i: int|
            0 <= i < before.recv_queue@.len() && before.recv_queue@[i].src == peer && (forall|k: int|
                0 <= k < i ==> #[trigger] before.recv_queue@[k].src != peer) ==> {
                let found = #[trigger] before.recv_queue@[i];
                let n = if found.payload.len() < old_buf.len() {
                    found.payload.len() as int
                } else {
                    old_buf.len() as int
                };
                &&& r matches Ok(RecvStep::Ready(len, src)) && len == n && src == peer
                &&& buf.len() == old_buf.len()
                &&& forall|k: int| 0 <= k < n ==> #[trigger] buf[k] == found.payload[k]
                &&& after.recv_queue@ == before.recv_queue@.remove(i)
            },
{
    assert forall|i: int|
        0 <= i < before.recv_queue@.len() && before.recv_queue@[i].src == peer && (forall|k: int|
            0 <= k < i ==> #[trigger] before.recv_queue@[k].src != peer) implies {
        let found = #[trigger] before.recv_queue@[i];
        let n = if found.payload.len() < old_buf.len() {
            found.payload.len() as int
        } else {
            old_buf.len() as int
        };
        &&& r matches Ok(RecvStep::Ready(len, src)) && len == n && src == peer
        &&& buf.len() == old_buf.len()
        &&& forall|k: int| 0 <= k < n ==> #[trigger] buf[k] == found.payload[k]
        &&& after.recv_queue@ == before.recv_queue@.remove(i)
    } by {
        let q = before.recv_queue@;
        match r {
            Ok(RecvStep::Ready(len, src)) => {
                let j = choose|j: int| #[trigger]
                    recv_queue::first_from(q, peer, j) && src == peer && len == bytes::fitting(
                        old_buf.len(),
                        q[j].payload.len(),
                    ) && buf == bytes::overlaid(old_buf, q[j].payload) && after.recv_queue@
                        == q.remove(j);
                assert(i == j);
            },
            _ => {},
        }
    }
}

/// A receive fails as one that would block exactly if the time since it started has reached the
/// read timeout, and never without one. It then changes nothing.
pub proof fn law_when_a_receive_times_out(
    before: UdpSocket,
    after: UdpSocket,
    peer_only: bool,
    old_buf: Seq<u8>,
    buf: Seq<u8>,
    started: u64,
    now: u64,
    r: Result<RecvStep, IoError>,
)
    requires
        after.stepped(before, peer_only, old_buf, buf, started, now, r),
        before.local_addr is V4,
    ensures
        r is Err <==> (before.read_timeout matches Some(limit) && now - started >= limit),
        r matches Err(e) ==> e.kind == ErrorKind::WouldBlock && buf == old_buf && after == before,
{
}

/// A received datagram that is counted adds one packet and its bytes to the statistics of the
/// connection, and changes nothing else.
pub proof fn law_what_is_counted(before: UdpSocket, after: UdpSocket, len: nat)
    requires
        after.counted(before, len),
        before.can_count(len),
    ensures
        before.connection_state is None ==> after == before,
        before.connection_state matches Some(old_state) ==> {
            &&& after.connection_state matches Some(state)
            &&& state.packets_received == old_state.packets_received + 1
            &&& state.bytes_received == old_state.bytes_received + len
            &&& state.packets_sent == old_state.packets_sent
            &&& state.bytes_sent == old_state.bytes_sent
            &&& state.local_addr == old_state.local_addr
            &&& state.remote_addr == old_state.remote_addr
        },
        after == (UdpSocket { connection_state: after.connection_state, ..before }),
{
}

// ---------------------------------------------------------------------------
// Binding
// ---------------------------------------------------------------------------

/// Binding an IPv4 address always succeeds, and gives that address; for port 0 it gives a port from
/// 32768 to 60999, the one behind the last that was handed out, and the first again behind the
/// last. Another port leaves the ports alone. An IPv6 address, or none, is refused.
pub proof fn law_which_address_is_bound(
    r: Result<UdpSocket, IoError>,
    addr: Option<SocketAddr>,
    backend: BackendInfo,
    name: Seq<char>,
    dpdk: bool,
    port_cache: Option<ArpCache>,
    cache: ArpCache,
    detected: Option<DetectedNetwork>,
    mtu: Option<u16>,
    now: u64,
    old_ports: EphemeralPorts,
    ports: EphemeralPorts,
)
    requires
        UdpSocket::bound(
            r,
            addr,
            backend,
            name,
            dpdk,
            port_cache,
            cache,
            detected,
            mtu,
            now,
            old_ports,
            ports,
        ),
    ensures
        r is Ok <==> addr matches Some(SocketAddr::V4(_)),
        r matches Err(e) ==> e.kind == ErrorKind::InvalidInput && ports == old_ports,
        addr matches Some(SocketAddr::V4(a)) ==> {
            &&& r matches Ok(socket)
            &&& socket.local_addr matches SocketAddr::V4(local)
            &&& local.ip == a.ip
            &&& a.port != 0 ==> local.port == a.port && ports == old_ports
            &&& a.port == 0 ==> {
                &&& 32768 <= local.port <= 60999
                &&& 32768 <= old_ports.next <= 60999 ==> local.port == old_ports.next
                &&& !(32768 <= old_ports.next <= 60999) ==> local.port == 32768
                &&& ports.next == local.port + 1
            }
        },
{
}

/// A bound socket has the Ethernet address of its backend, also for ARP and ICMP, for the address
/// it is bound to and no other. It is not connected, answers ARP and echo requests, announces
/// itself, waits forever, sends with time to live 64, and has no VLAN, tunnel, or queued payload or
/// error. Its receive buffer takes 4096 packets and 262144 bytes.
pub proof fn law_what_a_bound_socket_is(
    socket: UdpSocket,
    local: SocketAddrV4,
    backend: BackendInfo,
    name: Seq<char>,
    dpdk: bool,
)
    requires
        socket.is_fresh(local, backend, name, dpdk),
    ensures
        socket.local_addr == SocketAddr::V4(local),
        socket.local_mac == backend.mac,
        socket.arp_handler.local_mac == backend.mac,
        socket.arp_handler.local_ips@.len() == 1 && socket.arp_handler.local_ips@[0] == local.ip,
        socket.connected_addr is None && socket.connection_state is None,
        socket.ttl == 64,
        forall|k: int| 0 <= k < 6 ==> #[trigger] socket.dst_mac.octets@[k] == 255,
        socket.recv_queue@.len() == 0 && socket.recv_queue.packet_limit() == 4096
            && socket.recv_queue.byte_limit() == 262144,
        socket.auto_arp && socket.auto_garp,
        socket.read_timeout is None && socket.write_timeout is None,
        socket.vlan_config is None && socket.gue_config is None,
        socket.error_queue@.len() == 0,
        socket.rx_drops.packets == 0 && socket.rx_drops.bytes == 0,
        socket.tx_offload == backend.tx_offload && socket.rx_offload == backend.rx_offload,
        socket.backend_name@ == name,
        socket.dpdk == dpdk,
        !socket.has_pipeline,
{
}

/// A bound socket answers ICMP for its address.
pub proof fn law_a_bound_socket_answers_echoes(
    socket: UdpSocket,
    local: SocketAddrV4,
    backend: BackendInfo,
    name: Seq<char>,
    dpdk: bool,
)
    requires
        socket.is_fresh(local, backend, name, dpdk),
    ensures
        socket.auto_icmp,
        socket.icmp_handler.local_mac == backend.mac,
        socket.icmp_handler.local_ips@.len() == 1 && socket.icmp_handler.local_ips@[0] == local.ip,
{
}

/// A socket that is bound routes by the network that was detected for its address, none for
/// 0.0.0.0, with an MTU of 1500 where none was detected; and with the MTU of the port if that is
/// given and larger. It knows the neighbours of that network.
pub proof fn law_how_a_bound_socket_routes(
    r: Result<UdpSocket, IoError>,
    a: SocketAddrV4,
    backend: BackendInfo,
    name: Seq<char>,
    dpdk: bool,
    port_cache: Option<ArpCache>,
    cache: ArpCache,
    detected: Option<DetectedNetwork>,
    mtu: Option<u16>,
    now: u64,
    old_ports: EphemeralPorts,
    ports: EphemeralPorts,
)
    requires
        UdpSocket::bound(
            r,
            Some(SocketAddr::V4(a)),
            backend,
            name,
            dpdk,
            port_cache,
            cache,
            detected,
            mtu,
            now,
            old_ports,
            ports,
        ),
    ensures
        ({
            let any = a.ip.a == 0 && a.ip.b == 0 && a.ip.c == 0 && a.ip.d == 0;
            let table = r->Ok_0.routing_table;
            &&& any || detected is None ==> table.subnet is None && r->Ok_0.arp_handler.cache@
                == cache@ && (mtu is None ==> table.mtu == 1500)
            &&& !any && detected is Some ==> {
                let network = detected->Some_0;
                &&& table.subnet matches Some(s)
                &&& s.local_ip == network.config.local_ip
                &&& s.prefix_len == network.config.prefix_len
                &&& s.gateway == network.config.gateway
                &&& mtu is None ==> table.mtu == network.config.mtu
                &&& r->Ok_0.arp_handler.cache@ == arp::seeded(cache@, network.arp_entries@, now)
            }
            &&& mtu matches Some(m) ==> {
                let own = if any || detected is None {
                    1500u16
                } else {
                    detected->Some_0.config.mtu
                };
                table.mtu == if own < m {
                    m
                } else {
                    own
                }
            }
            &&& r->Ok_0.port_arp_cache == port_cache
        }),
{
}

/// A builder with a network gives a socket the subnet, the gateway, the MTU, the VLAN and the
/// tunnel of that network, and one without leaves the socket as it is.
pub proof fn law_what_a_builder_sets(builder: UdpSocketBuilder, socket: UdpSocket)
    ensures
        builder.network_config is None ==> builder.applied(socket) == socket,
        builder.network_config matches Some(config) ==> {
            let made = builder.applied(socket);
            &&& made.vlan_config == config.vlan
            &&& made.gue_config == config.gue
            &&& made.routing_table.mtu == config.mtu
            &&& made.routing_table.subnet matches Some(s)
            &&& s.local_ip == config.local_ip
            &&& s.prefix_len == config.prefix_len
            &&& s.gateway == config.gateway
            &&& made == (UdpSocket {
                vlan_config: made.vlan_config,
                gue_config: made.gue_config,
                routing_table: made.routing_table,
                ..socket
            })
        },
{
}

/// Entries that go to the cache one after the other are found there: for each address the last
/// entry, and for an address without one what was found before.
pub proof fn law_seeded_entries_are_found(
    before: ArpCache,
    after: ArpCache,
    entries: Seq<ProcArpEntry>,
    now: u64,
    ip: Ipv4Addr,
    i: int,
)
    requires
        after@ == arp::seeded(before@, entries, now),
    ensures
        0 <= i < entries.len() && entries[i].ip == ip && (forall|k: int|
            i < k < entries.len() ==> #[trigger] entries[k].ip != ip) ==> (after.find(
            ip,
            now,
        ) matches Some(m) && m.octets == entries[i].mac),
        (forall|k: int| 0 <= k < entries.len() ==> #[trigger] entries[k].ip != ip) ==> after.find(
            ip,
            now,
        ) == before.find(ip, now),
{
    lemma_seeded(before@, entries, now, ip, i);
}

/// What a cache holds for an address after entries were put into it.
proof fn lemma_seeded(
    before: Map<u32, ArpCacheEntry>,
    entries: Seq<ProcArpEntry>,
    now: u64,
    ip: Ipv4Addr,
    i: int,
)
    ensures
        ({
            let after = arp::seeded(before, entries, now);
            let key = arp::cache_key(ip);
            &&& 0 <= i < entries.len() && entries[i].ip == ip && (forall|k: int|
                i < k < entries.len() ==> #[trigger] entries[k].ip != ip) ==> after.contains_key(key)
                && after[key].mac.octets == entries[i].mac && after[key].timestamp == now
            &&& (forall|k: int| 0 <= k < entries.len() ==> #[trigger] entries[k].ip != ip)
                ==> after.contains_key(key) == before.contains_key(key) && after[key] == before[key]
        }),
    decreases entries.len(),
{
    if entries.len() > 0 {
        let fewer = entries.drop_last();
        let last = entries.last();
        lemma_seeded(before, fewer, now, ip, i);
        assert(forall|k: int| 0 <= k < fewer.len() ==> #[trigger] fewer[k] == entries[k]);
        if arp::cache_key(last.ip) == arp::cache_key(ip) {
            addr::lemma_ipv4_number_injective(last.ip, ip);
            assert(entries[entries.len() - 1].ip == ip);
        }
        if 0 <= i < entries.len() - 1 && entries[i].ip == ip && (forall|k: int|
            i < k < entries.len() ==> #[trigger] entries[k].ip != ip) {
            assert(entries[entries.len() - 1].ip != ip);
        }
    }
}

// ---------------------------------------------------------------------------
// Multicast
// ---------------------------------------------------------------------------

/// A multicast group, 224 to 239 in its first octet, has the Ethernet address 01:00:5e and its
/// last 23 bits: two groups have the same exactly if those bits agree.
pub proof fn law_multicast_addresses(group: Ipv4Addr, other: Ipv4Addr)
    ensures
        settings::is_multicast_group(group) <==> group.a / 16 == 14,
        ({
            let m = settings::multicast_mac4(group);
            &&& m.len() == 6
            &&& m[0] == 1 && m[1] == 0 && m[2] == 0x5e
            &&& m[3] * 0x1_0000 + m[4] * 256 + m[5] == (group.b * 0x1_0000 + group.c * 256
                + group.d) % 0x80_0000
        }),
        settings::multicast_mac4(group) == settings::multicast_mac4(other) <==> (group.b * 0x1_0000
            + group.c * 256 + group.d) % 0x80_0000 == (other.b * 0x1_0000 + other.c * 256 + other.d)
            % 0x80_0000,
{
    let m = settings::multicast_mac4(group);
    let n = settings::multicast_mac4(other);
    lemma_low_bits(group);
    lemma_low_bits(other);
    if m == n {
        assert(m[3] == n[3] && m[4] == n[4] && m[5] == n[5]);
    } else if m[3] == n[3] && m[4] == n[4] && m[5] == n[5] {
        assert(m =~= n);
    }
}

/// The last 23 bits of an address.
proof fn lemma_low_bits(ip: Ipv4Addr)
    ensures
        (ip.b * 0x1_0000 + ip.c * 256 + ip.d) % 0x80_0000 == ip.b % 128 * 0x1_0000 + ip.c * 256
            + ip.d,
{
    let q = ip.b / 128;
    let r = ip.b % 128;
    assert(ip.b * 0x1_0000 == q * 0x80_0000 + r * 0x1_0000);
}

// ---------------------------------------------------------------------------
// Offloads
// ---------------------------------------------------------------------------

/// What a NIC is told and given. Checksums are left to it only where it computes them and the frame
/// has 42 bytes: then the field of the IPv4 header, at 24, holds zero, and the field of the UDP
/// header, at 40, holds the sum of both addresses, of 17 and of the UDP length, up to multiples of
/// 65535. Everything else stays. The tag is left to it only where it inserts tags.
pub proof fn law_what_is_left_to_the_nic(
    frame: Seq<u8>,
    offload: HwTxOffload,
    hw_vlan_tci: Option<u16>,
)
    ensures
        ({
            let meta = backend::tx_metadata(frame.len(), offload, hw_vlan_tci);
            let s = backend::offloaded(frame, meta);
            &&& meta.vlan_tci == if offload.vlan_insert {
                hw_vlan_tci
            } else {
                None
            }
            &&& meta.ip_cksum <==> offload.ipv4_cksum && frame.len() >= 42
            &&& meta.udp_cksum <==> offload.udp_cksum && frame.len() >= 42
            &&& s.len() == frame.len()
            &&& meta.ip_cksum ==> s[24] == 0 && s[25] == 0
            &&& !meta.ip_cksum && frame.len() >= 42 ==> s[24] == frame[24] && s[25] == frame[25]
            &&& meta.udp_cksum ==> {
                let sum = checksum::word_sum(frame.subrange(26, 34)) + 17 + (frame[38] * 256
                    + frame[39]);
                let field = s[40] * 256 + s[41];
                &&& field > 0
                &&& (sum - field) % 65535 == 0
            }
            &&& !meta.udp_cksum && frame.len() >= 42 ==> s[40] == frame[40] && s[41] == frame[41]
            &&& forall|k: int|
                0 <= k < frame.len() && k != 24 && k != 25 && k != 40 && k != 41 ==> #[trigger] s[k]
                    == frame[k]
        }),
{
    let meta = backend::tx_metadata(frame.len(), offload, hw_vlan_tci);
    if meta.udp_cksum {
        let src = frame.subrange(26, 30);
        let dst = frame.subrange(30, 34);
        assert(frame.subrange(26, 34) =~= src + dst);
        checksum::lemma_word_sum_concat(src, dst);
        checksum::lemma_word_sum_bounds(src);
        checksum::lemma_word_sum_bounds(dst);
        let n = udp::pseudo_sum(src, dst, bytes::be16_at(frame, 38) as int);
        let cksum = backend::frame_pseudo_cksum(frame);
        lemma_folded_difference(n);
        bytes::lemma_be16_round_trip(cksum);
    }
}

/// Folding takes a multiple of 65535 off.
proof fn lemma_folded_difference(n: int)
    requires
        0 < n < 0x1_0000_0000,
    ensures
        0 < checksum::folded(checksum::wrapped(n)) <= 65535,
        (n - checksum::folded(checksum::wrapped(n))) % 65535 == 0,
{
    let q = (n - 1) / 65535;
    assert(n - checksum::folded(n) == q * 65535);
    vstd::arithmetic::div_mod::lemma_mod_multiples_basic(q, 65535);
}

// ---------------------------------------------------------------------------
// Worker threads
// ---------------------------------------------------------------------------

/// A poll of the rings that finds a packet hands out its payload to a socket that has no peer or
/// whose peer sent it: as much as the buffer holds, out of the slot of the packet, with the source.
/// The slot is then free again, behind those that were free, and no slot changes.
pub proof fn law_workers_packet_is_handed_out(
    before: UdpSocket,
    after: UdpSocket,
    index: usize,
    packet: AppPacket,
    old_pool: FramePool,
    pool: FramePool,
    counted: bool,
    old_buf: Seq<u8>,
    buf: Seq<u8>,
    result: Received,
)
    requires
        after.polled(
            before,
            index,
            Some(packet),
            old_pool,
            pool,
            counted,
            old_buf,
            buf,
            result,
        ),
        before.connected_addr is None || before.connected_addr == Some(packet.src_addr),
        old_buf.len() <= usize::MAX,
        pipeline::lies_in(packet, old_pool, old_buf.len()),
        old_pool.slot(packet.frame_ref.pool_idx).len() == old_pool.slot_size(),
    ensures
        ({
            let n = if packet.payload_len < old_buf.len() {
                packet.payload_len as int
            } else {
                old_buf.len() as int
            };
            &&& result matches Some(got) && got.0 == n && got.1 == packet.src_addr
            &&& buf.len() == old_buf.len()
            &&& forall|k: int|
                0 <= k < n ==> #[trigger] buf[k] == old_pool.slot(
                    packet.frame_ref.pool_idx,
                )[packet.payload_offset + k]
            &&& forall|k: int| n <= k < buf.len() ==> #[trigger] buf[k] == old_buf[k]
        }),
        pool.free_indices() == old_pool.free_indices().push(packet.frame_ref.pool_idx),
        forall|i: u32| #[trigger] pool.slot(i) == old_pool.slot(i),
        after.recv_queue == before.recv_queue,
{
}

/// A poll of the pipeline that looks for what anyone sent hands out the oldest queued payload
/// before it looks at the rings: as much as the buffer holds, with its source. The others stay in
/// order, and so do the rings and the pool.
pub proof fn law_queued_payloads_come_before_the_rings(
    before: UdpSocket,
    after: UdpSocket,
    old_rings: Seq<Seq<AppPacket>>,
    rings: Seq<Seq<AppPacket>>,
    old_pool: FramePool,
    pool: FramePool,
    counted: bool,
    old_buf: Seq<u8>,
    buf: Seq<u8>,
    result: Received,
)
    requires
        after.pipeline_polled(
            before,
            old_rings,
            rings,
            old_pool,
            pool,
            counted,
            false,
            old_buf,
            buf,
            result,
        ),
        before.has_buffered_packets,
        before.recv_queue@.len() > 0,
        old_buf.len() <= usize::MAX,
    ensures
        ({
            let first = before.recv_queue@[0];
            let n = if first.payload.len() < old_buf.len() {
                first.payload.len() as int
            } else {
                old_buf.len() as int
            };
            &&& result matches Some(got) && got.0 == n && got.1 == first.src
            &&& buf.len() == old_buf.len()
            &&& forall|k: int| 0 <= k < n ==> #[trigger] buf[k] == first.payload[k]
            &&& forall|k: int| n <= k < buf.len() ==> #[trigger] buf[k] == old_buf[k]
            &&& after.recv_queue@ == before.recv_queue@.skip(1)
        }),
        rings == old_rings,
        pool == old_pool,
{
}

/// A poll of the pipeline that looks for what the peer sent hands out the oldest queued payload of
/// the peer before it looks at the rings. Those of others stay, in order.
pub proof fn law_queued_payloads_of_the_peer_come_before_the_rings(
    before: UdpSocket,
    after: UdpSocket,
    peer: SocketAddr,
    i: int,
    old_rings: Seq<Seq<AppPacket>>,
    rings: Seq<Seq<AppPacket>>,
    old_pool: FramePool,
    pool: FramePool,
    counted: bool,
    old_buf: Seq<u8>,
    buf: Seq<u8>,
    result: Received,
)
    requires
        after.pipeline_polled(
            before,
            old_rings,
            rings,
            old_pool,
            pool,
            counted,
            true,
            old_buf,
            buf,
            result,
        ),
        before.has_buffered_packets,
        before.connected_addr == Some(peer),
        0 <= i < before.recv_queue@.len(),
        before.recv_queue@[i].src == peer,
        forall|k: int| 0 <= k < i ==> #[trigger] before.recv_queue@[k].src != peer,
        old_buf.len() <= usize::MAX,
    ensures
        ({
            let found = before.recv_queue@[i];
            let n = if found.payload.len() < old_buf.len() {
                found.payload.len() as int
            } else {
                old_buf.len() as int
            };
            &&& result matches Some(got) && got.0 == n && got.1 == peer
            &&& buf.len() == old_buf.len()
            &&& forall|k: int| 0 <= k < n ==> #[trigger] buf[k] == found.payload[k]
            &&& after.recv_queue@ == before.recv_queue@.remove(i)
        }),
        rings == old_rings,
        pool == old_pool,
{
    let q = before.recv_queue@;
    let got = result->Some_0;
    let j = choose|j: int| #[trigger]
        recv_queue::first_from(q, peer, j) && got.1 == peer && got.0 == bytes::fitting(
            old_buf.len(),
            q[j].payload.len(),
        ) && buf == bytes::overlaid(old_buf, q[j].payload) && after.recv_queue@ == q.remove(j);
    assert(i == j);
}

/// A poll of the pipeline that looks for what the peer sent looks at the rings where the peer has
/// sent none of what is queued, and leaves the queue as it is if they are empty.
pub proof fn law_payloads_of_others_stay_queued(
    before: UdpSocket,
    after: UdpSocket,
    peer: SocketAddr,
    old_rings: Seq<Seq<AppPacket>>,
    rings: Seq<Seq<AppPacket>>,
    old_pool: FramePool,
    pool: FramePool,
    counted: bool,
    old_buf: Seq<u8>,
    buf: Seq<u8>,
    result: Received,
)
    requires
        after.pipeline_polled(
            before,
            old_rings,
            rings,
            old_pool,
            pool,
            counted,
            true,
            old_buf,
            buf,
            result,
        ),
        before.connected_addr == Some(peer),
        forall|k: int|
            0 <= k < before.recv_queue@.len() ==> #[trigger] before.recv_queue@[k].src != peer,
        forall|k: int| 0 <= k < old_rings.len() ==> (#[trigger] old_rings[k]).len() == 0,
    ensures
        result is None,
        buf == old_buf,
        after.recv_queue == before.recv_queue,
        rings == old_rings,
        pool == old_pool,
{
    let turn = before.recv_from_rr_index as int;
    let n = old_rings.len() as int;
    let (packet, index): (Option<AppPacket>, usize) = choose|
        packet: Option<AppPacket>,
        index: usize,
    | #[trigger]
        pipeline::dequeued(old_rings, rings, before.recv_from_rr_index, index, packet)
            && after.polled(before, index, packet, old_pool, pool, counted, old_buf, buf, result);
    if packet is Some {
        let i = choose|i: int| #[trigger]
            pipeline::first_full(old_rings, turn, i) && ({
                let at = (turn + i) % n;
                &&& packet->Some_0 == old_rings[at][0]
                &&& rings == old_rings.update(at, old_rings[at].skip(1))
                &&& index == at + 1
            });
        assert(0 <= (turn + i) % n < n);
        assert(old_rings[(turn + i) % n].len() == 0);
    }
}

/// A poll of the pipeline of a socket that has queued nothing takes the packet of the ring whose
/// turn it is, if it holds one, out of that ring alone, and hands it out if the socket has no peer.
/// Then it is the turn of the next ring. With all rings empty nothing changes.
pub proof fn law_the_ring_whose_turn_it_is_gives(
    before: UdpSocket,
    after: UdpSocket,
    old_rings: Seq<Seq<AppPacket>>,
    rings: Seq<Seq<AppPacket>>,
    old_pool: FramePool,
    pool: FramePool,
    counted: bool,
    peer_only: bool,
    old_buf: Seq<u8>,
    buf: Seq<u8>,
    result: Received,
)
    requires
        after.pipeline_polled(
            before,
            old_rings,
            rings,
            old_pool,
            pool,
            counted,
            peer_only,
            old_buf,
            buf,
            result,
        ),
        !before.has_buffered_packets,
        old_rings.len() > 0,
        before.recv_from_rr_index < old_rings.len(),
    ensures
        ({
            let turn = before.recv_from_rr_index as int;
            &&& old_rings[turn].len() > 0 ==> {
                &&& rings == old_rings.update(turn, old_rings[turn].skip(1))
                &&& after.recv_from_rr_index == turn + 1
                &&& pool.free_indices() == old_pool.free_indices().push(
                    old_rings[turn][0].frame_ref.pool_idx,
                )
                &&& before.connected_addr is None ==> (result matches Some(got) && got.1
                    == old_rings[turn][0].src_addr)
            }
            &&& (forall|k: int| 0 <= k < old_rings.len() ==> (#[trigger] old_rings[k]).len() == 0)
                ==> result is None && rings == old_rings && pool == old_pool && buf == old_buf
                && after == before
        }),
{
    let turn = before.recv_from_rr_index as int;
    let n = old_rings.len() as int;
    let (packet, index): (Option<AppPacket>, usize) = choose|
        packet: Option<AppPacket>,
        index: usize,
    | #[trigger]
        pipeline::dequeued(old_rings, rings, before.recv_from_rr_index, index, packet)
            && after.polled(before, index, packet, old_pool, pool, counted, old_buf, buf, result);
    vstd::arithmetic::div_mod::lemma_small_mod(turn as nat, n as nat);
    if old_rings[turn].len() > 0 {
        pipeline::law_rings_take_turns(
            old_rings,
            rings,
            before.recv_from_rr_index,
            index,
            packet,
        );
        let i = choose|i: int| #[trigger]
            pipeline::first_full(old_rings, turn, i) && ({
                let at = (turn + i) % n;
                &&& packet->Some_0 == old_rings[at][0]
                &&& rings == old_rings.update(at, old_rings[at].skip(1))
                &&& index == at + 1
            });
        assert((turn + i) % n == turn);
    }
    if forall|k: int| 0 <= k < old_rings.len() ==> (#[trigger] old_rings[k]).len() == 0 {
        if packet is Some {
            let i = choose|i: int| #[trigger]
                pipeline::first_full(old_rings, turn, i) && ({
                    let at = (turn + i) % n;
                    &&& packet->Some_0 == old_rings[at][0]
                    &&& rings == old_rings.update(at, old_rings[at].skip(1))
                    &&& index == at + 1
                });
            assert(0 <= (turn + i) % n < n);
            assert(old_rings[(turn + i) % n].len() == 0);
        }
    }
}

/// A receive from the pipeline fails as one that would block exactly if the time since it started
/// has reached the read timeout, and never without one. It then changes nothing.
pub proof fn law_when_a_pipeline_receive_times_out(
    before: UdpSocket,
    after: UdpSocket,
    old_rings: Seq<VecDeque<AppPacket>>,
    rings: Seq<VecDeque<AppPacket>>,
    old_pool: FramePool,
    pool: FramePool,
    peer_only: bool,
    old_buf: Seq<u8>,
    buf: Seq<u8>,
    started: u64,
    now: u64,
    r: Result<Received, IoError>,
)
    requires
        after.pipeline_stepped(
            before,
            old_rings,
            rings,
            old_pool,
            pool,
            peer_only,
            old_buf,
            buf,
            started,
            now,
            r,
        ),
    ensures
        r is Err <==> (before.read_timeout matches Some(limit) && now - started >= limit),
        r matches Err(e) ==> e.kind == ErrorKind::WouldBlock && after == before && rings == old_rings
            && pool == old_pool && buf == old_buf,
{
}

// ---------------------------------------------------------------------------
// The socket in memory
// ---------------------------------------------------------------------------

/// A frame is for a socket in memory exactly if it has protocol 17 and its address and port as
/// destination; and the response to a frame goes back, with Ethernet addresses, addresses and ports
/// swapped and time to live 64.
pub proof fn law_response_bytes(frame: Seq<u8>, ip: [u8; 4], port: u16, response: Seq<u8>)
    requires
        frame.len() >= 42,
        28 + response.len() <= 0xFFFF,
    ensures
        synthetic::is_for(frame, ip@, port) <==> frame[23] == 17 && frame[30] == ip@[0] && frame[31]
            == ip@[1] && frame[32] == ip@[2] && frame[33] == ip@[3] && frame[36] * 256 + frame[37]
            == port,
        ({
            let s = synthetic::response_frame(frame, response);
            &&& s.len() == 42 + response.len()
            &&& s.subrange(0, 6) == frame.subrange(6, 12)
            &&& s.subrange(6, 12) == frame.subrange(0, 6)
            &&& s[12] == frame[12] && s[13] == frame[13]
            &&& s[14] == 0x45 && s[22] == 64 && s[23] == 17
            &&& s[16] * 256 + s[17] == 28 + response.len()
            &&& s[26] == frame[30] && s[27] == frame[31] && s[28] == frame[32] && s[29] == frame[33]
            &&& s[30] == frame[26] && s[31] == frame[27] && s[32] == frame[28] && s[33] == frame[29]
            &&& s[34] * 256 + s[35] == frame[36] * 256 + frame[37]
            &&& s[36] * 256 + s[37] == frame[34] * 256 + frame[35]
            &&& s[38] * 256 + s[39] == 8 + response.len()
            &&& s.skip(42) == response
        }),
{
    let to = frame.subrange(30, 34);
    assert(to == ip@ <==> to =~= ip@);
    let eth = frame.subrange(6, 12) + frame.subrange(0, 6) + frame.subrange(12, 14);
    let total_len = bytes::low16((28 + response.len()) as int);
    let h = udp::ipv4_header(
        total_len,
        0,
        64,
        17,
        addr::ipv4_at(frame, 30),
        addr::ipv4_at(frame, 26),
    );
    let d = udp::udp_datagram(
        addr::ipv4_at(frame, 30),
        addr::ipv4_at(frame, 26),
        bytes::be16_at(frame, 36),
        bytes::be16_at(frame, 34),
        response,
    );
    let s = eth + (h + d);
    assert(s == synthetic::response_frame(frame, response));
    wire_laws::lemma_ipv4_header_bytes(
        total_len,
        0,
        64,
        17,
        addr::ipv4_at(frame, 30),
        addr::ipv4_at(frame, 26),
    );
    wire_laws::lemma_udp_datagram_bytes(
        addr::ipv4_at(frame, 30),
        addr::ipv4_at(frame, 26),
        bytes::be16_at(frame, 36),
        bytes::be16_at(frame, 34),
        response,
    );
    lemma_response_parts(frame, s, eth, h, d, response);
}

/// The bytes of a frame made of three parts.
proof fn lemma_response_parts(
    frame: Seq<u8>,
    s: Seq<u8>,
    eth: Seq<u8>,
    h: Seq<u8>,
    d: Seq<u8>,
    response: Seq<u8>,
)
    requires
        frame.len() >= 42,
        eth == frame.subrange(6, 12) + frame.subrange(0, 6) + frame.subrange(12, 14),
        h.len() == 20,
        d.len() == 8 + response.len(),
        s == eth + (h + d),
        forall|k: int| 0 <= k < response.len() ==> d[8 + k] == #[trigger] response[k],
    ensures
        s.len() == 42 + response.len(),
        s.subrange(0, 6) == frame.subrange(6, 12),
        s.subrange(6, 12) == frame.subrange(0, 6),
        s[12] == frame[12] && s[13] == frame[13],
        s[14] == h[0] && s[16] == h[2] && s[17] == h[3] && s[22] == h[8] && s[23] == h[9],
        s[26] == h[12] && s[27] == h[13] && s[28] == h[14] && s[29] == h[15],
        s[30] == h[16] && s[31] == h[17] && s[32] == h[18] && s[33] == h[19],
        s[34] == d[0] && s[35] == d[1] && s[36] == d[2] && s[37] == d[3],
        s[38] == d[4] && s[39] == d[5],
        s.skip(42) == response,
{
    assert(eth.len() == 14);
    assert(s.subrange(0, 6) =~= frame.subrange(6, 12));
    assert(s.subrange(6, 12) =~= frame.subrange(0, 6));
    assert(s.skip(42) =~= response) by {
        assert forall|k: int| 0 <= k < response.len() implies #[trigger] s[42 + k] == response[k] by {
            assert(d[8 + k] == response[k]);
        }
    }
}

/// What a packet that a socket in memory reads says: the addresses and ports of the frame, and as
/// payload everything behind the headers.
pub proof fn law_what_a_frame_in_memory_says(
    frame: Seq<u8>,
    p: synthetic::SyntheticPacket<'_>,
)
    requires
        frame.len() >= 42,
        p.describes(frame),
    ensures
        p.src_ip == (Ipv4Addr { a: frame[26], b: frame[27], c: frame[28], d: frame[29] }),
        p.dst_ip == (Ipv4Addr { a: frame[30], b: frame[31], c: frame[32], d: frame[33] }),
        p.src_port == frame[34] * 256 + frame[35],
        p.dst_port == frame[36] * 256 + frame[37],
        p.payload@ == frame.skip(42),
{
}

// ---------------------------------------------------------------------------
// Backends
// ---------------------------------------------------------------------------

/// Which backends are tried: DPDK, on the port, alone where it is asked for, and first where any
/// will do; AF_PACKET on the interface, with rings where that is asked for and behind DPDK where
/// any will do, and then without; and none where AF_PACKET is asked for without an interface.
pub proof fn law_which_backends_are_tried(config: backend::BackendConfig)
    ensures
        ({
            let tried = backend::choices_for(config);
            &&& tried is None <==> config.interface_name is None && (config.backend_type
                == backend::BackendType::RawSocket || config.backend_type
                == backend::BackendType::RawSocketMmap)
            &&& config.backend_type == backend::BackendType::Dpdk ==> {
                &&& tried->Some_0.len() == 1
                &&& tried->Some_0[0] == (backend::ChoiceView::Dpdk { port_id: config.dpdk_port_id })
            }
            &&& config.backend_type == backend::BackendType::Auto ==> {
                &&& tried->Some_0[0] == (backend::ChoiceView::Dpdk { port_id: config.dpdk_port_id })
                &&& config.interface_name is None ==> tried->Some_0.len() == 1
                &&& config.interface_name matches Some(name) ==> {
                    &&& tried->Some_0.len() == 3
                    &&& tried->Some_0[1] == (backend::ChoiceView::RawSocketMmap {
                        interface: name@,
                        frame_size: config.ring_frame_size,
                        frame_count: config.ring_frame_count,
                    })
                    &&& tried->Some_0[2] == (backend::ChoiceView::RawSocket { interface: name@ })
                }
            }
            &&& config.interface_name matches Some(name) ==> {
                &&& config.backend_type == backend::BackendType::RawSocketMmap ==> {
                    &&& tried->Some_0.len() == 1
                    &&& tried->Some_0[0] == (backend::ChoiceView::RawSocketMmap {
                        interface: name@,
                        frame_size: config.ring_frame_size,
                        frame_count: config.ring_frame_count,
                    })
                }
                &&& config.backend_type == backend::BackendType::RawSocket ==> {
                    &&& tried->Some_0.len() == 1
                    &&& tried->Some_0[0] == (backend::ChoiceView::RawSocket { interface: name@ })
                }
            }
        }),
{
}

/// When no backend opens, a search among all of them fails with an error that names them, and that
/// for a certain one fails with the error of that one.
pub proof fn law_why_no_backend_opens(config: backend::BackendConfig, last: IoError, e: IoError)
    requires
        backend::is_unavailable(config, last, e),
    ensures
        config.backend_type == backend::BackendType::Auto ==> e.kind == ErrorKind::Other
            && e.message@
            == "No packet backend available (tried DPDK, AF_PACKET+mmap, AF_PACKET)"@,
        config.backend_type != backend::BackendType::Auto ==> e == last,
{
}

/// A poll of the rings that finds a packet of a stranger to a connected socket hands nothing out.
/// As much of its payload as the buffer holds goes with its source to the end of the receive queue
/// if there is room.
pub proof fn law_workers_packet_of_a_stranger_is_queued(
    before: UdpSocket,
    after: UdpSocket,
    index: usize,
    packet: AppPacket,
    peer: SocketAddr,
    old_pool: FramePool,
    pool: FramePool,
    counted: bool,
    old_buf: Seq<u8>,
    buf: Seq<u8>,
    result: Received,
)
    requires
        after.polled(
            before,
            index,
            Some(packet),
            old_pool,
            pool,
            counted,
            old_buf,
            buf,
            result,
        ),
        before.connected_addr == Some(peer),
        peer != packet.src_addr,
        pipeline::lies_in(packet, old_pool, old_buf.len()),
        old_pool.slot(packet.frame_ref.pool_idx).len() == old_pool.slot_size(),
    ensures
        result is None,
        ({
            let n = if packet.payload_len < old_buf.len() {
                packet.payload_len as int
            } else {
                old_buf.len() as int
            };
            let q = before.recv_queue;
            if q@.len() < q.packet_limit() && recv_queue::total_bytes(q@) + n <= q.byte_limit() {
                &&& after.recv_queue@.len() == q@.len() + 1
                &&& after.recv_queue@.last().src == packet.src_addr
                &&& after.recv_queue@.last().payload == old_pool.slot(
                    packet.frame_ref.pool_idx,
                ).subrange(packet.payload_offset as int, packet.payload_offset + n)
            } else {
                after.recv_queue@ == q@
            }
        }),
        pool.free_indices() == old_pool.free_indices().push(packet.frame_ref.pool_idx),
{
    let payload = pipeline::payload_in(packet, old_pool, old_buf.len());
    assert(payload.take(payload.len() as int) =~= payload);
}

/// The handler of a socket in memory is given where the frame came from, where it went, and
/// everything behind its headers; where it gives nothing back there is no reply.
pub proof fn law_handler_gets_what_the_frame_says<H: synthetic::UdpHandler + ?Sized>(
    socket: synthetic::SyntheticUdpSocket<H>,
    frame: Seq<u8>,
    packet: synthetic::SyntheticPacket<'_>,
    src_ip: [u8; 4],
    dst_ip: [u8; 4],
    response: Option<Vec<u8>>,
    r: UdpResult<Option<Vec<u8>>>,
)
    requires
        frame.len() >= 42,
        packet.describes(frame),
        socket.answers(packet, src_ip, dst_ip, response),
        synthetic::is_reply(frame, response, r),
    ensures
        src_ip@ == frame.subrange(26, 30),
        dst_ip@ == frame.subrange(30, 34),
        call_ensures(
            H::on_packet,
            (
                &*socket.handler,
                src_ip,
                (frame[34] * 256 + frame[35]) as u16,
                dst_ip,
                (frame[36] * 256 + frame[37]) as u16,
                packet.payload,
            ),
            response,
        ),
        packet.payload@ == frame.skip(42),
        response is None <==> r == Ok::<Option<Vec<u8>>, UdpError>(None),
        r is Ok,
{
    assert(src_ip@ =~= frame.subrange(26, 30));
    assert(dst_ip@ =~= frame.subrange(30, 34));
}

// ---------------------------------------------------------------------------
// Counters and small parts
// ---------------------------------------------------------------------------

/// What is counted: a sent datagram adds one packet and its bytes to the statistics of the
/// connection, and changes nothing else in them.
pub proof fn law_what_a_send_counts(state: recv_queue::ConnectionState, len: nat)
    requires
        state.can_send(len),
    ensures
        state.with_send(len).packets_sent == state.packets_sent + 1,
        state.with_send(len).bytes_sent == state.bytes_sent + len,
        state.with_send(len).packets_received == state.packets_received,
        state.with_send(len).bytes_received == state.bytes_received,
        state.with_send(len).local_addr == state.local_addr,
        state.with_send(len).remote_addr == state.remote_addr,
{
}

/// Counters add up, and start again at zero behind the greatest number of 64 bits.
pub proof fn law_counters_add_up(count: u64, n: u64)
    ensures
        count + n < 0x1_0000_0000_0000_0000 ==> recv_queue::wrapped_sum(count, n as int) == count
            + n,
        count + n >= 0x1_0000_0000_0000_0000 ==> recv_queue::wrapped_sum(count, n as int) == count
            + n - 0x1_0000_0000_0000_0000,
{
}

/// A burst counts as one and adds its frames, a received datagram counts as one and adds its bytes,
/// and one that finds the queue full counts as dropped. Nothing else changes.
pub proof fn law_what_the_counters_count(socket: UdpSocket, n: nat)
    requires
        n <= usize::MAX,
        socket.perf_counters.rx_bursts < u64::MAX,
        socket.perf_counters.rx_burst_sum + n <= u64::MAX,
        socket.perf_counters.rx_packets < u64::MAX,
        socket.perf_counters.rx_bytes + n <= u64::MAX,
        socket.perf_counters.rx_drops_buffer_full < u64::MAX,
    ensures
        ({
            let old_counters = socket.perf_counters;
            let burst = socket.with_burst(n);
            let rx = old_counters.with_rx(n);
            let full = old_counters.with_buffer_full();
            &&& burst.perf_counters.rx_bursts == old_counters.rx_bursts + 1
            &&& burst.perf_counters.rx_burst_sum == old_counters.rx_burst_sum + n
            &&& burst == (UdpSocket {
                perf_counters: socket::PerfCounters {
                    rx_bursts: burst.perf_counters.rx_bursts,
                    rx_burst_sum: burst.perf_counters.rx_burst_sum,
                    ..old_counters
                },
                ..socket
            })
            &&& rx.rx_packets == old_counters.rx_packets + 1
            &&& rx.rx_bytes == old_counters.rx_bytes + n
            &&& rx == (socket::PerfCounters {
                rx_packets: rx.rx_packets,
                rx_bytes: rx.rx_bytes,
                ..old_counters
            })
            &&& full.rx_drops_buffer_full == old_counters.rx_drops_buffer_full + 1
            &&& full == (socket::PerfCounters {
                rx_drops_buffer_full: full.rx_drops_buffer_full,
                ..old_counters
            })
        }),
{
}

/// An address that is added is among the local addresses afterwards, and those before it keep their
/// places. One that is there already is not added again.
pub proof fn law_local_addresses_are_added_once(
    ips: Seq<Ipv4Addr>,
    ip: Ipv4Addr,
    ips6: Seq<Ipv6Addr>,
    ip6: Ipv6Addr,
)
    ensures
        icmp::with_ip(ips, ip).contains(ip),
        forall|k: int| 0 <= k < ips.len() ==> #[trigger] icmp::with_ip(ips, ip)[k] == ips[k],
        icmp::with_ip(ips, ip).len() == ips.len() + (if ips.contains(ip) {
            0int
        } else {
            1
        }),
        icmpv6::with_ip6(ips6, ip6).contains(ip6),
        forall|k: int| 0 <= k < ips6.len() ==> #[trigger] icmpv6::with_ip6(ips6, ip6)[k] == ips6[k],
        icmpv6::with_ip6(ips6, ip6).len() == ips6.len() + (if ips6.contains(ip6) {
            0int
        } else {
            1
        }),
{
    assert(ips.push(ip).last() == ip);
    assert(ips6.push(ip6).last() == ip6);
}

/// A slot holds a frame of the size that was asked for, and no fewer than 64 bytes.
pub proof fn law_slots_hold_frames(frame_size: nat)
    ensures
        frame_size >= 64 ==> frame_pool::slot_size_for(frame_size) == frame_size,
        frame_size <= 64 ==> frame_pool::slot_size_for(frame_size) == 64,
{
}

/// What is put into the cache of the port is found there, and nothing else of the socket changes: a
/// socket on the port itself keeps the cache in its handler.
pub proof fn law_port_cache_is_replaced(socket: UdpSocket, cache: ArpCache)
    ensures
        ({
            let after = socket.with_port_cache(cache);
            &&& after.port_cache() == cache
            &&& socket.port_arp_cache is None ==> after.arp_handler.cache == cache
                && after.port_arp_cache is None
            &&& socket.port_arp_cache is Some ==> after.port_arp_cache == Some(cache)
                && after.arp_handler == socket.arp_handler
            &&& after.arp_handler.local_ips == socket.arp_handler.local_ips
            &&& after.arp_handler.local_mac == socket.arp_handler.local_mac
            &&& after == (UdpSocket {
                arp_handler: after.arp_handler,
                port_arp_cache: after.port_arp_cache,
                ..socket
            })
        }),
{
}

} // verus!
