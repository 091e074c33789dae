//! What a socket does, as seen from outside: which bytes go out for a datagram and to whom,
//! which datagrams come in, and what is answered and reported.
//!
//! The laws start from the relations that the functions of the socket establish, and say what
//! follows of bytes, addresses and numbers.

use vstd::prelude::*;

use crate::addr;
use crate::addr::{Ipv4Addr, SocketAddr, SocketAddrV4};
use crate::arp;
use crate::bytes;
use crate::error::{ErrorKind, IoError};
use crate::gue;
use crate::gue::GueConfig;
use crate::icmp;
use crate::recv_queue;
use crate::routing::NextHop;
use crate::send::SendStep;
use crate::socket;
use crate::socket::{BurstState, PerfCounters, Received, RxBytes, RxView, UdpSocket};
use crate::text;
use crate::udp;
use crate::vlan;
use crate::vlan::{VlanConfig, VlanMode};
use crate::wire_laws;

verus! {

// ---------------------------------------------------------------------------
// Sending
// ---------------------------------------------------------------------------

/// The neighbour on the way to `target`.
pub open spec fn hop_to(socket: UdpSocket, target: Ipv4Addr) -> Ipv4Addr {
    match socket.routing_table.route(target) {
        NextHop::Direct(ip) => ip,
        NextHop::Gateway(ip) => ip,
    }
}

/// Whether the way to `target` leads to the Ethernet address `mac`: that of the neighbour on
/// the way; all ones for 255.255.255.255; for a neighbour that is not known, and not asked
/// for, the configured one.
pub open spec fn leads_to(socket: UdpSocket, target: Ipv4Addr, now: u64, mac: Seq<u8>) -> bool {
    let hop = hop_to(socket, target);
    if hop.a == 255 && hop.b == 255 && hop.c == 255 && hop.d == 255 {
        mac.len() == 6 && forall|k: int| 0 <= k < 6 ==> #[trigger] mac[k] == 255
    } else {
        match socket.arp_handler.cache.find(hop, now) {
            Some(known) => mac == known.octets@,
            None => !socket.auto_arp && mac == socket.dst_mac.octets@,
        }
    }
}

/// The address that is chosen for a datagram is the one that the way leads to.
proof fn lemma_chosen_mac(socket: UdpSocket, dst: Ipv4Addr, now: u64, mac: [u8; 6])
    requires
        leads_to(
            socket,
            match socket.gue_config {
                Some(config) => config.remote_ip,
                None => dst,
            },
            now,
            mac@,
        ),
    ensures
        socket.chosen_mac(dst, now) == Some(mac@),
{
    assert(socket.neighbour(dst) == hop_to(
        socket,
        match socket.gue_config {
            Some(config) => config.remote_ip,
            None => dst,
        },
    ));
    if socket.neighbour(dst) == addr::ipv4_broadcast() {
        assert(mac@ =~= addr::broadcast_mac());
    }
}

/// A datagram of a socket without a tunnel and without a VLAN, or on an access port, goes out
/// untagged: handed to the neighbour on the way, from the local address and port to those of
/// the call, with the time to live of the socket and with the payload.
pub proof fn law_datagram_goes_out(
    before: UdpSocket,
    after: UdpSocket,
    r: Result<SendStep, IoError>,
    tx_buf: Seq<u8>,
    payload: Seq<u8>,
    src: SocketAddrV4,
    dst: SocketAddrV4,
    mac: [u8; 6],
    now: u64,
)
    requires
        after.send_started(before, r, tx_buf, payload, SocketAddr::V4(dst), now),
        before.local_addr == SocketAddr::V4(src),
        before.gue_config is None,
        before.vlan_config matches Some(config) ==> config.mode is Access,
        payload.len() + 28 <= before.routing_table.mtu,
        payload.len() <= 9015 - 42,
        leads_to(before, dst.ip, now, mac@),
    ensures
        r == Ok::<SendStep, IoError>(SendStep::Transmit { hw_vlan_tci: None }),
        tx_buf.len() == 42 + payload.len(),
        forall|k: int| 0 <= k < 6 ==> tx_buf[k] == #[trigger] mac@[k],
        forall|k: int| 0 <= k < 6 ==> tx_buf[6 + k] == #[trigger] before.local_mac@[k],
        tx_buf[12] == 8 && tx_buf[13] == 0,
        tx_buf[14] == 0x45 && tx_buf[22] == before.ttl && tx_buf[23] == 17,
        tx_buf[16] * 256 + tx_buf[17] == 28 + payload.len(),
        tx_buf[26] == src.ip.a && tx_buf[27] == src.ip.b && tx_buf[28] == src.ip.c && tx_buf[29]
            == src.ip.d,
        tx_buf[30] == dst.ip.a && tx_buf[31] == dst.ip.b && tx_buf[32] == dst.ip.c && tx_buf[33]
            == dst.ip.d,
        tx_buf[34] * 256 + tx_buf[35] == src.port,
        tx_buf[36] * 256 + tx_buf[37] == dst.port,
        tx_buf[38] * 256 + tx_buf[39] == 8 + payload.len(),
        forall|k: int| 0 <= k < payload.len() ==> tx_buf[42 + k] == #[trigger] payload[k],
        udp::ipv4_cksum_valid(tx_buf),
        udp::udp_cksum_valid(tx_buf),
{
    lemma_chosen_mac(before, dst.ip, now, mac);
    wire_laws::law_built_frame_bytes(
        before.local_mac,
        mac,
        src.ip,
        dst.ip,
        src.port,
        dst.port,
        payload,
        before.ttl,
    );
    udp::law_built_checksums_verify(
        before.local_mac,
        mac,
        src.ip,
        dst.ip,
        src.port,
        dst.port,
        payload,
        before.ttl,
        0,
    );
    assert(before.built(r, tx_buf, payload, dst, mac@));
    assert forall|k: int| 0 <= k < payload.len() implies tx_buf[42 + k] == #[trigger] payload[k] by {
        assert(tx_buf[14 + 28 + k] == payload[k]);
    }
}

/// The fields of a tag control word.
proof fn lemma_tag_fields(high: u8, low: u8, config: VlanConfig)
    requires
        high * 256 + low == config.tci(),
    ensures
        high % 16 * 256 + low == config.vlan_id % 4096,
        high / 16 % 2 == 1 <==> config.dei,
        high / 32 == config.priority % 8,
{
}

/// A datagram of a socket on a tagged VLAN goes out, where the NIC inserts no tags or must not,
/// with the tag in its frame: the VLAN identifier in the lower twelve bits, then the drop
/// indicator and the priority. Behind the tag the packet stands as in an untagged frame.
pub proof fn law_tagged_datagram_goes_out(
    before: UdpSocket,
    after: UdpSocket,
    r: Result<SendStep, IoError>,
    tx_buf: Seq<u8>,
    payload: Seq<u8>,
    src: SocketAddrV4,
    dst: SocketAddrV4,
    config: VlanConfig,
    mac: [u8; 6],
    now: u64,
)
    requires
        after.send_started(before, r, tx_buf, payload, SocketAddr::V4(dst), now),
        before.local_addr == SocketAddr::V4(src),
        before.gue_config is None,
        before.vlan_config == Some(config),
        !(config.mode is Access),
        !before.dpdk || !before.tx_offload.vlan_insert || config.force_software,
        payload.len() + 28 <= before.routing_table.mtu,
        payload.len() <= 9015 - 46,
        leads_to(before, dst.ip, now, mac@),
    ensures
        r == Ok::<SendStep, IoError>(SendStep::Transmit { hw_vlan_tci: None }),
        tx_buf.len() == 46 + payload.len(),
        forall|k: int| 0 <= k < 6 ==> tx_buf[k] == #[trigger] mac@[k],
        forall|k: int| 0 <= k < 6 ==> tx_buf[6 + k] == #[trigger] before.local_mac@[k],
        tx_buf[12] == 0x81 && tx_buf[13] == 0,
        tx_buf[14] % 16 * 256 + tx_buf[15] == config.vlan_id % 4096,
        tx_buf[14] / 16 % 2 == 1 <==> config.dei,
        tx_buf[14] / 32 == config.priority % 8,
        tx_buf[16] == 8 && tx_buf[17] == 0,
        tx_buf[18] == 0x45 && tx_buf[26] == before.ttl && tx_buf[27] == 17,
        tx_buf[20] * 256 + tx_buf[21] == 28 + payload.len(),
        tx_buf[30] == src.ip.a && tx_buf[31] == src.ip.b && tx_buf[32] == src.ip.c && tx_buf[33]
            == src.ip.d,
        tx_buf[34] == dst.ip.a && tx_buf[35] == dst.ip.b && tx_buf[36] == dst.ip.c && tx_buf[37]
            == dst.ip.d,
        tx_buf[38] * 256 + tx_buf[39] == src.port,
        tx_buf[40] * 256 + tx_buf[41] == dst.port,
        tx_buf[42] * 256 + tx_buf[43] == 8 + payload.len(),
        forall|k: int| 0 <= k < payload.len() ==> tx_buf[46 + k] == #[trigger] payload[k],
        udp::ipv4_cksum_valid(tx_buf),
        udp::udp_cksum_valid(tx_buf),
{
    let tci = config.tci();
    lemma_chosen_mac(before, dst.ip, now, mac);
    wire_laws::law_built_tagged_frame_bytes(
        before.local_mac,
        mac,
        src.ip,
        dst.ip,
        src.port,
        dst.port,
        payload,
        before.ttl,
        tci,
    );
    udp::law_built_checksums_verify(
        before.local_mac,
        mac,
        src.ip,
        dst.ip,
        src.port,
        dst.port,
        payload,
        before.ttl,
        tci,
    );
    assert(before.built(r, tx_buf, payload, dst, mac@));
    lemma_tag_fields(tx_buf[14], tx_buf[15], config);
    assert forall|k: int| 0 <= k < payload.len() implies tx_buf[46 + k] == #[trigger] payload[k] by {
        assert(tx_buf[18 + 28 + k] == payload[k]);
    }
}

/// A datagram of a socket on a tagged VLAN goes out, where the NIC inserts tags, in an untagged
/// frame together with the tag that the NIC inserts.
pub proof fn law_datagram_goes_out_for_tagging(
    before: UdpSocket,
    after: UdpSocket,
    r: Result<SendStep, IoError>,
    tx_buf: Seq<u8>,
    payload: Seq<u8>,
    src: SocketAddrV4,
    dst: SocketAddrV4,
    config: VlanConfig,
    mac: [u8; 6],
    now: u64,
)
    requires
        after.send_started(before, r, tx_buf, payload, SocketAddr::V4(dst), now),
        before.local_addr == SocketAddr::V4(src),
        before.gue_config is None,
        before.vlan_config == Some(config),
        !(config.mode is Access),
        before.dpdk && before.tx_offload.vlan_insert && !config.force_software,
        payload.len() + 28 <= before.routing_table.mtu,
        payload.len() <= 9015 - 42,
        leads_to(before, dst.ip, now, mac@),
    ensures
        r matches Ok(SendStep::Transmit { hw_vlan_tci: Some(tci) }) && tci == config.priority % 8
            * 8192 + (if config.dei {
            4096int
        } else {
            0
        }) + config.vlan_id % 4096,
        tx_buf.len() == 42 + payload.len(),
        forall|k: int| 0 <= k < 6 ==> tx_buf[k] == #[trigger] mac@[k],
        forall|k: int| 0 <= k < 6 ==> tx_buf[6 + k] == #[trigger] before.local_mac@[k],
        tx_buf[12] == 8 && tx_buf[13] == 0,
        tx_buf[14] == 0x45 && tx_buf[22] == before.ttl && tx_buf[23] == 17,
        tx_buf[26] == src.ip.a && tx_buf[27] == src.ip.b && tx_buf[28] == src.ip.c && tx_buf[29]
            == src.ip.d,
        tx_buf[30] == dst.ip.a && tx_buf[31] == dst.ip.b && tx_buf[32] == dst.ip.c && tx_buf[33]
            == dst.ip.d,
        tx_buf[34] * 256 + tx_buf[35] == src.port,
        tx_buf[36] * 256 + tx_buf[37] == dst.port,
        tx_buf[38] * 256 + tx_buf[39] == 8 + payload.len(),
        forall|k: int| 0 <= k < payload.len() ==> tx_buf[42 + k] == #[trigger] payload[k],
{
    lemma_chosen_mac(before, dst.ip, now, mac);
    wire_laws::law_built_frame_bytes(
        before.local_mac,
        mac,
        src.ip,
        dst.ip,
        src.port,
        dst.port,
        payload,
        before.ttl,
    );
    assert(before.built(r, tx_buf, payload, dst, mac@));
    assert forall|k: int| 0 <= k < payload.len() implies tx_buf[42 + k] == #[trigger] payload[k] by {
        assert(tx_buf[14 + 28 + k] == payload[k]);
    }
}

/// A datagram of a socket with a tunnel goes out inside the tunnel, whatever its VLAN: the outer
/// packet goes from the local address to the remote end, between the ports of the tunnel, and
/// the inner one, behind the bytes 0, 4, 0, 0, from the local address and port to those of the
/// call. It is handed to the neighbour on the way to the remote end.
pub proof fn law_tunnelled_datagram_goes_out(
    before: UdpSocket,
    after: UdpSocket,
    r: Result<SendStep, IoError>,
    tx_buf: Seq<u8>,
    payload: Seq<u8>,
    src: SocketAddrV4,
    dst: SocketAddrV4,
    config: GueConfig,
    mac: [u8; 6],
    now: u64,
)
    requires
        after.send_started(before, r, tx_buf, payload, SocketAddr::V4(dst), now),
        before.local_addr == SocketAddr::V4(src),
        before.gue_config == Some(config),
        payload.len() + 60 <= before.routing_table.mtu,
        leads_to(before, config.remote_ip, now, mac@),
    ensures
        r == Ok::<SendStep, IoError>(SendStep::Transmit { hw_vlan_tci: None }),
        tx_buf.len() == 74 + payload.len(),
        forall|k: int| 0 <= k < 6 ==> tx_buf[k] == #[trigger] mac@[k],
        forall|k: int| 0 <= k < 6 ==> tx_buf[6 + k] == #[trigger] before.local_mac@[k],
        tx_buf[12] == 8 && tx_buf[13] == 0,
        tx_buf[14] == 0x45 && tx_buf[22] == before.ttl && tx_buf[23] == 17,
        tx_buf[26] == src.ip.a && tx_buf[27] == src.ip.b && tx_buf[28] == src.ip.c && tx_buf[29]
            == src.ip.d,
        tx_buf[30] == config.remote_ip.a && tx_buf[31] == config.remote_ip.b && tx_buf[32]
            == config.remote_ip.c && tx_buf[33] == config.remote_ip.d,
        tx_buf[34] * 256 + tx_buf[35] == config.local_port,
        tx_buf[36] * 256 + tx_buf[37] == config.remote_port,
        tx_buf[38] * 256 + tx_buf[39] == 40 + payload.len(),
        tx_buf[42] == 0 && tx_buf[43] == 4 && tx_buf[44] == 0 && tx_buf[45] == 0,
        tx_buf[46] == 0x45 && tx_buf[54] == 64 && tx_buf[55] == 17,
        tx_buf[58] == src.ip.a && tx_buf[59] == src.ip.b && tx_buf[60] == src.ip.c && tx_buf[61]
            == src.ip.d,
        tx_buf[62] == dst.ip.a && tx_buf[63] == dst.ip.b && tx_buf[64] == dst.ip.c && tx_buf[65]
            == dst.ip.d,
        tx_buf[66] * 256 + tx_buf[67] == src.port,
        tx_buf[68] * 256 + tx_buf[69] == dst.port,
        tx_buf[70] * 256 + tx_buf[71] == 8 + payload.len(),
        forall|k: int| 0 <= k < payload.len() ==> tx_buf[74 + k] == #[trigger] payload[k],
{
    lemma_chosen_mac(before, dst.ip, now, mac);
    wire_laws::law_gue_payload_bytes(src.ip, dst.ip, src.port, dst.port, payload);
    wire_laws::law_gue_frame_bytes(
        before.local_mac,
        mac,
        src.ip,
        config.remote_ip,
        config.local_port,
        config.remote_port,
        src.ip,
        dst.ip,
        src.port,
        dst.port,
        payload,
        before.ttl,
    );
    assert(before.built(r, tx_buf, payload, dst, mac@));
    assert forall|k: int| 0 <= k < payload.len() implies tx_buf[74 + k] == #[trigger] payload[k] by {
        assert(tx_buf[46 + 28 + k] == payload[k]);
    }
}

/// A send to a neighbour that is not known asks for that neighbour first: for the gateway where
/// the destination, or the remote end of the tunnel, is not on the subnet.
pub proof fn law_unknown_neighbour_is_asked_for(
    before: UdpSocket,
    after: UdpSocket,
    r: Result<SendStep, IoError>,
    tx_buf: Seq<u8>,
    payload: Seq<u8>,
    dst: SocketAddrV4,
    target: Ipv4Addr,
    now: u64,
)
    requires
        after.send_started(before, r, tx_buf, payload, SocketAddr::V4(dst), now),
        before.local_addr is V4,
        before.gue_config is None ==> target == dst.ip && payload.len() + 28
            <= before.routing_table.mtu,
        before.gue_config matches Some(config) ==> target == config.remote_ip && payload.len() + 60
            <= before.routing_table.mtu,
        before.auto_arp,
        hop_to(before, target) != (Ipv4Addr { a: 255, b: 255, c: 255, d: 255 }),
        before.arp_handler.cache.find(hop_to(before, target), now) is None,
    ensures
        r == Ok::<SendStep, IoError>(SendStep::Resolve(hop_to(before, target))),
{
    assert(before.neighbour(dst.ip) == hop_to(before, target));
}

/// A send is refused, and nothing is done, where an IPv6 address takes part or where the packet,
/// with 28 bytes of headers and 32 more in a tunnel, exceeds the MTU.
pub proof fn law_what_is_not_sent(
    before: UdpSocket,
    after: UdpSocket,
    r: Result<SendStep, IoError>,
    tx_buf: Seq<u8>,
    payload: Seq<u8>,
    addr: SocketAddr,
    now: u64,
)
    requires
        after.send_started(before, r, tx_buf, payload, addr, now),
    ensures
        before.local_addr is V6 || addr is V6 ==> (r matches Err(e) && e.kind
            == ErrorKind::InvalidInput && e.message@ == "IPv6 not supported"@),
        payload.len() > 0 && payload.len() + (if before.gue_config is None {
            28int
        } else {
            60
        }) > before.routing_table.mtu ==> (r matches Err(e) && e.kind == ErrorKind::InvalidInput),
        (r matches Err(e) && e.kind == ErrorKind::InvalidInput) ==> after == before && (
        before.local_addr is V6 || addr is V6 || payload.len() > 0 && payload.len() + (
        if before.gue_config is None {
            28int
        } else {
            60
        }) > before.routing_table.mtu),
        (r matches Err(e) && e.kind != ErrorKind::InvalidInput) ==> before.gue_config is None
            && payload.len() > 9015 - 46,
        after == (UdpSocket { perf_counters: after.perf_counters, ..before }),
{
}

/// What a refused send says: how long the payload is, what the MTU leaves for it, and the MTU.
pub proof fn law_why_a_send_is_refused(
    before: UdpSocket,
    after: UdpSocket,
    r: Result<SendStep, IoError>,
    tx_buf: Seq<u8>,
    payload: Seq<u8>,
    dst: SocketAddrV4,
    now: u64,
)
    requires
        after.send_started(before, r, tx_buf, payload, SocketAddr::V4(dst), now),
        before.local_addr is V4,
        before.routing_table.mtu >= 60,
    ensures
        ({
            let mtu = before.routing_table.mtu;
            let limit = if before.gue_config is None {
                mtu - 28
            } else {
                mtu - 60
            };
            payload.len() > limit ==> (r matches Err(e) && e.message@ == "payload too large: "@
                + text::decimal(payload.len()) + " bytes exceeds max UDP payload "@ + text::decimal(
                limit as nat,
            ) + " (MTU "@ + text::decimal16(mtu) + ")"@)
        }),
{
}

/// The frame buffer takes payloads of 8973 bytes, and of 8969 behind a tag; longer ones fail even
/// where the MTU leaves room for them.
pub proof fn law_what_the_frame_buffer_takes(
    before: UdpSocket,
    after: UdpSocket,
    r: Result<SendStep, IoError>,
    tx_buf: Seq<u8>,
    payload: Seq<u8>,
    src: SocketAddrV4,
    dst: SocketAddrV4,
    mac: [u8; 6],
    now: u64,
)
    requires
        after.send_started(before, r, tx_buf, payload, SocketAddr::V4(dst), now),
        before.local_addr == SocketAddr::V4(src),
        before.gue_config is None,
        payload.len() + 28 <= before.routing_table.mtu,
        leads_to(before, dst.ip, now, mac@),
    ensures
        ({
            let in_frame = before.vlan_config matches Some(config) && !(config.mode is Access) && (
            !before.dpdk || !before.tx_offload.vlan_insert || config.force_software);
            let most: int = if in_frame {
                8969
            } else {
                8973
            };
            &&& r is Ok <==> payload.len() <= most
            &&& r matches Err(e) ==> e.kind == ErrorKind::Other && e.message@
                == "packet build failed: "@ + ("Payload too large: max "@ + text::decimal(
                most as nat,
            ) + ", got "@ + text::decimal(payload.len()))
        }),
{
    lemma_chosen_mac(before, dst.ip, now, mac);
}

// ---------------------------------------------------------------------------
// Receiving
// ---------------------------------------------------------------------------

/// Whether a frame that came in turned one socket, buffer and result into another, with the
/// given reply. The NIC has stripped the tag `hw_vlan_tci` off.
pub open spec fn came_in(
    before: UdpSocket,
    after: UdpSocket,
    frame: Seq<u8>,
    port: u16,
    hw_vlan_tci: Option<u16>,
    now: u64,
    old_buf: Seq<u8>,
    buf: Seq<u8>,
    old_result: Received,
    result: Received,
    reply: Option<Seq<u8>>,
) -> bool {
    after.received(
        before,
        before.rx_view(frame, port, hw_vlan_tci),
        frame,
        port,
        now,
        old_buf,
        buf,
        old_result,
        result,
        reply,
    )
}

/// Offset of the network-layer header: 14, or 18 behind a tag.
pub open spec fn header_offset(frame: Seq<u8>) -> int {
    if frame[12] == 0x81 && frame[13] == 0 {
        18
    } else {
        14
    }
}

/// A UDP frame whose checksums hold, for the port of the socket, that is taken as without a VLAN
/// configuration and a tunnel, is handed to the caller if the call has got nothing yet and the
/// socket has no peer or the frame is from its peer: as much of the payload as the buffer holds,
/// with its length and the source address and port. The rest of the buffer stays. The socket then
/// knows where the sender is, for five minutes.
pub proof fn law_datagram_is_handed_out(
    before: UdpSocket,
    after: UdpSocket,
    frame: Seq<u8>,
    port: u16,
    hw_vlan_tci: Option<u16>,
    now: u64,
    old_buf: Seq<u8>,
    buf: Seq<u8>,
    result: Received,
    reply: Option<Seq<u8>>,
    src: SocketAddrV4,
    later: u64,
)
    requires
        came_in(
            before,
            after,
            frame,
            port,
            hw_vlan_tci,
            now,
            old_buf,
            buf,
            None,
            result,
            reply,
        ),
        before.rx_view(frame, port, hw_vlan_tci) == (UdpSocket {
            vlan_config: None,
            gue_config: None,
            ..before
        }).rx_view(frame, port, hw_vlan_tci),
        udp::is_udp4_frame(frame),
        udp::ipv4_cksum_valid(frame),
        udp::udp_cksum_valid(frame),
        old_buf.len() <= usize::MAX,
        ({
            let l3 = header_offset(frame);
            let udp = l3 + frame[l3] % 16 * 4;
            &&& frame[udp + 2] * 256 + frame[udp + 3] == port
            &&& frame[udp] * 256 + frame[udp + 1] == src.port
            &&& frame[l3 + 12] == src.ip.a && frame[l3 + 13] == src.ip.b && frame[l3 + 14]
                == src.ip.c && frame[l3 + 15] == src.ip.d
        }),
        before.connected_addr is None || before.connected_addr == Some(SocketAddr::V4(src)),
        now <= later,
    ensures
        ({
            let l3 = header_offset(frame);
            let udp = l3 + frame[l3] % 16 * 4;
            let len = frame[udp + 4] * 256 + frame[udp + 5] - 8;
            let n = if len < old_buf.len() {
                len
            } else {
                old_buf.len() as int
            };
            &&& result matches Some(got) && got.0 == n && got.1 == SocketAddr::V4(src)
            &&& buf.len() == old_buf.len()
            &&& forall|k: int| 0 <= k < n ==> #[trigger] buf[k] == frame[udp + 8 + k]
            &&& forall|k: int| n <= k < buf.len() ==> #[trigger] buf[k] == old_buf[k]
        }),
        reply is None,
        after.recv_queue == before.recv_queue,
        later - now <= 300_000_000_000 ==> (after.arp_handler.cache.find(src.ip, later) matches Some(m)
            && forall|k: int| 0 <= k < 6 ==> #[trigger] m.octets@[k] == frame[6 + k]),
        later - now > 300_000_000_000 ==> after.arp_handler.cache.find(src.ip, later) is None,
{
    let l3 = header_offset(frame);
    let udp = udp::ip4_payload_start(frame, l3);
    let payload = udp::udp_payload_at(frame, udp);
    assert(addr::ipv4_at(frame, l3 + 12) == src.ip);
    assert(bytes::be16_at(frame, udp) == src.port);
    let v = before.rx_view(frame, port, hw_vlan_tci);
    assert(v == (RxView::Plain {
        src_ip: src.ip,
        src_mac: frame.subrange(6, 12),
        src_port: src.port,
        dst_port: port,
        payload,
    }));
    let counted = before.with_rx(payload.len());
    let taught = choose|taught: UdpSocket| #[trigger]
        taught.learned(counted, src.ip, frame.subrange(6, 12), now) && after.passed_on(
            taught,
            payload,
            SocketAddr::V4(src),
            true,
            old_buf,
            buf,
            None,
            result,
        );
    assert(after.delivered(
        taught,
        payload,
        SocketAddr::V4(src),
        true,
        old_buf,
        buf,
        None,
        result,
    ));
    arp::law_learned_is_found(
        counted.arp_handler.cache,
        taught.arp_handler.cache,
        src.ip,
        frame.subrange(6, 12),
        now,
        later,
    );
    assert(after.arp_handler.cache == taught.arp_handler.cache);
    assert forall|k: int| 0 <= k < 6 implies frame.subrange(6, 12)[k] == #[trigger] frame[6 + k] by {
    }
}

/// A UDP frame whose checksums hold, for the port of the socket, that is taken as without a VLAN
/// configuration and a tunnel, and that is not handed to the caller, because the call has got a
/// datagram already or the frame is not from the peer of the socket, goes with its source to the
/// end of the receive queue if there is room: fewer packets than the limit, and bytes for the
/// payload. Otherwise the queue stays.
pub proof fn law_datagram_is_queued(
    before: UdpSocket,
    after: UdpSocket,
    frame: Seq<u8>,
    port: u16,
    hw_vlan_tci: Option<u16>,
    now: u64,
    old_buf: Seq<u8>,
    buf: Seq<u8>,
    old_result: Received,
    result: Received,
    reply: Option<Seq<u8>>,
    src: SocketAddrV4,
)
    requires
        came_in(
            before,
            after,
            frame,
            port,
            hw_vlan_tci,
            now,
            old_buf,
            buf,
            old_result,
            result,
            reply,
        ),
        before.rx_view(frame, port, hw_vlan_tci) == (UdpSocket {
            vlan_config: None,
            gue_config: None,
            ..before
        }).rx_view(frame, port, hw_vlan_tci),
        udp::is_udp4_frame(frame),
        udp::ipv4_cksum_valid(frame),
        udp::udp_cksum_valid(frame),
        ({
            let l3 = header_offset(frame);
            let udp = l3 + frame[l3] % 16 * 4;
            &&& frame[udp + 2] * 256 + frame[udp + 3] == port
            &&& frame[udp] * 256 + frame[udp + 1] == src.port
            &&& frame[l3 + 12] == src.ip.a && frame[l3 + 13] == src.ip.b && frame[l3 + 14]
                == src.ip.c && frame[l3 + 15] == src.ip.d
        }),
        old_result is Some || (before.connected_addr matches Some(peer) && peer != SocketAddr::V4(
            src,
        )),
    ensures
        ({
            let l3 = header_offset(frame);
            let udp = l3 + frame[l3] % 16 * 4;
            let len = frame[udp + 4] * 256 + frame[udp + 5] - 8;
            let q = before.recv_queue;
            if q@.len() < q.packet_limit() && recv_queue::total_bytes(q@) + len <= q.byte_limit() {
                &&& after.recv_queue@.len() == q@.len() + 1
                &&& after.recv_queue@.last().src == SocketAddr::V4(src)
                &&& after.recv_queue@.last().payload == frame.subrange(udp + 8, udp + 8 + len)
                &&& forall|k: int|
                    0 <= k < q@.len() ==> #[trigger] after.recv_queue@[k] == before.recv_queue@[k]
                &&& after.rx_drops == before.rx_drops
            } else {
                &&& after.recv_queue@ == q@
                &&& after.rx_drops.packets == (before.rx_drops.packets + 1) % 0x1_0000_0000_0000_0000
                &&& after.rx_drops.bytes == (before.rx_drops.bytes + len) % 0x1_0000_0000_0000_0000
            }
        }),
        result == old_result,
        buf == old_buf,
        reply is None,
{
    let l3 = header_offset(frame);
    let udp = udp::ip4_payload_start(frame, l3);
    let payload = udp::udp_payload_at(frame, udp);
    assert(addr::ipv4_at(frame, l3 + 12) == src.ip);
    assert(bytes::be16_at(frame, udp) == src.port);
    let counted = before.with_rx(payload.len());
    let taught = choose|taught: UdpSocket| #[trigger]
        taught.learned(counted, src.ip, frame.subrange(6, 12), now) && after.passed_on(
            taught,
            payload,
            SocketAddr::V4(src),
            true,
            old_buf,
            buf,
            old_result,
            result,
        );
    assert(after.delivered(
        taught,
        payload,
        SocketAddr::V4(src),
        true,
        old_buf,
        buf,
        old_result,
        result,
    ));
}

/// Nothing is handed out or queued of a frame that is no UDP frame, whose checksums do not hold,
/// or that is for another port. A frame with no EtherType of ARP and no protocol number of ICMP
/// that is no sound UDP frame counts as malformed.
pub proof fn law_other_frames_are_not_handed_out(
    before: UdpSocket,
    after: UdpSocket,
    frame: Seq<u8>,
    port: u16,
    hw_vlan_tci: Option<u16>,
    now: u64,
    old_buf: Seq<u8>,
    buf: Seq<u8>,
    old_result: Received,
    result: Received,
    reply: Option<Seq<u8>>,
)
    requires
        came_in(
            before,
            after,
            frame,
            port,
            hw_vlan_tci,
            now,
            old_buf,
            buf,
            old_result,
            result,
            reply,
        ),
        before.gue_config is None,
        frame.len() >= 14,
        ({
            let l3 = header_offset(frame);
            let udp = l3 + frame[l3] % 16 * 4;
            !udp::is_udp4_frame(frame) || !udp::ipv4_cksum_valid(frame) || !udp::udp_cksum_valid(
                frame,
            ) || frame[udp + 2] * 256 + frame[udp + 3] != port
        }),
    ensures
        result == old_result,
        buf == old_buf,
        after.recv_queue == before.recv_queue,
        after.rx_drops == before.rx_drops,
        ({
            let l3 = header_offset(frame);
            &&& before.vlan_config is None
            &&& l3 <= frame.len()
            &&& !(frame[l3 - 2] == 8 && frame[l3 - 1] == 6)
            &&& !(frame[l3 - 2] == 8 && frame[l3 - 1] == 0 && frame.len() > l3 + 9 && frame[l3 + 9]
                == 1)
            &&& !udp::is_udp4_frame(frame) || !udp::ipv4_cksum_valid(frame)
                || !udp::udp_cksum_valid(frame)
        }) ==> after.perf_counters.rx_drops_parse_fail == (before.perf_counters.rx_drops_parse_fail
            + 1) % 0x1_0000_0000_0000_0000,
{
    lemma_rx_view_of_no_datagram(before, frame, port, hw_vlan_tci);
}

/// A frame that is no sound UDP frame for a port is no datagram to a socket without a tunnel.
proof fn lemma_rx_view_of_no_datagram(
    socket: UdpSocket,
    frame: Seq<u8>,
    port: u16,
    hw_vlan_tci: Option<u16>,
)
    requires
        socket.gue_config is None,
    ensures
        socket.rx_view(frame, port, hw_vlan_tci) matches RxView::Plain { dst_port, .. }
            ==> udp::is_udp4_frame(frame) && udp::ipv4_cksum_valid(frame) && udp::udp_cksum_valid(
            frame,
        ) && ({
            let l3 = header_offset(frame);
            let udp = l3 + frame[l3] % 16 * 4;
            dst_port == frame[udp + 2] * 256 + frame[udp + 3]
        }),
        !(socket.rx_view(frame, port, hw_vlan_tci) is Tunnelled),
{
}

/// Frames that the VLAN configuration lets pass are taken as without one, and all others are
/// ignored. The VLAN of a frame is in the lower twelve bits of its tag, or of the tag that the
/// NIC stripped off. An access port takes its own VLAN and untagged frames, a trunk the VLANs on
/// its list and, with a native VLAN, untagged frames, and strict tagging its own VLAN alone.
pub proof fn law_which_vlans_pass(
    socket: UdpSocket,
    config: VlanConfig,
    frame: Seq<u8>,
    port: u16,
    hw_vlan_tci: Option<u16>,
)
    requires
        socket.vlan_config == Some(config),
        frame.len() >= 14,
        frame[12] == 0x81 && frame[13] == 0 ==> frame.len() >= 18,
    ensures
        ({
            let tag = if frame[12] == 0x81 && frame[13] == 0 {
                Some(frame[14] * 256 + frame[15])
            } else {
                match hw_vlan_tci {
                    Some(tci) => Some(tci as int),
                    None => None,
                }
            };
            let passes = match tag {
                Some(word) => match config.mode {
                    VlanMode::Access => word % 4096 == config.vlan_id,
                    VlanMode::Trunk { allowed_vlans, native_vlan } => exists|i: int|
                        0 <= i < allowed_vlans@.len() && #[trigger] allowed_vlans@[i] == word % 4096,
                    VlanMode::PortTagging => word % 4096 == config.vlan_id,
                },
                None => match config.mode {
                    VlanMode::Access => true,
                    VlanMode::Trunk { allowed_vlans, native_vlan } => native_vlan is Some,
                    VlanMode::PortTagging => false,
                },
            };
            socket.rx_view(frame, port, hw_vlan_tci) == if passes {
                (UdpSocket { vlan_config: None, ..socket }).rx_view(frame, port, hw_vlan_tci)
            } else {
                RxView::Ignored
            }
        }),
{
    let layout = vlan::layout_of(frame, hw_vlan_tci)->Some_0;
    let plain = UdpSocket { vlan_config: None, ..socket };
    assert(vlan::layout_of(frame, hw_vlan_tci) is Some);
    assert(plain.auto_arp == socket.auto_arp && plain.gue_config == socket.gue_config);
    if !(frame[12] == 0x81 && frame[13] == 0) && hw_vlan_tci is None {
        assert(vlan::layout_vid(layout) is None);
    } else {
        let vid = vlan::layout_vid(layout)->Some_0;
        match config.mode {
            VlanMode::Trunk { allowed_vlans, native_vlan } => {
                if allowed_vlans@.contains(vid) {
                    let i = choose|i: int| 0 <= i < allowed_vlans@.len() && allowed_vlans@[i] == vid;
                    assert(allowed_vlans@[i] == vid);
                }
            },
            _ => {},
        }
    }
}

/// A frame that carries no packet of the tunnel is taken as without a tunnel. One that does is
/// ignored if the inner packet is for another port, and otherwise gives the inner payload from
/// the inner source.
pub proof fn law_what_the_tunnel_takes(
    socket: UdpSocket,
    config: GueConfig,
    frame: Seq<u8>,
    port: u16,
    hw_vlan_tci: Option<u16>,
)
    requires
        socket.gue_config == Some(config),
        socket.vlan_config is None,
        frame.len() >= 14,
    ensures
        ({
            let l3 = header_offset(frame);
            let plain = UdpSocket { gue_config: None, ..socket };
            let ipv4 = frame.len() >= l3 && frame[l3 - 2] == 8 && frame[l3 - 1] == 0;
            match gue::gue4_inner(frame, l3, config.local_port) {
                Some(inner) if ipv4 => {
                    let udp = inner + frame[inner] % 16 * 4;
                    let len = frame[udp + 4] * 256 + frame[udp + 5];
                    socket.rx_view(frame, port, hw_vlan_tci) == if frame[udp + 2] * 256 + frame[udp
                        + 3] != port {
                        RxView::Ignored
                    } else {
                        RxView::Tunnelled {
                            src: SocketAddr::V4(
                                SocketAddrV4 {
                                    ip: Ipv4Addr {
                                        a: frame[inner + 12],
                                        b: frame[inner + 13],
                                        c: frame[inner + 14],
                                        d: frame[inner + 15],
                                    },
                                    port: (frame[udp] * 256 + frame[udp + 1]) as u16,
                                },
                            ),
                            payload: frame.subrange(udp + 8, udp + len),
                        }
                    }
                },
                _ => socket.rx_view(frame, port, hw_vlan_tci) == plain.rx_view(
                    frame,
                    port,
                    hw_vlan_tci,
                ),
            }
        }),
{
}

/// A payload out of the tunnel is handed to the caller as one of a plain datagram is.
pub proof fn law_tunnelled_datagram_is_handed_out(
    before: UdpSocket,
    after: UdpSocket,
    frame: Seq<u8>,
    port: u16,
    hw_vlan_tci: Option<u16>,
    now: u64,
    old_buf: Seq<u8>,
    buf: Seq<u8>,
    result: Received,
    reply: Option<Seq<u8>>,
    src: SocketAddr,
    payload: Seq<u8>,
)
    requires
        came_in(
            before,
            after,
            frame,
            port,
            hw_vlan_tci,
            now,
            old_buf,
            buf,
            None,
            result,
            reply,
        ),
        before.rx_view(frame, port, hw_vlan_tci) == (RxView::Tunnelled { src, payload }),
        old_buf.len() <= usize::MAX,
    ensures
        before.connected_addr is None || before.connected_addr == Some(src) ==> {
            let n = if payload.len() < old_buf.len() {
                payload.len() as int
            } else {
                old_buf.len() as int
            };
            &&& result matches Some(got) && got.0 == n && got.1 == src
            &&& buf.len() == old_buf.len()
            &&& forall|k: int| 0 <= k < n ==> #[trigger] buf[k] == payload[k]
            &&& forall|k: int| n <= k < buf.len() ==> #[trigger] buf[k] == old_buf[k]
            &&& after.recv_queue == before.recv_queue
        },
        (before.connected_addr matches Some(peer) && peer != src) ==> result is None && buf
            == old_buf,
        reply is None,
{
}

// ---------------------------------------------------------------------------
// Answers and reports
// ---------------------------------------------------------------------------

/// An ARP packet that passes teaches the socket where its sender is, for five minutes, and
/// changes nothing else but a counter. A request, of operation 1, for an address of the socket is
/// answered to its sender: with operation 2, from the Ethernet address of the socket and the
/// address asked for. Nothing else is answered. The packet stands behind the tag if there is one.
pub proof fn law_what_arp_does(
    before: UdpSocket,
    after: UdpSocket,
    frame: Seq<u8>,
    port: u16,
    hw_vlan_tci: Option<u16>,
    now: u64,
    old_buf: Seq<u8>,
    buf: Seq<u8>,
    old_result: Received,
    result: Received,
    reply: Option<Seq<u8>>,
    later: u64,
)
    requires
        came_in(
            before,
            after,
            frame,
            port,
            hw_vlan_tci,
            now,
            old_buf,
            buf,
            old_result,
            result,
            reply,
        ),
        before.vlan_config is None,
        before.auto_arp,
        frame.len() >= header_offset(frame) + 28,
        ({
            let p = header_offset(frame);
            &&& frame[p - 2] == 8 && frame[p - 1] == 6
            &&& frame[p] == 0 && frame[p + 1] == 1 && frame[p + 2] == 8 && frame[p + 3] == 0
            &&& frame[p + 4] == 6 && frame[p + 5] == 4
        }),
        before.arp_handler.local_mac@.len() == 6,
        now <= later,
    ensures
        ({
            let p = header_offset(frame);
            let sender = Ipv4Addr {
                a: frame[p + 14],
                b: frame[p + 15],
                c: frame[p + 16],
                d: frame[p + 17],
            };
            let target = Ipv4Addr {
                a: frame[p + 24],
                b: frame[p + 25],
                c: frame[p + 26],
                d: frame[p + 27],
            };
            &&& later - now <= 300_000_000_000 ==> (after.arp_handler.cache.find(
                sender,
                later,
            ) matches Some(m) && m.octets@ == frame.subrange(p + 8, p + 14))
            &&& forall|other: Ipv4Addr|
                other != sender ==> #[trigger] after.arp_handler.cache.find(other, later)
                    == before.arp_handler.cache.find(other, later)
            &&& reply is Some <==> frame[p + 6] == 0 && frame[p + 7] == 1 && exists|i: int|
                0 <= i < before.arp_handler.local_ips@.len()
                    && #[trigger] before.arp_handler.local_ips@[i] == target
            &&& reply matches Some(s) ==> {
                &&& s.len() == 42
                &&& s.subrange(0, 6) == frame.subrange(p + 8, p + 14)
                &&& s.subrange(6, 12) == before.arp_handler.local_mac@
                &&& s[12] == 8 && s[13] == 6
                &&& s[14] == 0 && s[15] == 1 && s[16] == 8 && s[17] == 0 && s[18] == 6 && s[19] == 4
                &&& s[20] == 0 && s[21] == 2
                &&& s.subrange(22, 28) == before.arp_handler.local_mac@
                &&& s[28] == target.a && s[29] == target.b && s[30] == target.c && s[31] == target.d
                &&& s.subrange(32, 38) == frame.subrange(p + 8, p + 14)
                &&& s[38] == sender.a && s[39] == sender.b && s[40] == sender.c && s[41] == sender.d
            }
        }),
        result == old_result,
        buf == old_buf,
        after.recv_queue == before.recv_queue,
{
    let p = header_offset(frame);
    let plain = vlan::untagged(frame);
    assert(vlan::is_tagged(frame) <==> p == 18);
    assert(before.rx_view(frame, port, hw_vlan_tci) is Arp);
    assert(plain.len() == frame.len() - (p - 14));
    assert(forall|k: int| 12 <= k < plain.len() ==> #[trigger] plain[k] == frame[k + (p - 14)]);
    lemma_arp_fields(frame, plain, p);
    let v = arp::arp_parse(plain)->Some_0;
    let mac = frame.subrange(p + 8, p + 14);
    let asker = [mac[0], mac[1], mac[2], mac[3], mac[4], mac[5]];
    assert(asker@ =~= mac);
    arp::law_learned_is_found(
        before.arp_handler.cache,
        after.arp_handler.cache,
        v.sender_ip,
        mac,
        now,
        later,
    );
    wire_laws::law_arp_reply_bytes(
        before.arp_handler.local_mac,
        v.target_ip,
        asker,
        v.sender_ip,
    );
    let ips = before.arp_handler.local_ips@;
    if ips.contains(v.target_ip) {
        let i = choose|i: int| 0 <= i < ips.len() && ips[i] == v.target_ip;
        assert(ips[i] == v.target_ip);
    }
}

/// What the ARP packet in a frame says.
proof fn lemma_arp_fields(frame: Seq<u8>, plain: Seq<u8>, p: int)
    requires
        p == 14 || p == 18,
        frame.len() >= p + 28,
        plain.len() == frame.len() - (p - 14),
        forall|k: int| 12 <= k < plain.len() ==> #[trigger] plain[k] == frame[k + (p - 14)],
        frame[p - 2] == 8 && frame[p - 1] == 6,
        frame[p] == 0 && frame[p + 1] == 1 && frame[p + 2] == 8 && frame[p + 3] == 0,
        frame[p + 4] == 6 && frame[p + 5] == 4,
    ensures
        arp::arp_parse(plain) matches Some(v) && {
            &&& v.operation == frame[p + 6] * 256 + frame[p + 7]
            &&& v.sender_mac == frame.subrange(p + 8, p + 14)
            &&& v.sender_ip == (Ipv4Addr {
                a: frame[p + 14],
                b: frame[p + 15],
                c: frame[p + 16],
                d: frame[p + 17],
            })
            &&& v.target_ip == (Ipv4Addr {
                a: frame[p + 24],
                b: frame[p + 25],
                c: frame[p + 26],
                d: frame[p + 27],
            })
        },
{
    let o = p - 14;
    assert(plain[12] == frame[12 + o] && plain[13] == frame[13 + o] && plain[14] == frame[14 + o]);
    assert(plain[15] == frame[15 + o] && plain[16] == frame[16 + o] && plain[17] == frame[17 + o]);
    assert(plain[18] == frame[18 + o] && plain[19] == frame[19 + o] && plain[20] == frame[20 + o]);
    assert(plain[21] == frame[21 + o]);
    assert(plain[28] == frame[28 + o] && plain[29] == frame[29 + o] && plain[30] == frame[30 + o]);
    assert(plain[31] == frame[31 + o]);
    assert(plain[38] == frame[38 + o] && plain[39] == frame[39 + o] && plain[40] == frame[40 + o]);
    assert(plain[41] == frame[41 + o]);
    wire_laws::law_what_is_an_arp_packet(plain);
    assert(plain.subrange(22, 28) =~= frame.subrange(p + 8, p + 14));
}

/// A frame that reports an error, of whatever type and code, about a datagram that an address of
/// the socket sent from its port, puts one error at the end of the error queue, if fewer than
/// sixteen wait there: of the kind, and with the text, that the error has. Any other frame leaves
/// the queue as it is.
pub proof fn law_errors_are_reported(
    before: UdpSocket,
    after: UdpSocket,
    frame: Seq<u8>,
    port: u16,
    hw_vlan_tci: Option<u16>,
    now: u64,
    old_buf: Seq<u8>,
    buf: Seq<u8>,
    old_result: Received,
    result: Received,
    reply: Option<Seq<u8>>,
)
    requires
        came_in(
            before,
            after,
            frame,
            port,
            hw_vlan_tci,
            now,
            old_buf,
            buf,
            old_result,
            result,
            reply,
        ),
        before.vlan_config is None,
        before.error_queue@.len() <= 16,
        frame.len() >= 14,
    ensures
        ({
            let concerned = match icmp::icmp_error_of(frame) {
                Some(info) => {
                    &&& before.local_addr matches SocketAddr::V4(local) && local.port
                        == info.original_src_port
                    &&& exists|i: int|
                        0 <= i < before.icmp_handler.local_ips@.len()
                            && #[trigger] before.icmp_handler.local_ips@[i] == info.original_src_ip
                },
                None => false,
            };
            &&& concerned && before.error_queue@.len() < 16 ==> {
                let info = icmp::icmp_error_of(frame)->Some_0;
                &&& after.error_queue@.len() == before.error_queue@.len() + 1
                &&& after.error_queue@.last().kind == icmp::error_kind(
                    info.icmp_type,
                    info.icmp_code,
                )
                &&& after.error_queue@.last().message@ == info.cause() + " (from "@
                    + text::ipv4_text(info.error_source) + ")"@
                &&& result == old_result
                &&& buf == old_buf
                &&& reply is None
            }
            &&& !concerned && before.local_addr is V4 || before.error_queue@.len() == 16
                ==> after.error_queue@.len() == before.error_queue@.len()
        }),
        after.error_queue@.len() <= 16,
        forall|k: int|
            0 <= k < before.error_queue@.len() ==> #[trigger] after.error_queue@[k].kind
                == before.error_queue@[k].kind && after.error_queue@[k].message@
                == before.error_queue@[k].message@,
{
    let view = before.rx_view(frame, port, hw_vlan_tci);
    let old_views = socket::error_views(before.error_queue@);
    let views = socket::error_views(after.error_queue@);
    assert(views.len() == after.error_queue@.len());
    if view is Icmp {
        let ips = before.icmp_handler.local_ips@;
        match icmp::icmp_error_of(frame) {
            Some(info) => {
                lemma_error_is_no_request(frame, ips);
                if ips.contains(info.original_src_ip) {
                    let i = choose|i: int| 0 <= i < ips.len() && ips[i] == info.original_src_ip;
                    assert(ips[i] == info.original_src_ip);
                }
            },
            None => {},
        }
        assert forall|k: int| 0 <= k < before.error_queue@.len() implies #[trigger] after.error_queue@[k].kind
            == before.error_queue@[k].kind && after.error_queue@[k].message@
            == before.error_queue@[k].message@ by {
            assert(views[k] == old_views[k]);
        }
        if after.error_queue@.len() > before.error_queue@.len() {
            assert(views.last() == socket::error_view(after.error_queue@.last()));
        }
    } else {
        lemma_errors_are_control_messages(before, frame, port, hw_vlan_tci);
        assert(after.error_queue == before.error_queue);
    }
}

/// A frame that reports an error asks for no echo.
proof fn lemma_error_is_no_request(frame: Seq<u8>, ips: Seq<Ipv4Addr>)
    requires
        icmp::icmp_error_of(frame) is Some,
    ensures
        icmp::request_for(frame, ips) is None,
{
}

/// A frame that reports an error is taken as a control message where every VLAN passes.
proof fn lemma_errors_are_control_messages(
    socket: UdpSocket,
    frame: Seq<u8>,
    port: u16,
    hw_vlan_tci: Option<u16>,
)
    requires
        socket.vlan_config is None,
        frame.len() >= 14,
    ensures
        icmp::icmp_error_of(frame) is Some || icmp::icmp_parse(frame) is Some ==> socket.rx_view(
            frame,
            port,
            hw_vlan_tci,
        ) is Icmp,
{
}

/// An echo request, of type 8 and code 0, for an address of the socket is answered if the socket
/// answers them: to its sender, from the Ethernet address of the socket and the address asked,
/// with type 0 and code 0, time to live 64, and the identifier, the sequence number and the
/// payload of the request. No other frame that is an ICMP message is answered.
pub proof fn law_what_is_echoed(
    before: UdpSocket,
    after: UdpSocket,
    frame: Seq<u8>,
    port: u16,
    hw_vlan_tci: Option<u16>,
    now: u64,
    old_buf: Seq<u8>,
    buf: Seq<u8>,
    old_result: Received,
    result: Received,
    reply: Option<Seq<u8>>,
    v: icmp::IcmpView,
)
    requires
        came_in(
            before,
            after,
            frame,
            port,
            hw_vlan_tci,
            now,
            old_buf,
            buf,
            old_result,
            result,
            reply,
        ),
        before.vlan_config is None,
        frame.len() >= 14,
        icmp::icmp_parse(frame) == Some(v),
        28 + v.payload.len() <= 0xFFFF,
        before.icmp_handler.local_mac@.len() == 6,
    ensures
        reply is Some <==> before.auto_icmp && v.icmp_type == 8 && v.icmp_code == 0 && exists|i: int|
            0 <= i < before.icmp_handler.local_ips@.len()
                && #[trigger] before.icmp_handler.local_ips@[i] == v.dst_ip,
        reply matches Some(s) ==> {
            &&& s.len() == 42 + v.payload.len()
            &&& s.subrange(0, 6) == frame.subrange(6, 12)
            &&& s.subrange(6, 12) == before.icmp_handler.local_mac@
            &&& s[12] == 8 && s[13] == 0
            &&& s[14] == 0x45 && s[16] * 256 + s[17] == 28 + v.payload.len()
            &&& s[22] == 64 && s[23] == 1
            &&& s[26] == v.dst_ip.a && s[27] == v.dst_ip.b && s[28] == v.dst_ip.c && s[29]
                == v.dst_ip.d
            &&& s[30] == v.src_ip.a && s[31] == v.src_ip.b && s[32] == v.src_ip.c && s[33]
                == v.src_ip.d
            &&& s[34] == 0 && s[35] == 0
            &&& s[38] * 256 + s[39] == v.identifier
            &&& s[40] * 256 + s[41] == v.sequence
            &&& s.skip(42) == v.payload
        },
        result == old_result,
        buf == old_buf,
        after.recv_queue == before.recv_queue,
{
    lemma_errors_are_control_messages(before, frame, port, hw_vlan_tci);
    wire_laws::law_what_is_a_control_message(frame);
    let ips = before.icmp_handler.local_ips@;
    if ips.contains(v.dst_ip) {
        let i = choose|i: int| 0 <= i < ips.len() && ips[i] == v.dst_ip;
        assert(ips[i] == v.dst_ip);
    }
    wire_laws::law_control_frame_bytes(v.reply_from(before.icmp_handler.local_mac@));
}

/// What kind of error a report is: a destination that refuses, for an unreachable protocol or
/// port (type 3, codes 2 and 3); a permission that is missing, for what is prohibited (type 3,
/// code 13); a time that ran out (type 11, codes 0 and 1); bad data, for a parameter problem
/// (type 12); and otherwise none of these.
pub proof fn law_kinds_of_reports(kind: u8, code: u8)
    ensures
        icmp::error_kind(kind, code) == ErrorKind::ConnectionRefused <==> kind == 3 && (code == 2
            || code == 3),
        icmp::error_kind(kind, code) == ErrorKind::PermissionDenied <==> kind == 3 && code == 13,
        icmp::error_kind(kind, code) == ErrorKind::TimedOut <==> kind == 11 && (code == 0 || code
            == 1),
        icmp::error_kind(kind, code) == ErrorKind::InvalidData <==> kind == 12,
        icmp::error_kind(kind, code) == ErrorKind::Other <==> !(kind == 3 && (code == 2 || code == 3
            || code == 13)) && !(kind == 11 && (code == 0 || code == 1)) && kind != 12,
{
}

/// What a report says: a text of its own for every unreachable network, host, protocol and port,
/// for what is prohibited, exceeded, redirected and badly set, with the MTU where a fragment was
/// needed, and the code of any other unreachable destination.
pub proof fn law_texts_of_reports(info: icmp::IcmpErrorInfo)
    ensures
        info.icmp_type == 3 && info.icmp_code == 0 ==> info.cause() == "ICMP: network unreachable"@,
        info.icmp_type == 3 && info.icmp_code == 1 ==> info.cause() == "ICMP: host unreachable"@,
        info.icmp_type == 3 && info.icmp_code == 2 ==> info.cause()
            == "ICMP: protocol unreachable"@,
        info.icmp_type == 3 && info.icmp_code == 3 ==> info.cause() == "ICMP: port unreachable"@,
        info.icmp_type == 3 && info.icmp_code == 4 ==> info.cause()
            == "ICMP: fragmentation needed, next-hop MTU "@ + text::decimal16(info.next_hop_mtu),
        info.icmp_type == 3 && info.icmp_code == 13 ==> info.cause()
            == "ICMP: communication administratively prohibited"@,
        info.icmp_type == 3 && info.icmp_code != 13 && info.icmp_code > 4 ==> info.cause()
            == "ICMP: destination unreachable code "@ + text::decimal8(info.icmp_code),
        info.icmp_type == 11 && info.icmp_code == 0 ==> info.cause()
            == "ICMP: TTL exceeded in transit"@,
        info.icmp_type == 11 && info.icmp_code == 1 ==> info.cause()
            == "ICMP: fragment reassembly time exceeded"@,
        info.icmp_type == 5 ==> info.cause() == "ICMP: redirect"@,
        info.icmp_type == 12 ==> info.cause() == "ICMP: parameter problem"@,
{
}

// ---------------------------------------------------------------------------
// What is learned and counted
// ---------------------------------------------------------------------------

/// A UDP frame whose checksums hold, that is taken as without a VLAN configuration and a tunnel,
/// counts as a packet with its payload, and teaches the socket where its sender is, also if it is
/// for another port. What is known of others stays.
pub proof fn law_senders_are_learned(
    before: UdpSocket,
    after: UdpSocket,
    frame: Seq<u8>,
    port: u16,
    hw_vlan_tci: Option<u16>,
    now: u64,
    old_buf: Seq<u8>,
    buf: Seq<u8>,
    old_result: Received,
    result: Received,
    reply: Option<Seq<u8>>,
    src: Ipv4Addr,
    later: u64,
)
    requires
        came_in(
            before,
            after,
            frame,
            port,
            hw_vlan_tci,
            now,
            old_buf,
            buf,
            old_result,
            result,
            reply,
        ),
        before.rx_view(frame, port, hw_vlan_tci) == (UdpSocket {
            vlan_config: None,
            gue_config: None,
            ..before
        }).rx_view(frame, port, hw_vlan_tci),
        udp::is_udp4_frame(frame),
        udp::ipv4_cksum_valid(frame),
        udp::udp_cksum_valid(frame),
        ({
            let l3 = header_offset(frame);
            frame[l3 + 12] == src.a && frame[l3 + 13] == src.b && frame[l3 + 14] == src.c && frame[l3
                + 15] == src.d
        }),
        now <= later,
    ensures
        later - now <= 300_000_000_000 ==> (after.arp_handler.cache.find(src, later) matches Some(m)
            && m.octets@ == frame.subrange(6, 12)),
        forall|other: Ipv4Addr|
            other != src ==> #[trigger] after.arp_handler.cache.find(other, later)
                == before.arp_handler.cache.find(other, later),
        after.perf_counters.rx_packets == (before.perf_counters.rx_packets + 1)
            % 0x1_0000_0000_0000_0000,
        ({
            let l3 = header_offset(frame);
            let udp = l3 + frame[l3] % 16 * 4;
            let len = frame[udp + 4] * 256 + frame[udp + 5] - 8;
            after.perf_counters.rx_bytes == (before.perf_counters.rx_bytes + len)
                % 0x1_0000_0000_0000_0000
        }),
        after.arp_handler.local_ips == before.arp_handler.local_ips,
        after.local_addr == before.local_addr && after.connected_addr == before.connected_addr,
        after.error_queue == before.error_queue,
{
    let l3 = header_offset(frame);
    let udp = udp::ip4_payload_start(frame, l3);
    let payload = udp::udp_payload_at(frame, udp);
    let src_port = bytes::be16_at(frame, udp);
    let dst_port = bytes::be16_at(frame, udp + 2);
    assert(addr::ipv4_at(frame, l3 + 12) == src);
    let counted = before.with_rx(payload.len());
    let taught = choose|taught: UdpSocket| #[trigger]
        taught.learned(counted, src, frame.subrange(6, 12), now) && after.passed_on(
            taught,
            payload,
            socket::v4(src, src_port),
            dst_port == port,
            old_buf,
            buf,
            old_result,
            result,
        );
    arp::law_learned_is_found(
        counted.arp_handler.cache,
        taught.arp_handler.cache,
        src,
        frame.subrange(6, 12),
        now,
        later,
    );
    assert(after.arp_handler.cache == taught.arp_handler.cache);
}

/// A frame that is too short for an Ethernet header does nothing.
pub proof fn law_short_frames_do_nothing(
    before: UdpSocket,
    after: UdpSocket,
    frame: Seq<u8>,
    port: u16,
    hw_vlan_tci: Option<u16>,
    now: u64,
    old_buf: Seq<u8>,
    buf: Seq<u8>,
    old_result: Received,
    result: Received,
    reply: Option<Seq<u8>>,
)
    requires
        came_in(
            before,
            after,
            frame,
            port,
            hw_vlan_tci,
            now,
            old_buf,
            buf,
            old_result,
            result,
            reply,
        ),
        frame.len() < 14,
    ensures
        after == before,
        buf == old_buf,
        result == old_result,
        reply is None,
{
}

/// The frames of a burst are handled one after the other, none left out: each turns the state
/// behind the one before it into the next, and its reply comes behind the replies so far.
pub proof fn law_bursts_go_frame_by_frame(
    trace: Seq<BurstState>,
    frames: Seq<RxBytes>,
    port: u16,
    now: u64,
    i: int,
)
    requires
        socket::is_trace(trace, frames, port, now),
        0 <= i < frames.len(),
    ensures
        trace.len() == frames.len() + 1,
        exists|reply: Option<Seq<u8>>| #[trigger]
            came_in(
                trace[i].socket,
                trace[i + 1].socket,
                frames[i].data@,
                port,
                frames[i].hw_vlan_tci,
                now,
                trace[i].buf,
                trace[i + 1].buf,
                trace[i].result,
                trace[i + 1].result,
                reply,
            ) && match reply {
                Some(bytes) => trace[i + 1].replies.len() == trace[i].replies.len() + 1
                    && trace[i + 1].replies.last() == bytes && forall|k: int|
                    0 <= k < trace[i].replies.len() ==> #[trigger] trace[i + 1].replies[k]
                        == trace[i].replies[k],
                None => trace[i + 1].replies == trace[i].replies,
            },
{
    assert(trace[i + 1].after(trace[i], frames[i], port, now));
    let reply = choose|reply: Option<Seq<u8>>| #[trigger]
        socket::with_reply(trace[i].replies, reply) == trace[i + 1].replies
            && trace[i + 1].socket.received(
            trace[i].socket,
            trace[i].socket.rx_view(frames[i].data@, port, frames[i].hw_vlan_tci),
            frames[i].data@,
            port,
            now,
            trace[i].buf,
            trace[i + 1].buf,
            trace[i].result,
            trace[i + 1].result,
            reply,
        );
    assert(came_in(
        trace[i].socket,
        trace[i + 1].socket,
        frames[i].data@,
        port,
        frames[i].hw_vlan_tci,
        now,
        trace[i].buf,
        trace[i + 1].buf,
        trace[i].result,
        trace[i + 1].result,
        reply,
    ));
}

/// While the socket searches for a neighbour, an untagged ARP packet teaches it where the sender
/// is, so that a search for that address is over, and a request for one of its addresses is
/// answered as ever.
pub proof fn law_searches_learn_from_arp(
    before: UdpSocket,
    after: UdpSocket,
    frame: Seq<u8>,
    now: u64,
    reply: Option<Seq<u8>>,
)
    requires
        after.absorbed(before, frame, now, reply),
        frame.len() >= 42,
        frame[12] == 8 && frame[13] == 6,
        frame[14] == 0 && frame[15] == 1 && frame[16] == 8 && frame[17] == 0,
        frame[18] == 6 && frame[19] == 4,
    ensures
        ({
            let sender = Ipv4Addr { a: frame[28], b: frame[29], c: frame[30], d: frame[31] };
            let target = Ipv4Addr { a: frame[38], b: frame[39], c: frame[40], d: frame[41] };
            &&& after.arp_handler.cache.find(sender, now) matches Some(m) && m.octets@
                == frame.subrange(22, 28)
            &&& forall|other: Ipv4Addr|
                other != sender ==> #[trigger] after.arp_handler.cache.find(other, now)
                    == before.arp_handler.cache.find(other, now)
            &&& reply is Some <==> frame[20] == 0 && frame[21] == 1 && exists|i: int|
                0 <= i < before.arp_handler.local_ips@.len()
                    && #[trigger] before.arp_handler.local_ips@[i] == target
            &&& reply matches Some(s) ==> s == arp::reply_frame(
                before.arp_handler.local_mac@,
                target,
                frame.subrange(22, 28),
                sender,
            )
        }),
        after.recv_queue == before.recv_queue,
{
    let v = arp::arp_parse(frame)->Some_0;
    assert(arp::arp_parse(frame) is Some);
    arp::law_learned_is_found(
        before.arp_handler.cache,
        after.arp_handler.cache,
        v.sender_ip,
        v.sender_mac,
        now,
        now,
    );
    let ips = before.arp_handler.local_ips@;
    if ips.contains(v.target_ip) {
        let i = choose|i: int| 0 <= i < ips.len() && ips[i] == v.target_ip;
        assert(ips[i] == v.target_ip);
    }
}

/// While the socket searches for a neighbour, the payload of an untagged UDP frame goes with its
/// source to the end of the receive queue, if there is room, and its sender is learned. Any other
/// frame that is not ARP does nothing.
pub proof fn law_searches_keep_datagrams(
    before: UdpSocket,
    after: UdpSocket,
    frame: Seq<u8>,
    now: u64,
    reply: Option<Seq<u8>>,
)
    requires
        after.absorbed(before, frame, now, reply),
        frame.len() < 14 || !(frame[12] == 8 && frame[13] == 6),
    ensures
        reply is None,
        frame.len() < 14 || frame[12] != 8 || frame[13] != 0 || !udp::is_udp4_frame(frame) ==> after
            == before,
        frame.len() >= 14 && frame[12] == 8 && frame[13] == 0 && udp::is_udp4_frame(frame) ==> {
            let udp = 14 + frame[14] % 16 * 4;
            let len = frame[udp + 4] * 256 + frame[udp + 5] - 8;
            let src = Ipv4Addr { a: frame[26], b: frame[27], c: frame[28], d: frame[29] };
            let q = before.recv_queue;
            &&& q@.len() < q.packet_limit() && recv_queue::total_bytes(q@) + len <= q.byte_limit()
                ==> {
                &&& after.recv_queue@.len() == q@.len() + 1
                &&& after.recv_queue@.last().payload == frame.subrange(udp + 8, udp + 8 + len)
                &&& after.recv_queue@.last().src matches SocketAddr::V4(from)
                &&& from.ip == src
                &&& from.port == frame[udp] * 256 + frame[udp + 1]
            }
            &&& !(q@.len() < q.packet_limit() && recv_queue::total_bytes(q@) + len
                <= q.byte_limit()) ==> after.recv_queue@ == q@
            &&& after.arp_handler.cache.find(src, now) matches Some(m) && m.octets@
                == frame.subrange(6, 12)
        },
{
    if frame.len() >= 14 && frame[12] == 8 && frame[13] == 0 && udp::is_udp4_frame(frame) {
        let udp = udp::ip4_payload_start(frame, 14);
        let src = addr::ipv4_at(frame, 26);
        let payload = udp::udp_payload_at(frame, udp);
        let taught = choose|taught: UdpSocket| #[trigger]
            taught.learned(before, src, frame.subrange(6, 12), now) && after.queued(
                taught,
                payload,
                socket::v4(src, bytes::be16_at(frame, udp)),
            );
        arp::law_learned_is_found(
            before.arp_handler.cache,
            taught.arp_handler.cache,
            src,
            frame.subrange(6, 12),
            now,
            now,
        );
        assert(after.arp_handler.cache == taught.arp_handler.cache);
        assert(payload.len() == frame[udp + 4] * 256 + frame[udp + 5] - 8);
    }
}

/// Every ARP packet and every ICMP message that the socket takes counts as one, whatever it says.
pub proof fn law_messages_are_counted(
    before: UdpSocket,
    after: UdpSocket,
    frame: Seq<u8>,
    now: u64,
    reply: Option<Seq<u8>>,
)
    ensures
        after.arp_handled(before, frame, now, reply) && before.perf_counters.rx_arp_handled
            < u64::MAX ==> after.perf_counters == (PerfCounters {
            rx_arp_handled: after.perf_counters.rx_arp_handled,
            ..before.perf_counters
        }) && after.perf_counters.rx_arp_handled == before.perf_counters.rx_arp_handled + 1,
        after.control_handled(before, frame, reply) && before.perf_counters.rx_icmp_handled
            < u64::MAX ==> after.perf_counters == (PerfCounters {
            rx_icmp_handled: after.perf_counters.rx_icmp_handled,
            ..before.perf_counters
        }) && after.perf_counters.rx_icmp_handled == before.perf_counters.rx_icmp_handled + 1,
{
}

/// A send looks the neighbour up once, and counts a hit if it is known and a miss if not.
pub proof fn law_lookups_are_counted(
    before: UdpSocket,
    after: UdpSocket,
    r: Result<SendStep, IoError>,
    tx_buf: Seq<u8>,
    payload: Seq<u8>,
    dst: SocketAddrV4,
    now: u64,
)
    requires
        after.send_started(before, r, tx_buf, payload, SocketAddr::V4(dst), now),
        !(r matches Err(e) && e.kind == ErrorKind::InvalidInput),
        before.perf_counters.arp_cache_hits < u64::MAX,
        before.perf_counters.arp_cache_misses < u64::MAX,
    ensures
        ({
            let target = match before.gue_config {
                Some(config) => config.remote_ip,
                None => dst.ip,
            };
            let hop = hop_to(before, target);
            let known = hop == (Ipv4Addr { a: 255, b: 255, c: 255, d: 255 })
                || before.arp_handler.cache.find(hop, now) is Some;
            let hit: int = if known {
                1
            } else {
                0
            };
            &&& after.perf_counters.arp_cache_hits == before.perf_counters.arp_cache_hits + hit
            &&& after.perf_counters.arp_cache_misses == before.perf_counters.arp_cache_misses + 1
                - hit
            &&& after.perf_counters == (PerfCounters {
                arp_cache_hits: after.perf_counters.arp_cache_hits,
                arp_cache_misses: after.perf_counters.arp_cache_misses,
                ..before.perf_counters
            })
        }),
{
    let target = match before.gue_config {
        Some(config) => config.remote_ip,
        None => dst.ip,
    };
    assert(before.neighbour(dst.ip) == hop_to(before, target));
}

} // verus!
