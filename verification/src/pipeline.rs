//! Receiving from worker threads: packets come in rings, one for each worker, and their
//! payloads lie in a frame pool.

use std::collections::VecDeque;

use vstd::prelude::*;

use crate::addr::SocketAddr;
use crate::bytes;
use crate::bytes::{copy_bytes, copy_prefix, slice_of};
use crate::error::{ErrorKind, IoError};
use crate::frame_pool::{AppPacket, FramePool};
use crate::recv_queue;
use crate::socket::{Received, UdpSocket};

verus! {

/// The packets in rings.
pub open spec fn ring_views(rings: Seq<VecDeque<AppPacket>>) -> Seq<Seq<AppPacket>> {
    rings.map_values(|r: VecDeque<AppPacket>| r@)
}

/// Whether the ring at `i`, counted from `start` on around the rings, is the first that
/// holds a packet.
pub open spec fn first_full(rings: Seq<Seq<AppPacket>>, start: int, i: int) -> bool {
    &&& 0 <= i < rings.len()
    &&& rings[(start + i) % rings.len() as int].len() > 0
    &&& forall|k: int| 0 <= k < i ==> (#[trigger] rings[(start + k) % rings.len() as int]).len() == 0
}

/// The rings and the index after `packet` was taken: from the first ring that holds one,
/// from the index on around the rings; the index is then behind that ring.
pub open spec fn dequeued(
    old_rings: Seq<Seq<AppPacket>>,
    rings: Seq<Seq<AppPacket>>,
    old_index: usize,
    index: usize,
    packet: Option<AppPacket>,
) -> bool {
    match packet {
        Some(p) => exists|i: int| #[trigger]
            first_full(old_rings, old_index as int, i) && ({
                let at = (old_index + i) % old_rings.len() as int;
                &&& p == old_rings[at][0]
                &&& rings == old_rings.update(at, old_rings[at].skip(1))
                &&& index == at + 1
            }),
        None => {
            &&& forall|k: int| 0 <= k < old_rings.len() ==> (#[trigger] old_rings[k]).len() == 0
            &&& index == old_index
            &&& rings == old_rings
        },
    }
}

/// Takes a packet from the rings: from the first that holds one, from `rr_index` on around
/// the rings. The search goes on behind that ring the next time.
pub fn dequeue_app_rings(rings: &mut Vec<VecDeque<AppPacket>>, rr_index: &mut usize) -> (r: Option<
    AppPacket,
>)
    ensures
        final(rings)@.len() == old(rings)@.len(),
        dequeued(
            ring_views(old(rings)@),
            ring_views(final(rings)@),
            *old(rr_index),
            *final(rr_index),
            r,
        ),
{
    let n = rings.len();
    if n == 0 {
        assert(ring_views(rings@) =~= ring_views(old(rings)@));
        return None;
    }
    let first: usize = *rr_index % n;
    let ghost views = ring_views(rings@);
    let mut i: usize = 0;
    while i < n
        invariant
            n == rings@.len(),
            0 <= i <= n,
            n > 0,
            first < n,
            first == *old(rr_index) % n,
            *rr_index == *old(rr_index),
            rings@ == old(rings)@,
            views == ring_views(rings@),
            forall|k: int| 0 <= k < i ==> (#[trigger] views[(*old(rr_index) + k) % n as int]).len() == 0,
        decreases n - i,
    {
        let at: usize = if i < n - first {
            first + i
        } else {
            i - (n - first)
        };
        proof {
            lemma_around(*old(rr_index) as int, i as int, n as int);
            assert(at == (*old(rr_index) + i) % n as int);
            assert(views[at as int] == rings@[at as int]@);
        }
        if rings[at].len() > 0 {
            let mut ring = VecDeque::<AppPacket>::new();
            let ghost whole = rings@[at as int]@;
            std::mem::swap(&mut ring, &mut rings[at]);
            let packet = ring.pop_front();
            assert(ring@ =~= whole.skip(1));
            std::mem::swap(&mut ring, &mut rings[at]);
            *rr_index = at + 1;
            proof {
                assert(ring_views(rings@) =~= views.update(at as int, whole.skip(1)));
                assert(first_full(views, *old(rr_index) as int, i as int));
            }
            return packet;
        }
        i = i + 1;
    }
    proof {
        assert forall|k: int| 0 <= k < n implies (#[trigger] views[k]).len() == 0 by {
            let i = if k >= first {
                k - first
            } else {
                k - first + n
            };
            lemma_around(*old(rr_index) as int, i, n as int);
            assert(views[(*old(rr_index) + i) % n as int].len() == 0);
        }
    }
    None
}

/// Going around rings.
proof fn lemma_around(start: int, i: int, n: int)
    requires
        0 <= start,
        0 <= i < n,
    ensures
        (start + i) % n == if i < n - start % n {
            start % n + i
        } else {
            i - (n - start % n)
        },
{
    vstd::arithmetic::div_mod::lemma_fundamental_div_mod(start, n);
    let q = start / n;
    let r = start % n;
    assert(0 <= r < n) by (nonlinear_arith)
        requires
            r == start % n,
            n > 0,
    ;
    assert(n * q == q * n) by (nonlinear_arith);
    if i < n - r {
        vstd::arithmetic::div_mod::lemma_fundamental_div_mod_converse(start + i, n, q, r + i);
    } else {
        assert((q + 1) * n == q * n + n) by (nonlinear_arith);
        vstd::arithmetic::div_mod::lemma_fundamental_div_mod_converse(
            start + i,
            n,
            q + 1,
            i - (n - r),
        );
    }
}

// ---------------------------------------------------------------------------
// Receiving
// ---------------------------------------------------------------------------

/// Whether as much of the payload of a packet as fits into `room` bytes lies in a slot of the
/// pool.
pub open spec fn lies_in(packet: AppPacket, pool: FramePool, room: nat) -> bool {
    packet.frame_ref.pool_idx < pool.slots() && packet.payload_offset + bytes::fitting(
        room,
        packet.payload_len as nat,
    ) <= pool.slot_size()
}

/// Whether all packets in the rings lie in slots of the pool, as far as they fit into `room`
/// bytes.
pub open spec fn all_lie_in(rings: Seq<Seq<AppPacket>>, pool: FramePool, room: nat) -> bool {
    forall|i: int, k: int|
        0 <= i < rings.len() && 0 <= k < rings[i].len() ==> lies_in(
            #[trigger] rings[i][k],
            pool,
            room,
        )
}

/// Whether the packet that is taken out of the rings next, if there is one, lies in a slot of
/// the pool, as far as it fits into `room` bytes.
pub open spec fn next_lies_in(
    rings: Seq<Seq<AppPacket>>,
    rr_index: usize,
    pool: FramePool,
    room: nat,
) -> bool {
    forall|after: Seq<Seq<AppPacket>>, index: usize, packet: AppPacket| #[trigger]
        dequeued(rings, after, rr_index, index, Some(packet)) ==> lies_in(packet, pool, room)
}

/// As much of the payload of a packet as fits into `room` bytes.
pub open spec fn payload_in(packet: AppPacket, pool: FramePool, room: nat) -> Seq<u8> {
    pool.slot(packet.frame_ref.pool_idx).subrange(
        packet.payload_offset as int,
        packet.payload_offset + bytes::fitting(room, packet.payload_len as nat),
    )
}

/// How a receive waits after so many polls that found nothing.
#[derive(Debug, Clone, Copy, PartialEq, Eq, Structural)]
pub enum Backoff {
    Spin,
    Yield,
    /// Sleep for a microsecond.
    Sleep,
}

/// How a receive waits after `empty_polls` polls in a row that found nothing.
pub fn backoff(empty_polls: u32) -> (r: Backoff)
    ensures
        empty_polls <= 64 ==> r == Backoff::Spin,
        64 < empty_polls <= 80 ==> r == Backoff::Yield,
        80 < empty_polls ==> r == Backoff::Sleep,
{
    if empty_polls <= 64 {
        Backoff::Spin
    } else if empty_polls <= 80 {
        Backoff::Yield
    } else {
        Backoff::Sleep
    }
}

impl UdpSocket {
    /// The socket, the buffer and the result after a packet was taken out of the rings. As
    /// much of its payload as fits is in the buffer. What a stranger sent to a connected
    /// socket goes on to the receive queue, cut to the buffer.
    pub open spec fn took(
        self,
        before: UdpSocket,
        payload: Seq<u8>,
        src: SocketAddr,
        counted: bool,
        old_buf: Seq<u8>,
        buf: Seq<u8>,
        result: Received,
    ) -> bool {
        let len = bytes::fitting(old_buf.len(), payload.len());
        &&& buf == bytes::overlaid(old_buf, payload)
        &&& if before.wants(src) {
            &&& result matches Some(got) && got.0 == len && got.1 == src
            &&& if counted {
                self.counted(before, len)
            } else {
                self == before
            }
        } else {
            &&& result is None
            &&& self.queued_by_pipeline(before, payload.take(len as int), src)
        }
    }

    /// The socket after the pipeline put a payload into the receive queue, or dropped it.
    pub open spec fn queued_by_pipeline(
        self,
        before: UdpSocket,
        payload: Seq<u8>,
        src: SocketAddr,
    ) -> bool {
        (UdpSocket { has_buffered_packets: before.has_buffered_packets, ..self }).queued(
            before,
            payload,
            src,
        ) && self.has_buffered_packets == (before.has_buffered_packets
            || before.recv_queue.has_room(payload.len()))
    }

    /// Takes a packet out of its slot.
    fn take_packet(
        &mut self,
        pool: &mut FramePool,
        packet: &AppPacket,
        counted: bool,
        buf: &mut [u8],
    ) -> (r: Received)
        requires
            old(self).recv_queue.wf(),
            counted ==> old(self).can_count(old(buf)@.len()),
            old(pool).wf(),
            old(pool).can_free(),
            lies_in(*packet, *old(pool), old(buf)@.len()),
        ensures
            final(self).recv_queue.wf(),
            final(pool).wf(),
            final(pool).slots() == old(pool).slots(),
            final(pool).slot_size() == old(pool).slot_size(),
            forall|i: u32| #[trigger] final(pool).slot(i) == old(pool).slot(i),
            final(pool).free_indices() == old(pool).free_indices().push(packet.frame_ref.pool_idx),
            final(self).took(
                *old(self),
                payload_in(*packet, *old(pool), old(buf)@.len()),
                packet.src_addr,
                counted,
                old(buf)@,
                final(buf)@,
                r,
            ),
    {
        let idx: u32 = packet.frame_ref.pool_idx;
        let start: usize = packet.payload_offset as usize;
        let whole: usize = packet.payload_len as usize;
        let fit: usize = if whole <= buf.len() {
            whole
        } else {
            buf.len()
        };
        let frame = pool.frame(idx);
        let payload = slice_of(frame, start, start + fit);
        assert(payload@ =~= payload_in(*packet, *pool, buf@.len()));
        let len = copy_prefix(buf, payload);
        let copied = copy_bytes(slice_of(payload, 0, len));
        assert(copied@ =~= payload@.take(len as int));
        pool.free(idx);
        let wanted = match self.connected_addr {
            Some(peer) => peer == packet.src_addr,
            None => true,
        };
        if !wanted {
            let queued_before = self.recv_queue.len();
            self.enqueue(copied, packet.src_addr);
            if self.recv_queue.len() > queued_before {
                self.has_buffered_packets = true;
            }
            return None;
        }
        if counted {
            self.count_received(len);
        }
        Some((len, packet.src_addr))
    }

    /// Whether a payload waits in the receive queue: of anyone, or with `peer_only` of the
    /// peer if the socket has one.
    pub open spec fn offers(self, peer_only: bool) -> bool {
        match self.connected_addr {
            Some(peer) if peer_only => !recv_queue::none_from(self.recv_queue@, peer),
            _ => self.recv_queue@.len() > 0,
        }
    }

    /// The socket, the rings, the pool, the buffer and the result after the pipeline was
    /// polled: a payload that it queued before comes first, otherwise the rings are looked
    /// at.
    pub open spec fn pipeline_polled(
        self,
        before: UdpSocket,
        old_rings: Seq<Seq<AppPacket>>,
        rings: Seq<Seq<AppPacket>>,
        old_pool: FramePool,
        pool: FramePool,
        counted: bool,
        peer_only: bool,
        old_buf: Seq<u8>,
        buf: Seq<u8>,
        result: Received,
    ) -> bool {
        if before.has_buffered_packets && before.offers(peer_only) {
            &&& result is Some
            &&& self.taken(before, peer_only, old_buf, buf, result)
            &&& self == (UdpSocket {
                recv_queue: self.recv_queue,
                has_buffered_packets: self.recv_queue@.len() > 0,
                ..before
            })
            &&& rings == old_rings
            &&& pool == old_pool
        } else {
            exists|packet: Option<AppPacket>, index: usize| #[trigger]
                dequeued(old_rings, rings, before.recv_from_rr_index, index, packet)
                    && self.polled(
                    before,
                    index,
                    packet,
                    old_pool,
                    pool,
                    counted,
                    old_buf,
                    buf,
                    result,
                )
        }
    }

    /// Whether the pipeline can be polled: a payload waits in the receive queue, or the packet
    /// that is next lies in a slot of the pool, as far as it fits into `room` bytes.
    pub open spec fn can_poll(
        self,
        rings: Seq<Seq<AppPacket>>,
        pool: FramePool,
        peer_only: bool,
        room: nat,
    ) -> bool {
        self.has_buffered_packets && self.offers(peer_only) || next_lies_in(
            rings,
            self.recv_from_rr_index,
            pool,
            room,
        )
    }

    /// Polls the pipeline once: a payload that it queued before comes first, with
    /// `peer_only` one of the peer; otherwise the rings are looked at. `counted` says whether
    /// the packet counts for a connection.
    pub fn poll_pipeline(
        &mut self,
        rings: &mut Vec<VecDeque<AppPacket>>,
        pool: &mut FramePool,
        buf: &mut [u8],
        counted: bool,
        peer_only: bool,
    ) -> (r: Received)
        requires
            old(self).wf(),
            counted ==> old(self).can_count(old(buf)@.len()),
            old(pool).wf(),
            old(pool).can_free(),
            old(self).can_poll(ring_views(old(rings)@), *old(pool), peer_only, old(buf)@.len()),
        ensures
            final(self).wf(),
            final(pool).wf(),
            final(pool).slots() == old(pool).slots(),
            final(pool).slot_size() == old(pool).slot_size(),
            forall|room: nat| #[trigger]
                all_lie_in(ring_views(old(rings)@), *old(pool), room) ==> all_lie_in(
                    ring_views(final(rings)@),
                    *final(pool),
                    room,
                ),
            final(self).pipeline_polled(
                *old(self),
                ring_views(old(rings)@),
                ring_views(final(rings)@),
                *old(pool),
                *final(pool),
                counted,
                peer_only,
                old(buf)@,
                final(buf)@,
                r,
            ),
    {
        if self.has_buffered_packets {
            if let Some((len, src)) = self.take_buffered(buf, peer_only) {
                if self.recv_queue.is_empty() {
                    self.has_buffered_packets = false;
                }
                return Some((len, src));
            }
            if self.recv_queue.is_empty() {
                self.has_buffered_packets = false;
            }
        }
        let mut index: usize = self.recv_from_rr_index;
        let packet = dequeue_app_rings(rings, &mut index);
        self.recv_from_rr_index = index;
        assert(*self == old(self).ready(index));
        match packet {
            Some(p) => {
                proof {
                    assert forall|room: nat| #[trigger]
                        all_lie_in(ring_views(old(rings)@), *old(pool), room) implies all_lie_in(
                        ring_views(rings@),
                        *old(pool),
                        room,
                    ) by {
                        lemma_dequeued_lies_in(
                            ring_views(old(rings)@),
                            ring_views(rings@),
                            old(self).recv_from_rr_index,
                            index,
                            p,
                            *old(pool),
                            room,
                        );
                    }
                }
                self.take_packet(pool, &p, counted, buf)
            },
            None => None,
        }
    }

    /// A receive from the pipeline that does not wait. What it hands out does not count for
    /// a connection.
    pub fn try_recv_from_pipeline(
        &mut self,
        rings: &mut Vec<VecDeque<AppPacket>>,
        pool: &mut FramePool,
        buf: &mut [u8],
    ) -> (r: Received)
        requires
            old(self).wf(),
            old(pool).wf(),
            old(pool).can_free(),
            old(self).can_poll(ring_views(old(rings)@), *old(pool), false, old(buf)@.len()),
        ensures
            final(self).wf(),
            final(pool).wf(),
            final(pool).slots() == old(pool).slots(),
            final(pool).slot_size() == old(pool).slot_size(),
            forall|room: nat| #[trigger]
                all_lie_in(ring_views(old(rings)@), *old(pool), room) ==> all_lie_in(
                    ring_views(final(rings)@),
                    *final(pool),
                    room,
                ),
            final(self).pipeline_polled(
                *old(self),
                ring_views(old(rings)@),
                ring_views(final(rings)@),
                *old(pool),
                *final(pool),
                false,
                false,
                old(buf)@,
                final(buf)@,
                r,
            ),
    {
        self.poll_pipeline(rings, pool, buf, false, false)
    }

    /// Whether `r` is what a step of a receive from the pipeline that waits gives: it fails
    /// when the wait has reached the read timeout, and otherwise polls.
    pub open spec fn pipeline_stepped(
        self,
        before: UdpSocket,
        old_rings: Seq<VecDeque<AppPacket>>,
        rings: Seq<VecDeque<AppPacket>>,
        old_pool: FramePool,
        pool: FramePool,
        peer_only: bool,
        old_buf: Seq<u8>,
        buf: Seq<u8>,
        started: u64,
        now: u64,
        r: Result<Received, IoError>,
    ) -> bool {
        match r {
            Ok(result) => {
                &&& !before.timed_out(started, now)
                &&& self.pipeline_polled(
                    before,
                    ring_views(old_rings),
                    ring_views(rings),
                    old_pool,
                    pool,
                    true,
                    peer_only,
                    old_buf,
                    buf,
                    result,
                )
            },
            Err(e) => {
                &&& before.timed_out(started, now)
                &&& e.kind == ErrorKind::WouldBlock
                &&& e.message@ == "read timed out"@
                &&& self == before
                &&& rings == old_rings
                &&& pool == old_pool
                &&& buf == old_buf
            },
        }
    }

    /// A step of a receive from the pipeline that waits.
    fn pipeline_step(
        &mut self,
        rings: &mut Vec<VecDeque<AppPacket>>,
        pool: &mut FramePool,
        buf: &mut [u8],
        peer_only: bool,
        started: u64,
        now: u64,
    ) -> (r: Result<Received, IoError>)
        requires
            old(self).wf(),
            old(self).can_count(old(buf)@.len()),
            old(pool).wf(),
            old(pool).can_free(),
            old(self).timed_out(started, now) || old(self).can_poll(
                ring_views(old(rings)@),
                *old(pool),
                peer_only,
                old(buf)@.len(),
            ),
            started <= now,
        ensures
            final(self).wf(),
            final(pool).wf(),
            final(pool).slots() == old(pool).slots(),
            final(pool).slot_size() == old(pool).slot_size(),
            forall|room: nat| #[trigger]
                all_lie_in(ring_views(old(rings)@), *old(pool), room) ==> all_lie_in(
                    ring_views(final(rings)@),
                    *final(pool),
                    room,
                ),
            final(self).pipeline_stepped(
                *old(self),
                old(rings)@,
                final(rings)@,
                *old(pool),
                *final(pool),
                peer_only,
                old(buf)@,
                final(buf)@,
                started,
                now,
                r,
            ),
    {
        if let Some(limit) = self.read_timeout {
            if (now - started) as u128 >= limit {
                return Err(IoError::new(ErrorKind::WouldBlock, "read timed out"));
            }
        }
        Ok(self.poll_pipeline(rings, pool, buf, true, peer_only))
    }

    /// A step of a receive from the pipeline that waits for a packet of anyone. What
    /// strangers sent to a connected socket is handed out too, once it is in the receive
    /// queue.
    pub fn recv_from_pipeline(
        &mut self,
        rings: &mut Vec<VecDeque<AppPacket>>,
        pool: &mut FramePool,
        buf: &mut [u8],
        started: u64,
        now: u64,
    ) -> (r: Result<Received, IoError>)
        requires
            old(self).wf(),
            old(self).can_count(old(buf)@.len()),
            old(pool).wf(),
            old(pool).can_free(),
            old(self).timed_out(started, now) || old(self).can_poll(
                ring_views(old(rings)@),
                *old(pool),
                false,
                old(buf)@.len(),
            ),
            started <= now,
        ensures
            final(self).wf(),
            final(pool).wf(),
            final(pool).slots() == old(pool).slots(),
            final(pool).slot_size() == old(pool).slot_size(),
            forall|room: nat| #[trigger]
                all_lie_in(ring_views(old(rings)@), *old(pool), room) ==> all_lie_in(
                    ring_views(final(rings)@),
                    *final(pool),
                    room,
                ),
            final(self).pipeline_stepped(
                *old(self),
                old(rings)@,
                final(rings)@,
                *old(pool),
                *final(pool),
                false,
                old(buf)@,
                final(buf)@,
                started,
                now,
                r,
            ),
    {
        self.pipeline_step(rings, pool, buf, false, started, now)
    }

    /// A step of a receive from the pipeline that waits for a packet of the address that the
    /// socket is connected to. What others sent stays in the receive queue.
    pub fn recv_pipeline(
        &mut self,
        rings: &mut Vec<VecDeque<AppPacket>>,
        pool: &mut FramePool,
        buf: &mut [u8],
        started: u64,
        now: u64,
    ) -> (r: Result<Received, IoError>)
        requires
            old(self).wf(),
            old(self).can_count(old(buf)@.len()),
            old(pool).wf(),
            old(pool).can_free(),
            old(self).timed_out(started, now) || old(self).can_poll(
                ring_views(old(rings)@),
                *old(pool),
                true,
                old(buf)@.len(),
            ),
            started <= now,
        ensures
            final(self).wf(),
            final(pool).wf(),
            final(pool).slots() == old(pool).slots(),
            final(pool).slot_size() == old(pool).slot_size(),
            forall|room: nat| #[trigger]
                all_lie_in(ring_views(old(rings)@), *old(pool), room) ==> all_lie_in(
                    ring_views(final(rings)@),
                    *final(pool),
                    room,
                ),
            final(self).pipeline_stepped(
                *old(self),
                old(rings)@,
                final(rings)@,
                *old(pool),
                *final(pool),
                true,
                old(buf)@,
                final(buf)@,
                started,
                now,
                r,
            ),
    {
        self.pipeline_step(rings, pool, buf, true, started, now)
    }

    /// The socket before it looks at what the rings gave, with the index of the ring that
    /// is next.
    pub open spec fn ready(self, index: usize) -> UdpSocket {
        UdpSocket {
            has_buffered_packets: self.has_buffered_packets && self.recv_queue@.len() > 0,
            recv_from_rr_index: index,
            ..self
        }
    }

    /// The socket, the pool, the buffer and the result after the rings gave a packet or
    /// none.
    pub open spec fn polled(
        self,
        before: UdpSocket,
        index: usize,
        packet: Option<AppPacket>,
        old_pool: FramePool,
        pool: FramePool,
        counted: bool,
        old_buf: Seq<u8>,
        buf: Seq<u8>,
        result: Received,
    ) -> bool {
        match packet {
            Some(p) => {
                &&& pool.free_indices() == old_pool.free_indices().push(p.frame_ref.pool_idx)
                &&& forall|i: u32| #[trigger] pool.slot(i) == old_pool.slot(i)
                &&& self.took(
                    before.ready(index),
                    payload_in(p, old_pool, old_buf.len()),
                    p.src_addr,
                    counted,
                    old_buf,
                    buf,
                    result,
                )
            },
            None => {
                &&& self == before.ready(index)
                &&& pool == old_pool
                &&& buf == old_buf
                &&& result is None
            },
        }
    }
}

/// A packet that was taken out of the rings lies in the pool, as those that stay do.
proof fn lemma_dequeued_lies_in(
    old_rings: Seq<Seq<AppPacket>>,
    rings: Seq<Seq<AppPacket>>,
    old_index: usize,
    index: usize,
    packet: AppPacket,
    pool: FramePool,
    room: nat,
)
    requires
        dequeued(old_rings, rings, old_index, index, Some(packet)),
        all_lie_in(old_rings, pool, room),
    ensures
        lies_in(packet, pool, room),
        all_lie_in(rings, pool, room),
{
    let i = choose|i: int| #[trigger]
        first_full(old_rings, old_index as int, i) && ({
            let at = (old_index + i) % old_rings.len() as int;
            &&& packet == old_rings[at][0]
            &&& rings == old_rings.update(at, old_rings[at].skip(1))
            &&& index == at + 1
        });
    let at = (old_index + i) % old_rings.len() as int;
    assert(lies_in(old_rings[at][0], pool, room));
    assert forall|a: int, k: int| 0 <= a < rings.len() && 0 <= k < rings[a].len() implies lies_in(
        #[trigger] rings[a][k],
        pool,
        room,
    ) by {
        if a == at {
            assert(rings[a][k] == old_rings[a][k + 1]);
        } else {
            assert(rings[a][k] == old_rings[a][k]);
        }
    }
}

// ---------------------------------------------------------------------------
// Laws
// ---------------------------------------------------------------------------

/// The rings take turns: a ring that holds a packet when it is its turn gives that packet,
/// and then it is the turn of the next one.
pub proof fn law_rings_take_turns(
    old_rings: Seq<Seq<AppPacket>>,
    rings: Seq<Seq<AppPacket>>,
    old_index: usize,
    index: usize,
    packet: Option<AppPacket>,
)
    requires
        dequeued(old_rings, rings, old_index, index, packet),
        old_rings.len() > 0,
        old_rings[old_index as int % old_rings.len() as int].len() > 0,
    ensures
        packet == Some(old_rings[old_index as int % old_rings.len() as int][0]),
        index == old_index as int % old_rings.len() as int + 1,
{
    let n = old_rings.len() as int;
    lemma_around(old_index as int, 0, n);
    assert(0 <= old_index as int % n < n) by (nonlinear_arith)
        requires
            n > 0,
    ;
    assert(packet is Some);
    let i = choose|i: int| #[trigger]
        first_full(old_rings, old_index as int, i) && ({
            let at = (old_index + i) % n;
            &&& packet->Some_0 == old_rings[at][0]
            &&& rings == old_rings.update(at, old_rings[at].skip(1))
            &&& index == at + 1
        });
    if i > 0 {
        assert(old_rings[(old_index + 0) % n].len() == 0);
    }
}

/// A packet is taken if there is one.
pub proof fn law_full_ring_is_found(
    old_rings: Seq<Seq<AppPacket>>,
    rings: Seq<Seq<AppPacket>>,
    old_index: usize,
    index: usize,
    packet: Option<AppPacket>,
    k: int,
)
    requires
        dequeued(old_rings, rings, old_index, index, packet),
        0 <= k < old_rings.len(),
        old_rings[k].len() > 0,
    ensures
        packet is Some,
{
}

/// Where all packets lie in the pool, the pipeline can be polled.
pub proof fn law_rings_in_the_pool_can_be_polled(
    socket: UdpSocket,
    rings: Seq<Seq<AppPacket>>,
    pool: FramePool,
    peer_only: bool,
    room: nat,
)
    requires
        all_lie_in(rings, pool, room),
    ensures
        socket.can_poll(rings, pool, peer_only, room),
{
    let start = socket.recv_from_rr_index;
    assert forall|after: Seq<Seq<AppPacket>>, index: usize, packet: AppPacket| #[trigger]
        dequeued(rings, after, start, index, Some(packet)) implies lies_in(
        packet,
        pool,
        room,
    ) by {
        lemma_dequeued_lies_in(rings, after, start, index, packet, pool, room);
    }
}

/// A receive leaves the payloads of the packets that still wait as they are, so that they
/// come out with the bytes that the workers put there.
pub proof fn law_waiting_payloads_stay(
    before: UdpSocket,
    after: UdpSocket,
    old_rings: Seq<Seq<AppPacket>>,
    rings: Seq<Seq<AppPacket>>,
    old_pool: FramePool,
    pool: FramePool,
    counted: bool,
    peer_only: bool,
    old_buf: Seq<u8>,
    buf: Seq<u8>,
    result: Received,
)
    requires
        after.pipeline_polled(
            before,
            old_rings,
            rings,
            old_pool,
            pool,
            counted,
            peer_only,
            old_buf,
            buf,
            result,
        ),
    ensures
        forall|packet: AppPacket, room: nat| #[trigger]
            payload_in(packet, pool, room) == payload_in(packet, old_pool, room),
{
}

} // verus!
