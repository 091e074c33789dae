//! The receive buffer of a socket, what it counts as dropped, and the statistics of a
//! connection.

use std::collections::VecDeque;

use vstd::prelude::*;

use crate::addr::SocketAddr;

verus! {

/// Bytes that the receive buffer of a socket holds by default.
pub const DEFAULT_RECV_BUFFER_BYTES: usize = 262144;

/// Packets that the receive buffer of a socket holds at most.
pub const DEFAULT_RECV_BUFFER_PACKETS: usize = 4096;

/// What was dropped because the receive buffer was full.
#[derive(Debug, Clone, Copy, PartialEq, Eq, Structural)]
pub struct RecvDropStats {
    /// Number of payloads.
    pub packets: u64,
    /// Bytes in those payloads.
    pub bytes: u64,
}

impl Default for RecvDropStats {
    fn default() -> (r: Self)
        ensures
            r == (RecvDropStats { packets: 0, bytes: 0 }),
    {
        RecvDropStats { packets: 0, bytes: 0 }
    }
}

/// The low 64 bits of a sum.
pub open spec fn wrapped_sum(a: u64, b: int) -> u64 {
    ((a + b) % 0x1_0000_0000_0000_0000) as u64
}

/// Adds to a counter that starts again at zero.
pub fn count(counter: u64, n: u64) -> (r: u64)
    ensures
        r == wrapped_sum(counter, n as int),
{
    counter.wrapping_add(n)
}

impl RecvDropStats {
    /// The counters after a payload of `len` bytes was dropped.
    pub open spec fn with_drop(self, len: nat) -> RecvDropStats {
        RecvDropStats {
            packets: wrapped_sum(self.packets, 1),
            bytes: wrapped_sum(self.bytes, len as int),
        }
    }

    /// Counts a dropped payload of `len` bytes.
    pub fn record(&mut self, len: usize)
        ensures
            *final(self) == old(self).with_drop(len as nat),
    {
        self.packets = count(self.packets, 1);
        self.bytes = count(self.bytes, len as u64);
    }
}

/// A queued payload and who sent it.
pub struct QueuedView {
    pub payload: Seq<u8>,
    pub src: SocketAddr,
}

/// Bytes in queued payloads.
pub open spec fn total_bytes(packets: Seq<QueuedView>) -> nat
    decreases packets.len(),
{
    if packets.len() == 0 {
        0
    } else {
        total_bytes(packets.drop_last()) + packets.last().payload.len()
    }
}

/// The first payload and the rest make up the whole.
pub proof fn lemma_total_bytes_first(packets: Seq<QueuedView>)
    requires
        packets.len() > 0,
    ensures
        total_bytes(packets) == packets[0].payload.len() + total_bytes(packets.skip(1)),
    decreases packets.len(),
{
    if packets.len() == 1 {
        assert(packets.drop_last() =~= Seq::<QueuedView>::empty());
        assert(packets.skip(1) =~= Seq::<QueuedView>::empty());
    } else {
        lemma_total_bytes_first(packets.drop_last());
        assert(packets.drop_last().skip(1) =~= packets.skip(1).drop_last());
    }
}

/// Whether the payload at `i` is the first that `src` sent.
pub open spec fn first_from(packets: Seq<QueuedView>, src: SocketAddr, i: int) -> bool {
    &&& 0 <= i < packets.len()
    &&& packets[i].src == src
    &&& forall|k: int| 0 <= k < i ==> (#[trigger] packets[k]).src != src
}

/// Whether `src` sent none of the payloads.
pub open spec fn none_from(packets: Seq<QueuedView>, src: SocketAddr) -> bool {
    forall|k: int| 0 <= k < packets.len() ==> (#[trigger] packets[k]).src != src
}

/// A payload and the others make up the whole.
proof fn lemma_total_bytes_remove(packets: Seq<QueuedView>, i: int)
    requires
        0 <= i < packets.len(),
    ensures
        total_bytes(packets) == packets[i].payload.len() + total_bytes(packets.remove(i)),
    decreases packets.len(),
{
    if i == packets.len() - 1 {
        assert(packets.remove(i) =~= packets.drop_last());
    } else {
        lemma_total_bytes_remove(packets.drop_last(), i);
        assert(packets.remove(i).drop_last() =~= packets.drop_last().remove(i));
    }
}

/// The receive buffer of a socket.
///
/// It is bounded by the number of packets and by the bytes of their payloads.
pub struct ReceiveQueue {
    packets: VecDeque<(Vec<u8>, SocketAddr)>,
    max_packets: usize,
    max_bytes: usize,
    current_bytes: usize,
}

impl View for ReceiveQueue {
    type V = Seq<QueuedView>;

    closed spec fn view(&self) -> Seq<QueuedView> {
        self.packets@.map_values(
            |p: (Vec<u8>, SocketAddr)| QueuedView { payload: p.0@, src: p.1 },
        )
    }
}

impl ReceiveQueue {
    /// Most packets that the queue takes.
    pub closed spec fn packet_limit(self) -> nat {
        self.max_packets as nat
    }

    /// Most bytes that the queue takes.
    pub closed spec fn byte_limit(self) -> nat {
        self.max_bytes as nat
    }

    /// The queue knows how many bytes it holds.
    pub closed spec fn wf(self) -> bool {
        self.current_bytes == total_bytes(self@)
    }

    /// Whether a payload of `len` bytes fits.
    pub open spec fn has_room(self, len: nat) -> bool {
        self@.len() < self.packet_limit() && total_bytes(self@) + len <= self.byte_limit()
    }

    /// The queue after a payload arrived: with it at the end, or as it was if it does
    /// not fit.
    pub open spec fn offered(self, before: ReceiveQueue, payload: Seq<u8>, src: SocketAddr) -> bool {
        &&& self.wf()
        &&& self.packet_limit() == before.packet_limit()
        &&& self.byte_limit() == before.byte_limit()
        &&& self@ == if before.has_room(payload.len()) {
            before@.push(QueuedView { payload, src })
        } else {
            before@
        }
    }

    /// An empty queue with limits.
    pub fn with_limits(max_packets: usize, max_bytes: usize) -> (r: Self)
        ensures
            r.wf(),
            r@ == Seq::<QueuedView>::empty(),
            r.packet_limit() == max_packets,
            r.byte_limit() == max_bytes,
    {
        let r = ReceiveQueue {
            packets: VecDeque::new(),
            max_packets,
            max_bytes,
            current_bytes: 0,
        };
        assert(r@ =~= Seq::<QueuedView>::empty());
        r
    }

    /// Puts a payload at the end of the queue, and gives it back if it does not fit.
    pub fn push(&mut self, payload: Vec<u8>, src: SocketAddr) -> (r: Result<(), Vec<u8>>)
        requires
            old(self).wf(),
        ensures
            final(self).offered(*old(self), payload@, src),
            r is Ok <==> old(self).has_room(payload@.len()),
            r matches Err(back) ==> back == payload,
    {
        let size = payload.len();
        if self.packets.len() >= self.max_packets || size > usize::MAX - self.current_bytes
            || self.current_bytes + size > self.max_bytes {
            return Err(payload);
        }
        self.current_bytes = self.current_bytes + size;
        let ghost before = self@;
        let ghost item = QueuedView { payload: payload@, src };
        self.packets.push_back((payload, src));
        proof {
            assert(self@ =~= before.push(item));
            assert(before.push(item).drop_last() =~= before);
        }
        Ok(())
    }

    /// Takes the payload at the front of the queue.
    pub fn pop(&mut self) -> (r: Option<(Vec<u8>, SocketAddr)>)
        requires
            old(self).wf(),
        ensures
            final(self).wf(),
            final(self).packet_limit() == old(self).packet_limit(),
            final(self).byte_limit() == old(self).byte_limit(),
            match r {
                Some((payload, src)) => {
                    &&& old(self)@.len() > 0
                    &&& (QueuedView { payload: payload@, src }) == old(self)@[0]
                    &&& final(self)@ == old(self)@.skip(1)
                },
                None => old(self)@.len() == 0 && *final(self) == *old(self),
            },
    {
        if self.packets.len() == 0 {
            return None;
        }
        let ghost before = self@;
        match self.packets.pop_front() {
            Some((payload, src)) => {
                proof {
                    assert(self@ =~= before.skip(1));
                    lemma_total_bytes_first(before);
                }
                self.current_bytes = self.current_bytes - payload.len();
                Some((payload, src))
            },
            None => None,
        }
    }

    /// Takes the first payload that `src` sent, and leaves the others as they are.
    pub fn pop_from(&mut self, src: SocketAddr) -> (r: Option<Vec<u8>>)
        requires
            old(self).wf(),
        ensures
            final(self).wf(),
            final(self).packet_limit() == old(self).packet_limit(),
            final(self).byte_limit() == old(self).byte_limit(),
            match r {
                Some(payload) => exists|i: int| #[trigger]
                    first_from(old(self)@, src, i) && payload@ == old(self)@[i].payload
                        && final(self)@ == old(self)@.remove(i),
                None => none_from(old(self)@, src) && *final(self) == *old(self),
            },
    {
        let n = self.packets.len();
        let mut i: usize = 0;
        while i < n
            invariant
                n == self.packets@.len(),
                *self == *old(self),
                self.wf(),
                forall|k: int| 0 <= k < i ==> (#[trigger] self@[k]).src != src,
            decreases n - i,
        {
            assert(self@[i as int].src == self.packets@[i as int].1);
            if self.packets[i].1 == src {
                let ghost before = self@;
                match self.packets.remove(i) {
                    Some((payload, _)) => {
                        proof {
                            assert(self@ =~= before.remove(i as int));
                            lemma_total_bytes_remove(before, i as int);
                            assert(first_from(before, src, i as int));
                        }
                        self.current_bytes = self.current_bytes - payload.len();
                        return Some(payload);
                    },
                    None => return None,
                }
            }
            i = i + 1;
        }
        None
    }

    pub fn is_empty(&self) -> (r: bool)
        ensures
            r == (self@.len() == 0),
    {
        self.packets.len() == 0
    }

    /// Number of queued packets.
    pub fn len(&self) -> (r: usize)
        ensures
            r == self@.len(),
    {
        self.packets.len()
    }

    /// Bytes in the queued payloads.
    pub fn bytes(&self) -> (r: usize)
        requires
            self.wf(),
        ensures
            r == total_bytes(self@),
    {
        self.current_bytes
    }

    /// Most bytes that the queue takes.
    pub fn max_bytes(&self) -> (r: usize)
        ensures
            r == self.byte_limit(),
    {
        self.max_bytes
    }

    /// Changes the limit in bytes. What is queued stays queued.
    pub fn set_max_bytes(&mut self, max_bytes: usize)
        requires
            old(self).wf(),
        ensures
            final(self).wf(),
            final(self)@ == old(self)@,
            final(self).packet_limit() == old(self).packet_limit(),
            final(self).byte_limit() == max_bytes,
    {
        self.max_bytes = max_bytes;
    }
}

/// Statistics of a connected socket.
#[derive(Debug, Clone, Copy)]
pub struct ConnectionState {
    pub local_addr: SocketAddr,
    pub remote_addr: SocketAddr,
    pub packets_received: u64,
    pub packets_sent: u64,
    pub bytes_received: u64,
    pub bytes_sent: u64,
}

impl ConnectionState {
    /// The statistics after `len` bytes were sent.
    pub open spec fn with_send(self, len: nat) -> ConnectionState {
        ConnectionState {
            packets_sent: (self.packets_sent + 1) as u64,
            bytes_sent: (self.bytes_sent + len) as u64,
            ..self
        }
    }

    /// The statistics after `len` bytes were received.
    pub open spec fn with_recv(self, len: nat) -> ConnectionState {
        ConnectionState {
            packets_received: (self.packets_received + 1) as u64,
            bytes_received: (self.bytes_received + len) as u64,
            ..self
        }
    }

    /// Whether the counters can count a sent packet of `len` bytes.
    pub open spec fn can_send(self, len: nat) -> bool {
        self.packets_sent < u64::MAX && self.bytes_sent + len <= u64::MAX
    }

    /// Whether the counters can count a received packet of `len` bytes.
    pub open spec fn can_recv(self, len: nat) -> bool {
        self.packets_received < u64::MAX && self.bytes_received + len <= u64::MAX
    }

    pub fn new(local: SocketAddr, remote: SocketAddr) -> (r: Self)
        ensures
            r == (ConnectionState {
                local_addr: local,
                remote_addr: remote,
                packets_received: 0,
                packets_sent: 0,
                bytes_received: 0,
                bytes_sent: 0,
            }),
    {
        ConnectionState {
            local_addr: local,
            remote_addr: remote,
            packets_received: 0,
            packets_sent: 0,
            bytes_received: 0,
            bytes_sent: 0,
        }
    }

    /// Counts a sent packet.
    pub fn record_send(&mut self, bytes: usize)
        requires
            old(self).can_send(bytes as nat),
        ensures
            *final(self) == old(self).with_send(bytes as nat),
    {
        self.packets_sent = self.packets_sent + 1;
        self.bytes_sent = self.bytes_sent + bytes as u64;
    }

    /// Counts a received packet.
    pub fn record_recv(&mut self, bytes: usize)
        requires
            old(self).can_recv(bytes as nat),
        ensures
            *final(self) == old(self).with_recv(bytes as nat),
    {
        self.packets_received = self.packets_received + 1;
        self.bytes_received = self.bytes_received + bytes as u64;
    }
}

// ---------------------------------------------------------------------------
// Laws
// ---------------------------------------------------------------------------

/// A payload that fits comes out of the queue after those that were there before it,
/// unchanged; the queue is first in, first out.
pub proof fn law_queue_is_fifo(before: ReceiveQueue, after: ReceiveQueue, payload: Seq<u8>, src: SocketAddr)
    requires
        after.offered(before, payload, src),
        before.has_room(payload.len()),
    ensures
        after@.len() == before@.len() + 1,
        after@.take(before@.len() as int) == before@,
        after@.skip(before@.len() as int) == seq![QueuedView { payload, src }],
{
    assert(after@.take(before@.len() as int) =~= before@);
    assert(after@.skip(before@.len() as int) =~= seq![QueuedView { payload, src }]);
}

/// What arrives never takes the queue above its limits: a queue within them stays
/// within them.
pub proof fn law_queue_stays_bounded(
    before: ReceiveQueue,
    after: ReceiveQueue,
    payload: Seq<u8>,
    src: SocketAddr,
)
    requires
        after.offered(before, payload, src),
        before@.len() <= before.packet_limit(),
        total_bytes(before@) <= before.byte_limit(),
    ensures
        after@.len() <= after.packet_limit(),
        total_bytes(after@) <= after.byte_limit(),
{
    if before.has_room(payload.len()) {
        assert(after@.drop_last() =~= before@);
    }
}

/// Taking a payload out of the queue makes room for one of the same size.
pub proof fn law_pop_makes_room(before: ReceiveQueue, after: ReceiveQueue)
    requires
        before@.len() > 0,
        before@.len() <= before.packet_limit(),
        total_bytes(before@) <= before.byte_limit(),
        after@ == before@.skip(1),
        after.packet_limit() == before.packet_limit(),
        after.byte_limit() == before.byte_limit(),
    ensures
        after.has_room(before@[0].payload.len()),
        total_bytes(after@) == total_bytes(before@) - before@[0].payload.len(),
{
    lemma_total_bytes_first(before@);
}

} // verus!
