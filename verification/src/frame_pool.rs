//! A pool of frame buffers of one size.
//!
//! The pool allocates its memory once. Frames are taken from it and given back
//! by index, and packets are handed on as a reference to a frame.

use vstd::prelude::*;

use crate::addr::{Ipv4Addr, SocketAddr};
use crate::bytes;
use crate::bytes::{copy_prefix, truncate16};

verus! {

/// Slot size of a pool with default settings.
pub const DEFAULT_FRAME_SIZE: usize = 2048;

/// Number of slots of a pool with default settings.
pub const DEFAULT_POOL_CAPACITY: usize = 16384;

/// Smallest slot size.
pub const MIN_FRAME_SIZE: usize = 64;

/// Slots are numbered by 32-bit indices.
pub const MAX_POOL_CAPACITY: u64 = 0x1_0000_0000;

/// A reference to a frame in the pool.
#[derive(Debug, Clone, Copy, PartialEq, Eq, Structural)]
pub struct FrameRef {
    /// The slot that holds the frame.
    pub pool_idx: u32,
    /// How many bytes of the slot the frame fills.
    pub len: u16,
}

impl FrameRef {
    pub fn new(pool_idx: u32, len: u16) -> (r: Self)
        ensures
            r == (FrameRef { pool_idx, len }),
    {
        FrameRef { pool_idx, len }
    }
}

/// A received datagram whose payload lies in the pool.
#[derive(Debug, Clone, Copy)]
pub struct AppPacket {
    /// The frame.
    pub frame_ref: FrameRef,
    /// Where in the frame the payload starts.
    pub payload_offset: u16,
    /// Length of the payload.
    pub payload_len: u16,
    /// Who sent the datagram.
    pub src_addr: SocketAddr,
    /// Ethernet address of the sender.
    pub src_mac: [u8; 6],
    /// IPv4 address of the sender.
    pub src_ip: Ipv4Addr,
}

/// The first of `p`, `2p`, `4p`, ... that is no less than `n`.
pub open spec fn doubled_to(n: nat, p: nat) -> nat
    decreases
        (if n > p {
            n - p
        } else {
            0
        }),
{
    if p == 0 || p >= n {
        p
    } else {
        doubled_to(n, 2 * p)
    }
}

/// How many slots a pool has that was asked for `capacity` of them: the next power
/// of two, at least 2.
pub open spec fn slots_for(capacity: nat) -> nat {
    doubled_to(capacity, 2)
}

/// How large a slot is in a pool that was asked for slots of `frame_size` bytes.
pub open spec fn slot_size_for(frame_size: nat) -> nat {
    if frame_size < MIN_FRAME_SIZE {
        MIN_FRAME_SIZE as nat
    } else {
        frame_size
    }
}

/// Doubling stops at a power of two, below twice the number asked for.
proof fn lemma_doubled_to(n: nat, p: nat, k: nat)
    requires
        p == vstd::arithmetic::power2::pow2(k),
    ensures
        doubled_to(n, p) >= n,
        doubled_to(n, p) >= p,
        doubled_to(n, p) == p || doubled_to(n, p) < 2 * n,
        exists|j: nat| doubled_to(n, p) == #[trigger] vstd::arithmetic::power2::pow2(j),
    decreases
        (if n > p {
            n - p
        } else {
            0
        }),
{
    vstd::arithmetic::power2::lemma_pow2_pos(k);
    if p < n {
        vstd::arithmetic::power2::lemma_pow2_unfold(k + 1);
        lemma_doubled_to(n, 2 * p, k + 1);
    }
}

/// The number of slots is a power of two, no less than what was asked for and less
/// than twice as many, where more than two were asked for.
pub proof fn law_slots_for(capacity: nat)
    ensures
        slots_for(capacity) >= capacity,
        slots_for(capacity) >= 2,
        capacity >= 2 ==> slots_for(capacity) < 2 * capacity,
        capacity < 2 ==> slots_for(capacity) == 2,
        exists|j: nat| slots_for(capacity) == #[trigger] vstd::arithmetic::power2::pow2(j),
{
    assert(vstd::arithmetic::power2::pow2(1) == 2) by {
        vstd::arithmetic::power2::lemma2_to64();
    }
    lemma_doubled_to(capacity, 2, 1);
}

/// A slot lies inside the buffer.
proof fn lemma_slot_bounds(idx: int, slots: int, size: int)
    by (nonlinear_arith)
    requires
        0 <= idx < slots,
        0 <= size,
    ensures
        0 <= idx * size,
        idx * size + size <= slots * size,
{
}

/// Two slots do not overlap.
proof fn lemma_slots_apart(a: int, b: int, size: int)
    by (nonlinear_arith)
    requires
        a < b,
        0 <= size,
    ensures
        a * size + size <= b * size,
{
}

/// Writing one slot leaves the others as they are.
proof fn lemma_slot_replaced(before: Seq<u8>, idx: u32, slots: int, size: int)
    requires
        0 <= idx < slots,
        0 <= size,
        before.len() == slots * size,
    ensures
        forall|mid: Seq<u8>, i: u32|
            #![trigger mid.len(), before.subrange(i * size, i * size + size)]
            mid.len() == size && i < slots ==> (before.subrange(0, idx * size) + (mid
                + before.subrange(idx * size, before.len() as int).subrange(
                size,
                before.len() - idx * size,
            ))).subrange(i * size, i * size + size) == if i == idx {
                mid
            } else {
                before.subrange(i * size, i * size + size)
            },
{
    lemma_slot_bounds(idx as int, slots, size);
    assert forall|mid: Seq<u8>, i: u32|
        #![trigger mid.len(), before.subrange(i * size, i * size + size)]
        mid.len() == size && i < slots implies (before.subrange(0, idx * size) + (mid
        + before.subrange(idx * size, before.len() as int).subrange(
        size,
        before.len() - idx * size,
    ))).subrange(i * size, i * size + size) == if i == idx {
        mid
    } else {
        before.subrange(i * size, i * size + size)
    } by {
        let after = before.subrange(0, idx * size) + (mid + before.subrange(
            idx * size,
            before.len() as int,
        ).subrange(size, before.len() - idx * size));
        lemma_slot_bounds(i as int, slots, size);
        if i < idx {
            lemma_slots_apart(i as int, idx as int, size);
            assert(after.subrange(i * size, i * size + size) =~= before.subrange(
                i * size,
                i * size + size,
            ));
        } else if i > idx {
            lemma_slots_apart(idx as int, i as int, size);
            assert(after.subrange(i * size, i * size + size) =~= before.subrange(
                i * size,
                i * size + size,
            ));
        } else {
            assert(after.subrange(i * size, i * size + size) =~= mid);
        }
    }
}

/// The place of the `i`-th item of a ring of `len` places that starts at `tail`.
spec fn ring_slot(tail: int, len: int, i: int) -> int {
    if tail + i < len {
        tail + i
    } else {
        tail + i - len
    }
}

/// A pool of frame buffers.
///
/// A frame that is not in use is on the free list. Frames are taken from the
/// front of the list and given back at its end.
pub struct FramePool {
    buffer: Vec<u8>,
    frame_size: usize,
    capacity: usize,
    /// Ring of indices: `free_len` of them, from `free_tail` on.
    free_list: Vec<u32>,
    free_tail: usize,
    free_len: usize,
}

impl FramePool {
    /// Number of slots.
    pub closed spec fn slots(self) -> nat {
        self.capacity as nat
    }

    /// Bytes in a slot.
    pub closed spec fn slot_size(self) -> nat {
        self.frame_size as nat
    }

    /// The free indices, the next one to be taken first.
    pub closed spec fn free_indices(self) -> Seq<u32> {
        Seq::new(
            self.free_len as nat,
            |i: int|
                self.free_list@[ring_slot(
                    self.free_tail as int,
                    self.free_list@.len() as int,
                    i,
                )],
        )
    }

    /// What slot `idx` holds.
    pub closed spec fn slot(self, idx: u32) -> Seq<u8> {
        self.buffer@.subrange(idx * self.frame_size, idx * self.frame_size + self.frame_size)
    }

    /// The invariant of the pool.
    pub closed spec fn wf(self) -> bool {
        &&& self.frame_size >= MIN_FRAME_SIZE
        &&& 2 <= self.capacity <= MAX_POOL_CAPACITY
        &&& self.buffer@.len() == self.capacity * self.frame_size
        &&& self.free_list@.len() == 2 * self.capacity
        &&& self.free_tail < self.free_list@.len()
        &&& self.free_len <= self.free_list@.len()
        &&& forall|i: int|
            0 <= i < self.free_len ==> #[trigger] self.free_list@[ring_slot(
                self.free_tail as int,
                self.free_list@.len() as int,
                i,
            )] < self.capacity
    }

    /// Whether the list of free indices can take one more.
    pub open spec fn can_free(self) -> bool {
        self.free_indices().len() < 2 * self.slots()
    }

    /// Whether `r` refers to bytes of one slot.
    pub open spec fn holds(self, r: FrameRef) -> bool {
        r.pool_idx < self.slots() && r.len <= self.slot_size()
    }

    /// A pool of at least `capacity` slots of at least `frame_size` bytes, all of
    /// them free and filled with zeros.
    pub fn new(capacity: usize, frame_size: usize) -> (r: Self)
        requires
            slots_for(capacity as nat) * slot_size_for(frame_size as nat) <= isize::MAX,
            slots_for(capacity as nat) <= MAX_POOL_CAPACITY,
        ensures
            r.wf(),
            r.slots() == slots_for(capacity as nat),
            r.slot_size() == slot_size_for(frame_size as nat),
            r.free_indices() == Seq::new(r.slots(), |i: int| i as u32),
            forall|idx: u32|
                idx < r.slots() ==> #[trigger] r.slot(idx) == Seq::new(
                    r.slot_size(),
                    |i: int| 0u8,
                ),
    {
        let size = if frame_size < MIN_FRAME_SIZE {
            MIN_FRAME_SIZE
        } else {
            frame_size
        };
        let ghost rounded = slots_for(capacity as nat);
        proof {
            law_slots_for(capacity as nat);
            assert(64 * rounded <= rounded * size) by (nonlinear_arith)
                requires
                    size >= 64,
                    rounded >= 0,
            ;
        }
        let mut slots: usize = 2;
        while slots < capacity
            invariant
                slots >= 2,
                doubled_to(capacity as nat, slots as nat) == rounded,
                64 * rounded <= isize::MAX,
                rounded >= capacity,
            decreases
                (if capacity > slots {
                    capacity - slots
                } else {
                    0
                }),
        {
            proof {
                assert(2 * slots < 2 * capacity);
                assert(2 * slots <= 2 * rounded);
            }
            slots = 2 * slots;
        }
        proof {
            lemma_slot_bounds(0, slots as int, size as int);
            assert(slots * size <= isize::MAX);
        }
        let buffer: Vec<u8> = vec![0u8; slots * size];
        let mut free_list: Vec<u32> = Vec::new();
        let mut i: usize = 0;
        while i < 2 * slots
            invariant
                i <= 2 * slots,
                64 * slots <= isize::MAX,
                slots <= MAX_POOL_CAPACITY,
                free_list@.len() == i,
                forall|k: int| 0 <= k < i && k < slots ==> free_list@[k] == k,
            decreases 2 * slots - i,
        {
            if i < slots {
                free_list.push(i as u32);
            } else {
                free_list.push(u32::MAX);
            }
            i = i + 1;
        }
        let r = FramePool {
            buffer,
            frame_size: size,
            capacity: slots,
            free_list,
            free_tail: 0,
            free_len: slots,
        };
        proof {
            assert(r.free_indices() =~= Seq::new(r.slots(), |i: int| i as u32));
            assert forall|idx: u32| idx < r.slots() implies #[trigger] r.slot(idx) == Seq::new(
                r.slot_size(),
                |i: int| 0u8,
            ) by {
                lemma_slot_bounds(idx as int, slots as int, size as int);
                assert(r.slot(idx) =~= Seq::new(r.slot_size(), |i: int| 0u8));
            }
        }
        r
    }

    /// A pool of 16384 slots of 2048 bytes.
    pub fn with_defaults() -> (r: Self)
        ensures
            r.wf(),
            r.slots() == DEFAULT_POOL_CAPACITY,
            r.slot_size() == DEFAULT_FRAME_SIZE,
            r.free_indices() == Seq::new(r.slots(), |i: int| i as u32),
            forall|idx: u32|
                idx < r.slots() ==> #[trigger] r.slot(idx) == Seq::new(
                    r.slot_size(),
                    |i: int| 0u8,
                ),
    {
        proof {
            reveal_with_fuel(doubled_to, 15);
            assert(slots_for(DEFAULT_POOL_CAPACITY as nat) == 16384);
        }
        FramePool::new(DEFAULT_POOL_CAPACITY, DEFAULT_FRAME_SIZE)
    }

    /// Bytes in a slot.
    pub fn frame_size(&self) -> (r: usize)
        ensures
            r == self.slot_size(),
    {
        self.frame_size
    }

    /// Number of slots.
    pub fn capacity(&self) -> (r: usize)
        ensures
            r == self.slots(),
    {
        self.capacity
    }

    /// Takes a frame, `None` if all are in use.
    pub fn alloc_frame(&mut self) -> (r: Option<u32>)
        requires
            old(self).wf(),
        ensures
            final(self).wf(),
            final(self).slots() == old(self).slots(),
            final(self).slot_size() == old(self).slot_size(),
            forall|idx: u32| #[trigger] final(self).slot(idx) == old(self).slot(idx),
            match r {
                Some(idx) => {
                    &&& old(self).free_indices().len() > 0
                    &&& idx == old(self).free_indices()[0]
                    &&& idx < old(self).slots()
                    &&& final(self).free_indices() == old(self).free_indices().skip(1)
                },
                None => {
                    &&& old(self).free_indices().len() == 0
                    &&& final(self).free_indices() == old(self).free_indices()
                },
            },
    {
        if self.free_len == 0 {
            return None;
        }
        let idx: u32 = self.free_list[self.free_tail];
        assert(self.free_list@[ring_slot(
            self.free_tail as int,
            self.free_list@.len() as int,
            0,
        )] == idx);
        let last = self.free_list.len() - 1;
        self.free_tail = if self.free_tail < last {
            self.free_tail + 1
        } else {
            0
        };
        self.free_len = self.free_len - 1;
        proof {
            assert forall|i: int| 0 <= i < self.free_len implies #[trigger] ring_slot(
                self.free_tail as int,
                self.free_list@.len() as int,
                i,
            ) == ring_slot(
                old(self).free_tail as int,
                old(self).free_list@.len() as int,
                i + 1,
            ) by {}
            assert(self.free_indices() =~= old(self).free_indices().skip(1));
        }
        Some(idx)
    }

    /// Gives a frame back.
    pub fn free(&mut self, idx: u32)
        requires
            old(self).wf(),
            idx < old(self).slots(),
            old(self).can_free(),
        ensures
            final(self).wf(),
            final(self).slots() == old(self).slots(),
            final(self).slot_size() == old(self).slot_size(),
            forall|i: u32| #[trigger] final(self).slot(i) == old(self).slot(i),
            final(self).free_indices() == old(self).free_indices().push(idx),
    {
        let room = self.free_list.len() - self.free_tail;
        let at = if self.free_len < room {
            self.free_tail + self.free_len
        } else {
            self.free_len - room
        };
        self.free_list.set(at, idx);
        self.free_len = self.free_len + 1;
        proof {
            assert(at == ring_slot(
                old(self).free_tail as int,
                old(self).free_list@.len() as int,
                old(self).free_len as int,
            ));
            let len = self.free_list@.len() as int;
            let tail = self.free_tail as int;
            assert(len == old(self).free_list@.len() && tail == old(self).free_tail);
            assert forall|i: int| 0 <= i < old(self).free_len implies #[trigger] ring_slot(
                tail,
                len,
                i,
            ) != at by {}
            assert forall|i: int| 0 <= i < self.free_len implies
                #[trigger] self.free_list@[ring_slot(tail, len, i)] < self.capacity by {
                if i < old(self).free_len {
                    assert(old(self).free_list@[ring_slot(tail, len, i)] < self.capacity);
                }
            }
            assert(self.free_indices() =~= old(self).free_indices().push(idx));
        }
    }

    /// The bytes of a slot.
    pub fn frame(&self, idx: u32) -> (r: &[u8])
        requires
            self.wf(),
            idx < self.slots(),
        ensures
            r@ == self.slot(idx),
            r@.len() == self.slot_size(),
    {
        proof {
            lemma_slot_bounds(idx as int, self.capacity as int, self.frame_size as int);
        }
        let total = self.buffer.len();
        assert(idx * self.frame_size + self.frame_size <= total);
        let start: usize = idx as usize * self.frame_size;
        vstd::slice::slice_subrange(self.buffer.as_slice(), start, start + self.frame_size)
    }

    /// The bytes of a slot, for writing. What is written there is what the slot then
    /// holds.
    pub fn frame_mut(&mut self, idx: u32) -> (r: &mut [u8])
        requires
            old(self).wf(),
            idx < old(self).slots(),
        ensures
            r@ == old(self).slot(idx),
            r@.len() == old(self).slot_size(),
            final(self).slots() == old(self).slots(),
            final(self).slot_size() == old(self).slot_size(),
            final(self).free_indices() == old(self).free_indices(),
            final(r)@.len() == old(self).slot_size() ==> {
                &&& final(self).wf()
                &&& final(self).slot(idx) == final(r)@
                &&& forall|i: u32|
                    i < old(self).slots() && i != idx ==> #[trigger] final(self).slot(i) == old(self).slot(i)
            },
    {
        proof {
            lemma_slot_bounds(idx as int, self.capacity as int, self.frame_size as int);
        }
        let total = self.buffer.len();
        assert(idx * self.frame_size + self.frame_size <= total);
        let size = self.frame_size;
        let start: usize = idx as usize * size;
        let (head, rest) = self.buffer.as_mut_slice().split_at_mut(start);
        let (slot, tail) = rest.split_at_mut(size);
        proof {
            lemma_slot_replaced(old(self).buffer@, idx, old(self).capacity as int, size as int);
        }
        slot
    }

    /// Takes a frame and copies as much of `data` into it as fits, `None` if all are
    /// in use. Of the length, the reference holds the low 16 bits.
    pub fn alloc_copy(&mut self, data: &[u8]) -> (r: Option<FrameRef>)
        requires
            old(self).wf(),
        ensures
            final(self).wf(),
            final(self).slots() == old(self).slots(),
            final(self).slot_size() == old(self).slot_size(),
            match r {
                Some(frame) => {
                    &&& old(self).free_indices().len() > 0
                    &&& frame.pool_idx == old(self).free_indices()[0]
                    &&& frame.pool_idx < old(self).slots()
                    &&& frame.len == bytes::low16(
                        bytes::fitting(old(self).slot_size(), data@.len()) as int,
                    )
                    &&& final(self).free_indices() == old(self).free_indices().skip(1)
                    &&& final(self).slot(frame.pool_idx) == bytes::overlaid(
                        old(self).slot(frame.pool_idx),
                        data@,
                    )
                    &&& forall|i: u32|
                        i < old(self).slots() && i != frame.pool_idx ==> #[trigger] final(self).slot(i) == old(self).slot(i)
                },
                None => {
                    &&& old(self).free_indices().len() == 0
                    &&& final(self).free_indices() == old(self).free_indices()
                    &&& forall|i: u32| #[trigger] final(self).slot(i) == old(self).slot(i)
                },
            },
    {
        let idx: u32 = match self.alloc_frame() {
            Some(idx) => idx,
            None => return None,
        };
        let slot = self.frame_mut(idx);
        let len: usize = copy_prefix(slot, data);
        Some(FrameRef::new(idx, truncate16(len)))
    }

    /// The bytes of a frame.
    pub fn get_frame_data(&self, frame_ref: &FrameRef) -> (r: &[u8])
        requires
            self.wf(),
            self.holds(*frame_ref),
        ensures
            r@ == self.slot(frame_ref.pool_idx).take(frame_ref.len as int),
    {
        vstd::slice::slice_subrange(self.frame(frame_ref.pool_idx), 0, frame_ref.len as usize)
    }

    /// How many frames are free.
    pub fn available(&self) -> (r: usize)
        ensures
            r == self.free_indices().len(),
    {
        self.free_len
    }

    /// How many frames are in use.
    pub fn in_use(&self) -> (r: usize)
        requires
            self.free_indices().len() <= self.slots(),
        ensures
            r == self.slots() - self.free_indices().len(),
    {
        self.capacity - self.available()
    }
}

// ---------------------------------------------------------------------------
// Laws
// ---------------------------------------------------------------------------

/// In a new pool every frame is free, each of them once.
pub proof fn law_new_pool_is_all_free(pool: FramePool)
    requires
        pool.wf(),
        pool.free_indices() == Seq::new(pool.slots(), |i: int| i as u32),
    ensures
        pool.free_indices().no_duplicates(),
        forall|idx: u32| idx < pool.slots() ==> #[trigger] pool.free_indices().contains(idx),
{
    let free = pool.free_indices();
    assert forall|i: int, j: int| 0 <= i < free.len() && 0 <= j < free.len() && i != j implies free[i]
        != free[j] by {
        assert(free[i] == i as u32 && free[j] == j as u32);
    }
    assert forall|idx: u32| idx < pool.slots() implies #[trigger] free.contains(idx) by {
        assert(free[idx as int] == idx);
    }
}

/// A frame that is taken is not handed out again while it is in use.
pub proof fn law_taken_frame_is_not_free(before: FramePool, after: FramePool, idx: u32)
    requires
        before.free_indices().no_duplicates(),
        before.free_indices().len() > 0,
        idx == before.free_indices()[0],
        after.free_indices() == before.free_indices().skip(1),
    ensures
        after.free_indices().no_duplicates(),
        !after.free_indices().contains(idx),
{
    let rest = after.free_indices();
    assert forall|i: int| 0 <= i < rest.len() implies rest[i] != idx by {
        assert(rest[i] == before.free_indices()[i + 1]);
    }
}

/// Giving back a frame that is in use keeps the free frames distinct.
pub proof fn law_freed_frame_is_free_once(before: FramePool, after: FramePool, idx: u32)
    requires
        before.free_indices().no_duplicates(),
        !before.free_indices().contains(idx),
        after.free_indices() == before.free_indices().push(idx),
    ensures
        after.free_indices().no_duplicates(),
        after.free_indices().contains(idx),
        after.free_indices().len() == before.free_indices().len() + 1,
{
    assert(after.free_indices()[before.free_indices().len() as int] == idx);
    assert forall|i: int| 0 <= i < before.free_indices().len() implies before.free_indices()[i]
        != idx by {}
}

/// While the free frames are distinct there are no more of them than slots, and one
/// more can be given back.
pub proof fn law_free_frames_fit(pool: FramePool)
    requires
        pool.wf(),
        pool.free_indices().no_duplicates(),
    ensures
        pool.free_indices().len() <= pool.slots(),
        pool.can_free(),
{
    lemma_distinct_below(pool.free_indices(), pool.slots());
}

/// A frame reads back what was copied into it, where the slot can hold it and 16 bits
/// can hold its length.
pub proof fn law_copied_frame_reads_back(
    before: FramePool,
    after: FramePool,
    frame: FrameRef,
    data: Seq<u8>,
)
    requires
        before.slot(frame.pool_idx).len() == before.slot_size(),
        data.len() <= before.slot_size(),
        data.len() <= u16::MAX,
        frame.len == bytes::low16(bytes::fitting(before.slot_size(), data.len()) as int),
        after.slot(frame.pool_idx) == bytes::overlaid(before.slot(frame.pool_idx), data),
    ensures
        after.slot(frame.pool_idx).take(frame.len as int) == data,
{
    assert(after.slot(frame.pool_idx).take(frame.len as int) =~= data);
}

/// Distinct numbers below `n` are at most `n` many.
proof fn lemma_distinct_below(s: Seq<u32>, n: nat)
    requires
        s.no_duplicates(),
        forall|i: int| 0 <= i < s.len() ==> #[trigger] s[i] < n,
    ensures
        s.len() <= n,
{
    let wide = s.map_values(|v: u32| v as int);
    assert forall|i: int, j: int| 0 <= i < wide.len() && 0 <= j < wide.len() && i != j implies wide[i]
        != wide[j] by {
        assert(s[i] != s[j]);
    }
    wide.unique_seq_to_set();
    let below = vstd::set_lib::set_int_range(0, n as int);
    vstd::set_lib::lemma_int_range(0, n as int);
    assert(wide.to_set().subset_of(below)) by {
        assert forall|v: int| wide.to_set().contains(v) implies below.contains(v) by {
            let i = choose|i: int| 0 <= i < wide.len() && wide[i] == v;
            assert(wide[i] == s[i] as int);
        }
    }
    vstd::set_lib::lemma_len_subset(wide.to_set(), below);
}

} // verus!
