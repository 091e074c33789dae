//! The frame pool.

use dpdk_udp::frame_pool::{
    AppPacket, DEFAULT_FRAME_SIZE, DEFAULT_POOL_CAPACITY, FramePool, FrameRef,
};

#[test]
fn frame_ref_size() {
    assert_eq!(std::mem::size_of::<FrameRef>(), 8);
}

#[test]
fn pool_basic_alloc_free() {
    let mut pool = FramePool::new(4, 128);
    assert_eq!(pool.capacity(), 4);
    assert_eq!(pool.frame_size(), 128);
    assert_eq!(pool.available(), 4);
    assert_eq!(pool.in_use(), 0);

    // Allocate all frames
    let mut indices = Vec::new();
    for _ in 0..4 {
        let idx = pool.alloc_frame().expect("should alloc");
        indices.push(idx);
    }

    assert_eq!(pool.available(), 0);
    assert_eq!(pool.in_use(), 4);

    // Pool exhausted
    assert!(pool.alloc_frame().is_none());

    // Free all frames
    for idx in indices {
        pool.free(idx);
    }

    assert_eq!(pool.available(), 4);
    assert_eq!(pool.in_use(), 0);
}

#[test]
fn pool_write_read() {
    let mut pool = FramePool::new(4, 64);
    let idx = pool.alloc_frame().unwrap();

    let slot = pool.frame_mut(idx);
    slot[..5].copy_from_slice(b"hello");

    let data = pool.frame(idx);
    assert_eq!(&data[..5], b"hello");

    pool.free(idx);
}

#[test]
fn pool_alloc_copy() {
    let mut pool = FramePool::new(4, 128);
    let data = b"test frame data";

    let frame_ref = pool.alloc_copy(data).unwrap();
    assert_eq!(frame_ref.len, data.len() as u16);

    let read_back = pool.get_frame_data(&frame_ref);
    assert_eq!(read_back, data);

    pool.free(frame_ref.pool_idx);
}

#[test]
fn pool_exhaust_and_refill() {
    let mut pool = FramePool::new(2, 64);

    let a = pool.alloc_frame().unwrap();
    let b = pool.alloc_frame().unwrap();
    assert!(pool.alloc_frame().is_none());

    pool.free(a);
    let c = pool.alloc_frame().unwrap();
    assert_eq!(c, a); // reuses the freed index

    pool.free(b);
    pool.free(c);
}

#[test]
fn pool_cycle_many_times() {
    let mut pool = FramePool::new(8, 64);

    // Alloc/free many times to verify wraparound works
    for round in 0..100 {
        let idx = pool.alloc_frame().expect(&format!("alloc failed on round {}", round));
        let slot = pool.frame_mut(idx);
        slot[0] = round as u8;
        pool.free(idx);
    }
}

#[test]
fn pool_with_defaults() {
    let mut pool = FramePool::with_defaults();
    assert_eq!(pool.capacity(), DEFAULT_POOL_CAPACITY);
    assert_eq!(pool.frame_size(), DEFAULT_FRAME_SIZE);
    assert_eq!(pool.available(), DEFAULT_POOL_CAPACITY);
}

#[test]
fn frame_ref_new() {
    let fr = FrameRef::new(42, 1500);
    assert_eq!(fr.pool_idx, 42);
    assert_eq!(fr.len, 1500);
}

#[test]
fn app_packet_size() {
    // AppPacket should be small enough to pass through rings efficiently.
    // Contains FrameRef (8B) + offsets (4B) + SocketAddr (32B) + MAC (6B) + IP (4B).
    assert!(std::mem::size_of::<AppPacket>() <= 64);
}
