//! Proximity allocation against the real operating system: every
//! allocation lands within the allocator's window of the origin, and an
//! impossible window is refused.
use detour::allocator::ThreadAllocator;
use detour::error::Error;
use detour::pic::{CodeEmitter, Thunk};

fn some_origin() -> u64 {
    // A mapped address to measure distances from: a fresh reservation's base.
    let probe = region::alloc(4096, region::Protection::READ_WRITE).unwrap();
    probe.as_range().start as u64
}

fn distance(a: u64, b: u64) -> u64 {
    if a >= b { a - b } else { b - a }
}

/// Every allocation's base lies within `max_distance` of the origin.
#[test]
fn allocation_within_max_distance() {
    let origin = some_origin();
    let mut pool = ThreadAllocator::new(0x8000_0000);
    let mem = pool.allocate(origin, 64).unwrap();
    assert!(distance(mem.base(), origin) <= 0x8000_0000);
    assert_eq!(mem.len(), 64);
    assert_eq!(mem.base() % 8, 0);
}

/// A second allocation is carved from the same pool and stays in range.
#[test]
fn allocations_reuse_pool() {
    let origin = some_origin();
    let mut pool = ThreadAllocator::new(0x8000_0000);
    let a = pool.allocate(origin, 24).unwrap();
    let b = pool.allocate(origin, 24).unwrap();
    assert!(distance(a.base(), origin) <= 0x8000_0000);
    assert!(distance(b.base(), origin) <= 0x8000_0000);
    assert_ne!(a.base(), b.base());
}

/// A zero-width window around a foreign mapping cannot be satisfied.
#[test]
fn impossible_window_is_out_of_memory() {
    let origin = some_origin();
    let mut pool = ThreadAllocator::new(0);
    match pool.allocate(origin, 64) {
        Err(Error::OutOfMemory) => {},
        _ => panic!("expected OutOfMemory"),
    }
}

/// A tight window around an origin in low memory, far from any mapping
/// the system would choose by itself: only the candidate walk outward
/// from the origin can satisfy it.
#[test]
fn walk_reserves_near_far_origin() {
    let origin: u64 = 0x40_0000;
    let mut pool = ThreadAllocator::new(0x20_0000);
    let mem = pool.allocate(origin, 64).unwrap();
    assert!(distance(mem.base(), origin) <= 0x20_0000);
    assert_eq!(mem.len(), 64);
    pool.release(mem);
    assert_eq!(pool.pools.len(), 0);
}

/// Releasing every slice of a pool unmaps it; releasing only one keeps
/// the pool alive for the other.
#[test]
fn release_refcounts_pools() {
    let origin = some_origin();
    let mut pool = ThreadAllocator::new(0x8000_0000);
    assert_eq!(pool.pools.len(), 0);
    let a = pool.allocate(origin, 24).unwrap();
    assert_eq!(pool.pools.len(), 1);
    let b = pool.allocate(origin, 24).unwrap();
    // the second slice is carved from the same pool
    assert_eq!(pool.pools.len(), 1);
    pool.release(a);
    assert_eq!(pool.pools.len(), 1);
    pool.release(b);
    assert_eq!(pool.pools.len(), 0);
}

/// Releasing an address the allocator never handed out changes nothing.
#[test]
fn release_foreign_address_is_ignored() {
    let origin = some_origin();
    let mut pool = ThreadAllocator::new(0x8000_0000);
    let a = pool.allocate(origin, 24).unwrap();
    assert_eq!(pool.pools.len(), 1);
    let foreign = detour::allocator::ExecutableMemory { base: 0x10, bytes: vec![0] };
    pool.release(foreign);
    assert_eq!(pool.pools.len(), 1);
    pool.release(a);
    assert_eq!(pool.pools.len(), 0);
}

/// The content written through `modify` replaces the leading bytes.
#[test]
fn modify_replaces_prefix() {
    let origin = some_origin();
    let mut pool = ThreadAllocator::new(0x8000_0000);
    let mut mem = pool.allocate(origin, 16).unwrap();
    mem.modify(&[9, 8, 7]).unwrap();
    assert_eq!(&mem.bytes()[..3], &[9, 8, 7]);
    assert_eq!(mem.len(), 16);
}

/// Emitted code is placed at the allocation, aligned and within range.
#[test]
fn allocate_pic_places_code() {
    let origin = some_origin();
    let mut pool = ThreadAllocator::new(0x8000_0000);
    let mut emitter = CodeEmitter::new();
    emitter.add_thunk(Thunk::JmpImmediate { target: 0x1234_5678 });
    let mem = detour::memory::allocate_pic(&mut pool, &emitter, origin).unwrap();
    assert!(distance(mem.base(), origin) <= 0x8000_0000);
    assert_eq!(mem.base() % 8, 0);
    let expected = emitter.emit(mem.base());
    assert_eq!(&mem.bytes()[..expected.len()], expected.as_slice());
    // the inline literal of the tail is the absolute target
    assert_eq!(
        u64::from_le_bytes(mem.bytes()[8..16].try_into().unwrap()),
        0x1234_5678
    );
}
