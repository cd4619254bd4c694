use pooled_io::pool::{BufferPool, CheckoutSlot};

#[test]
fn test_pool_acquire_allocates_zeroed() {
    let mut pool = BufferPool::new(4);
    assert_eq!(pool.buffer_capacity(), 4);
    assert_eq!(pool.idle_count(), 0);
    let buf = pool.acquire();
    assert_eq!(buf, vec![0u8; 4]);
    assert_eq!(pool.idle_count(), 0);
}

#[test]
fn test_pool_release_then_acquire_reuses() {
    let mut pool = BufferPool::new(4);
    let mut buf = pool.acquire();
    buf[0] = 7;
    pool.release(buf);
    assert_eq!(pool.idle_count(), 1);
    let again = pool.acquire();
    // released buffers are not zeroed: content is overwritten before reuse
    assert_eq!(again[0], 7);
    assert_eq!(pool.idle_count(), 0);
}

#[test]
fn test_pool_steady_state() {
    let mut pool = BufferPool::new(8);
    // seed the pool with its steady-state single buffer
    let seed = pool.acquire();
    pool.release(seed);
    for _ in 0..50 {
        let buf = pool.acquire();
        pool.release(buf);
        // no monotonic growth across fully-completed cycles
        assert_eq!(pool.idle_count(), 1);
    }
}

#[test]
fn test_slot_checkout_zeroed() {
    let mut slot = CheckoutSlot::new(16);
    assert_eq!(slot.buffer_capacity(), 16);
    let buf = slot.checkout().expect("first checkout must succeed");
    assert_eq!(buf, vec![0u8; 16]);
}

#[test]
fn test_slot_reentrant_checkout_refused() {
    let mut slot = CheckoutSlot::new(16);
    let buf = slot.checkout().expect("first checkout must succeed");
    // a second live checkout is a usage violation and is refused loudly
    assert!(slot.checkout().is_none());
    slot.checkin(buf);
    let again = slot.checkout();
    assert!(again.is_some());
    assert_eq!(again.unwrap().len(), 16);
}
