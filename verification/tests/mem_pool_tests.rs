use exchange::common::mem_pool::MemPool;

#[test]
fn pool_starts_empty_and_hands_out_slots_in_order() {
    let mut pool: MemPool<u64> = MemPool::new(4);
    assert_eq!(pool.pool_usage_count(), 0);
    assert_eq!(pool.capacity(), 4);
    assert_eq!(pool.next_free(), 0);
    assert_eq!(pool.allocate(), 0);
    assert_eq!(pool.allocate(), 1);
    assert_eq!(pool.pool_usage_count(), 2);
    assert!(!pool.is_free(0));
    assert!(pool.is_free(2));
}

#[test]
fn deallocated_slot_is_handed_out_again_first() {
    let mut pool: MemPool<u64> = MemPool::new(4);
    let a = pool.allocate();
    let b = pool.allocate();
    assert_eq!((a, b), (0, 1));
    pool.deallocate(a);
    assert_eq!(pool.pool_usage_count(), 1);
    assert!(pool.is_free(0));
    assert_eq!(pool.next_free(), 0);
    assert_eq!(pool.allocate(), 0);
}

#[test]
fn allocate_then_deallocate_restores_usage() {
    let mut pool: MemPool<u64> = MemPool::new(3);
    let before = pool.pool_usage_count();
    let idx = pool.allocate();
    assert_eq!(pool.pool_usage_count(), before + 1);
    pool.deallocate(idx);
    assert_eq!(pool.pool_usage_count(), before);
    assert!(pool.is_free(idx));
}

#[test]
fn allocation_resets_the_object_and_get_mut_writes_through() {
    let mut pool: MemPool<u64> = MemPool::new(2);
    let idx = pool.allocate();
    assert_eq!(*pool.get(idx), 0);
    *pool.get_mut(idx) = 42;
    assert_eq!(*pool.get(idx), 42);
    pool.deallocate(idx);
    // the object keeps its value while free, and is reset on the next allocation
    assert_eq!(*pool.get(idx), 42);
    let again = pool.allocate();
    assert_eq!(again, idx);
    assert_eq!(*pool.get(again), 0);
}

#[test]
fn last_free_slot_cannot_be_allocated() {
    let mut pool: MemPool<u64> = MemPool::new(2);
    assert!(pool.can_allocate());
    pool.allocate();
    // one slot is left, but allocating it would leave no free slot to point at
    assert!(!pool.can_allocate());
    let empty: MemPool<u64> = MemPool::new(0);
    assert!(!empty.can_allocate());
}

#[test]
fn allocation_takes_the_lowest_free_slot() {
    let mut pool: MemPool<u64> = MemPool::new(6);
    for k in 0..4u32 {
        assert_eq!(pool.allocate(), k);
    }
    pool.deallocate(2);
    pool.deallocate(1);
    assert_eq!(pool.next_free(), 1);
    assert_eq!(pool.allocate(), 1);
    assert_eq!(pool.next_free(), 2);
    assert_eq!(pool.allocate(), 2);
    assert_eq!(pool.next_free(), 4);
    pool.deallocate(3);
    assert_eq!(pool.allocate(), 3);
    assert_eq!(pool.allocate(), 4);
}
