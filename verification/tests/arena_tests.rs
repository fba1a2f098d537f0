use rtgc_siberian_cities::arena_allocator::ArenaAllocator;

#[test]
fn allocate_then_get() {
    let mut arena: ArenaAllocator<&str> = ArenaAllocator::new();
    let a = arena.allocate("truck");
    let b = arena.allocate("trailer");
    assert_eq!((a, b), (0, 1));
    assert_eq!(arena.get(a, 0), Some(&"truck"));
    assert_eq!(arena.get(b, 0), Some(&"trailer"));
    assert_eq!(arena.get(b, 1), None);
    assert_eq!(arena.get(7, 0), None);
    assert_eq!(arena.count(), 2);
}

#[test]
fn freed_slot_is_reused_with_next_generation() {
    let mut arena: ArenaAllocator<u32> = ArenaAllocator::new();
    let a = arena.allocate(10);
    let _b = arena.allocate(20);
    arena.deallocate(a);
    assert!(!arena.is_allocated(a));
    assert_eq!(arena.count(), 1);
    assert_eq!(arena.get(a, 0), None);
    let c = arena.allocate(30);
    assert_eq!(c, a);
    assert_eq!(arena.get_generation(c), Some(1));
    // the stale handle (generation 0) no longer reaches the slot
    assert_eq!(arena.get(a, 0), None);
    assert_eq!(arena.get(c, 1), Some(&30));
    assert_eq!(arena.get_generation(5), None);
}

#[test]
fn most_recently_freed_slot_first() {
    let mut arena: ArenaAllocator<u8> = ArenaAllocator::new();
    let a = arena.allocate(1);
    let b = arena.allocate(2);
    let _c = arena.allocate(3);
    arena.deallocate(a);
    arena.deallocate(b);
    assert_eq!(arena.allocate(4), b);
    assert_eq!(arena.allocate(5), a);
    assert_eq!(arena.allocate(6), 3);
}

#[test]
fn double_deallocate_is_harmless() {
    let mut arena: ArenaAllocator<u8> = ArenaAllocator::new();
    let a = arena.allocate(1);
    arena.deallocate(a);
    arena.deallocate(a);
    arena.deallocate(100);
    assert_eq!(arena.count(), 0);
    assert_eq!(arena.allocate(2), a);
    assert_eq!(arena.allocate(3), 1);
}

#[test]
fn mutable_access() {
    let mut arena: ArenaAllocator<i64> = ArenaAllocator::with_capacity(4);
    assert!(arena.capacity() >= 0);
    let a = arena.allocate(1);
    if let Some(v) = arena.get_mut(a, 0) {
        *v = 41;
    }
    assert_eq!(arena.get_unchecked(a), Some(&41));
    if let Some(v) = arena.get_mut_unchecked(a) {
        *v += 1;
    }
    assert_eq!(arena.get(a, 0), Some(&42));
    assert!(arena.get_mut(a, 3).is_none());
    assert!(arena.get_mut_unchecked(9).is_none());
    assert_eq!(arena.get_unchecked(9), None);
}

#[test]
fn clear_empties_everything() {
    let mut arena: ArenaAllocator<u8> = ArenaAllocator::default();
    let a = arena.allocate(1);
    arena.allocate(2);
    arena.deallocate(a);
    arena.clear();
    assert_eq!(arena.count(), 0);
    assert!(!arena.is_allocated(0));
    assert!(!arena.is_allocated(1));
    // the slots stay, with their generations, as free slots
    assert_eq!(arena.get_generation(0), Some(0));
    assert_eq!(arena.get_generation(1), Some(0));
    assert_eq!(arena.allocate(9), 0);
    assert_eq!(arena.get_generation(0), Some(1));
    assert_eq!(arena.allocate(8), 1);
    assert_eq!(arena.allocate(7), 2);
    assert_eq!(arena.count(), 3);
}

#[test]
fn clear_keeps_stale_handles_out() {
    let mut arena: ArenaAllocator<&str> = ArenaAllocator::new();
    let a = arena.allocate("old");
    let b = arena.allocate("older");
    arena.clear();
    assert_eq!(arena.get(a, 0), None);
    assert_eq!(arena.get(b, 0), None);
    let c = arena.allocate("new");
    let d = arena.allocate("newer");
    let e = arena.allocate("newest");
    assert_eq!((c, d, e), (0, 1, 2));
    assert_eq!(arena.get(a, 0), None);
    assert_eq!(arena.get(b, 0), None);
    assert_eq!(arena.get(c, 1), Some(&"new"));
    assert_eq!(arena.get(e, 0), Some(&"newest"));
}

#[test]
fn capacity_covers_the_slots() {
    let mut arena: ArenaAllocator<u8> = ArenaAllocator::new();
    for i in 0..10u8 {
        arena.allocate(i);
    }
    assert!(arena.capacity() >= 10);
}
