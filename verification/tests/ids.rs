use xactor::ActorIdAllocator;

#[test]
fn allocator_starts_at_zero() {
    let mut ids = ActorIdAllocator::new();
    assert_eq!(ids.peek(), 0);
    assert_eq!(ids.allocate(), 0);
    assert_eq!(ids.peek(), 1);
}

#[test]
fn allocator_hands_out_distinct_increasing_ids() {
    let mut ids = ActorIdAllocator::new();
    let mut seen = Vec::new();
    for _ in 0..100 {
        seen.push(ids.allocate());
    }
    for (i, id) in seen.iter().enumerate() {
        assert_eq!(*id, i as u64);
    }
    assert_eq!(ids.peek(), 100);
}
