use xactor::ActorCount;

#[test]
fn waiting_ends_when_every_actor_has_exited() {
    let mut count = ActorCount::new();
    assert!(count.all_exited());
    count.inc();
    count.inc();
    assert_eq!(count.get(), 2);
    assert!(!count.all_exited());
    count.dec();
    assert!(!count.all_exited());
    count.dec();
    assert!(count.all_exited());
    assert_eq!(count.get(), 0);
}

#[test]
fn count_wraps_like_an_atomic() {
    let mut count = ActorCount::new();
    count.dec();
    assert_eq!(count.get(), usize::MAX);
    count.inc();
    assert_eq!(count.get(), 0);
}
