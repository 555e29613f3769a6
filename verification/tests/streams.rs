use futures::future::AbortHandle;
use xactor::StreamSlots;

#[test]
fn registered_streams_get_fresh_keys() {
    let mut slots = StreamSlots::new();
    assert_eq!(slots.len(), 0);
    let (h1, _r1) = AbortHandle::new_pair();
    let (h2, _r2) = AbortHandle::new_pair();
    let k1 = slots.register(h1);
    let k2 = slots.register(h2);
    assert_ne!(k1, k2);
    assert!(slots.contains(k1));
    assert!(slots.contains(k2));
    assert_eq!(slots.len(), 2);
    assert!(slots.has_room());
}

#[test]
fn removing_a_stream_forgets_only_that_stream() {
    let mut slots = StreamSlots::new();
    let (h1, _r1) = AbortHandle::new_pair();
    let (h2, _r2) = AbortHandle::new_pair();
    let k1 = slots.register(h1);
    let k2 = slots.register(h2);
    slots.remove(k1);
    assert!(!slots.contains(k1));
    assert!(slots.contains(k2));
    assert_eq!(slots.len(), 1);
    // Removing a key that holds nothing changes nothing.
    slots.remove(k1);
    slots.remove(1000);
    assert_eq!(slots.len(), 1);
    // A freed key can be handed out again, never one in use.
    let (h3, _r3) = AbortHandle::new_pair();
    let k3 = slots.register(h3);
    assert_ne!(k3, k2);
    assert_eq!(slots.len(), 2);
}

#[test]
fn abort_all_aborts_every_stream() {
    let mut slots = StreamSlots::new();
    let (h1, _r1) = AbortHandle::new_pair();
    let (h2, _r2) = AbortHandle::new_pair();
    let watch1 = h1.clone();
    let watch2 = h2.clone();
    let k1 = slots.register(h1);
    slots.register(h2);
    assert!(!watch1.is_aborted());
    assert_eq!(slots.abort_all(), 2);
    assert!(watch1.is_aborted());
    assert!(watch2.is_aborted());
    assert_eq!(slots.len(), 0);
    assert!(!slots.contains(k1));
    assert_eq!(slots.abort_all(), 0);
}

#[test]
fn opened_stream_is_aborted_with_the_others() {
    let mut slots = StreamSlots::new();
    let (k1, reg1) = slots.open();
    let (k2, reg2) = slots.open();
    assert_ne!(k1, k2);
    assert!(slots.contains(k1) && slots.contains(k2));
    let watch1 = reg1.handle();
    let watch2 = reg2.handle();
    assert!(!watch1.is_aborted());
    assert_eq!(slots.abort_all(), 2);
    assert!(watch1.is_aborted());
    assert!(watch2.is_aborted());
}
