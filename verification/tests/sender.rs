use std::collections::hash_map::DefaultHasher;
use std::hash::{Hash, Hasher};
use std::sync::{Arc, Mutex};
use xactor::{Message, Sender, SenderFn};

struct Num(u32);

impl Message for Num {
    type Result = ();
}

fn recording_sender(actor_id: u64, log: Arc<Mutex<Vec<u32>>>) -> Sender<Num> {
    let f = move |msg: Num| -> Result<(), anyhow::Error> {
        log.lock().unwrap().push(msg.0);
        Ok(())
    };
    let boxed: Box<dyn SenderFn<Num>> = Box::new(f);
    Sender::new(actor_id, boxed)
}

fn refusing_sender(actor_id: u64) -> Sender<Num> {
    let f = move |_msg: Num| -> Result<(), anyhow::Error> { Err(anyhow::Error::msg("mailbox closed")) };
    let boxed: Box<dyn SenderFn<Num>> = Box::new(f);
    Sender::new(actor_id, boxed)
}

fn hash_of(s: &Sender<Num>) -> u64 {
    let mut h = DefaultHasher::new();
    s.hash(&mut h);
    h.finish()
}

#[test]
fn sender_hands_the_message_to_its_function() {
    let log = Arc::new(Mutex::new(Vec::new()));
    let sender = recording_sender(7, log.clone());
    assert!(sender.send(Num(10)).is_ok());
    assert!(sender.send(Num(20)).is_ok());
    assert_eq!(*log.lock().unwrap(), vec![10, 20]);
    assert_eq!(sender.actor_id(), 7);
    assert_eq!(sender.actor_id, 7);
}

#[test]
fn sender_reports_a_refused_message() {
    let sender = refusing_sender(3);
    let r = sender.send(Num(1));
    assert!(r.is_err());
    assert_eq!(r.unwrap_err().to_string(), "mailbox closed");
}

#[test]
fn senders_are_equal_when_they_reach_the_same_actor() {
    let log = Arc::new(Mutex::new(Vec::new()));
    let a = recording_sender(5, log.clone());
    let b = refusing_sender(5);
    let c = refusing_sender(6);
    assert!(a == b);
    assert!(b == a);
    assert!(a != c);
    assert_eq!(hash_of(&a), hash_of(&b));
}

#[test]
fn cloned_sender_delivers_through_the_same_function() {
    let log = Arc::new(Mutex::new(Vec::new()));
    let a = recording_sender(9, log.clone());
    let b = a.clone();
    assert!(a == b);
    assert_eq!(b.actor_id(), 9);
    b.send(Num(4)).unwrap();
    a.send(Num(5)).unwrap();
    assert_eq!(*log.lock().unwrap(), vec![4, 5]);
}
