use std::sync::{Arc, Mutex};
use xactor::{Broker, Message, Sender, SenderFn, Subscribe, Unsubscribe};

#[derive(Clone)]
struct MyMsg(&'static str);

impl Message for MyMsg {
    type Result = ();
}

fn appending_sender(actor_id: u64, value: Arc<Mutex<String>>) -> Sender<MyMsg> {
    let f = move |msg: MyMsg| -> Result<(), anyhow::Error> {
        value.lock().unwrap().push_str(msg.0);
        Ok(())
    };
    let boxed: Box<dyn SenderFn<MyMsg>> = Box::new(f);
    Sender::new(actor_id, boxed)
}

fn stopped_sender(actor_id: u64, attempts: Arc<Mutex<u32>>) -> Sender<MyMsg> {
    let f = move |_msg: MyMsg| -> Result<(), anyhow::Error> {
        *attempts.lock().unwrap() += 1;
        Err(anyhow::Error::msg("receiver dropped"))
    };
    let boxed: Box<dyn SenderFn<MyMsg>> = Box::new(f);
    Sender::new(actor_id, boxed)
}

#[test]
fn every_subscriber_gets_every_published_message() {
    let mut broker: Broker<MyMsg> = Broker::default();
    let v1 = Arc::new(Mutex::new(String::new()));
    let v2 = Arc::new(Mutex::new(String::new()));
    broker.subscribe(Subscribe { actor_id: 1, sender: appending_sender(1, v1.clone()) });
    broker.subscribe(Subscribe { actor_id: 2, sender: appending_sender(2, v2.clone()) });
    broker.publish_to_subscribers(MyMsg("a"));
    broker.publish_to_subscribers(MyMsg("b"));
    assert_eq!(*v1.lock().unwrap(), "ab");
    assert_eq!(*v2.lock().unwrap(), "ab");
    assert_eq!(broker.subscriber_count(), 2);
}

#[test]
fn unsubscribed_actor_gets_nothing_more() {
    let mut broker: Broker<MyMsg> = Broker::new();
    let v1 = Arc::new(Mutex::new(String::new()));
    let v2 = Arc::new(Mutex::new(String::new()));
    broker.subscribe(Subscribe { actor_id: 1, sender: appending_sender(1, v1.clone()) });
    broker.subscribe(Subscribe { actor_id: 2, sender: appending_sender(2, v2.clone()) });
    broker.publish_to_subscribers(MyMsg("a"));
    broker.unsubscribe(Unsubscribe { actor_id: 1 });
    assert!(!broker.is_subscribed(1));
    assert!(broker.is_subscribed(2));
    broker.publish_to_subscribers(MyMsg("b"));
    assert_eq!(*v1.lock().unwrap(), "a");
    assert_eq!(*v2.lock().unwrap(), "ab");
    // Unsubscribing an actor that is not subscribed changes nothing.
    broker.unsubscribe(Unsubscribe { actor_id: 1 });
    assert_eq!(broker.subscriber_count(), 1);
}

#[test]
fn subscriber_whose_mailbox_refuses_is_dropped() {
    let mut broker: Broker<MyMsg> = Broker::new();
    let alive = Arc::new(Mutex::new(String::new()));
    let attempts = Arc::new(Mutex::new(0));
    broker.subscribe(Subscribe { actor_id: 1, sender: appending_sender(1, alive.clone()) });
    broker.subscribe(Subscribe { actor_id: 2, sender: stopped_sender(2, attempts.clone()) });
    broker.publish_to_subscribers(MyMsg("x"));
    assert_eq!(*attempts.lock().unwrap(), 1);
    assert!(broker.is_subscribed(1));
    assert!(!broker.is_subscribed(2));
    broker.publish_to_subscribers(MyMsg("y"));
    assert_eq!(*attempts.lock().unwrap(), 1);
    assert_eq!(*alive.lock().unwrap(), "xy");
}

#[test]
fn subscribing_again_replaces_the_sender() {
    let mut broker: Broker<MyMsg> = Broker::new();
    let first = Arc::new(Mutex::new(String::new()));
    let second = Arc::new(Mutex::new(String::new()));
    broker.subscribe(Subscribe { actor_id: 3, sender: appending_sender(3, first.clone()) });
    broker.subscribe(Subscribe { actor_id: 3, sender: appending_sender(3, second.clone()) });
    assert_eq!(broker.subscriber_count(), 1);
    broker.publish_to_subscribers(MyMsg("m"));
    assert_eq!(*first.lock().unwrap(), "");
    assert_eq!(*second.lock().unwrap(), "m");
}

#[test]
fn publishing_without_subscribers_does_nothing() {
    let mut broker: Broker<MyMsg> = Broker::new();
    broker.publish_to_subscribers(MyMsg("z"));
    assert_eq!(broker.subscriber_count(), 0);
}
