use xactor::{ForwardCommand, ForwardReport, StreamForwarder, StreamSignal};

fn expect_deliver<I: std::fmt::Debug + PartialEq>(cmd: ForwardCommand<I>, want: StreamSignal<I>) {
    match (cmd, want) {
        (ForwardCommand::Deliver(StreamSignal::Started), StreamSignal::Started) => {}
        (ForwardCommand::Deliver(StreamSignal::Finished), StreamSignal::Finished) => {}
        (ForwardCommand::Deliver(StreamSignal::Item(a)), StreamSignal::Item(b)) => assert_eq!(a, b),
        (ForwardCommand::Deliver(StreamSignal::Remove(a)), StreamSignal::Remove(b)) => assert_eq!(a, b),
        _ => panic!("unexpected command"),
    }
}

#[test]
fn stream_is_forwarded_in_order() {
    let mut f = StreamForwarder::new(4);
    expect_deliver(f.step::<u32>(ForwardReport::Begin), StreamSignal::Started);
    assert!(matches!(f.step::<u32>(ForwardReport::Delivered(true)), ForwardCommand::Poll));
    expect_deliver(f.step(ForwardReport::Polled(Some(1u32))), StreamSignal::Item(1));
    assert!(matches!(f.step::<u32>(ForwardReport::Delivered(true)), ForwardCommand::Poll));
    expect_deliver(f.step(ForwardReport::Polled(Some(2u32))), StreamSignal::Item(2));
    assert!(matches!(f.step::<u32>(ForwardReport::Delivered(true)), ForwardCommand::Poll));
    expect_deliver(f.step::<u32>(ForwardReport::Polled(None)), StreamSignal::Finished);
    expect_deliver(f.step::<u32>(ForwardReport::Delivered(true)), StreamSignal::Remove(4));
    assert!(!f.is_done());
    assert!(matches!(f.step::<u32>(ForwardReport::Delivered(true)), ForwardCommand::Exit));
    assert!(f.is_done());
    assert!(matches!(f.step::<u32>(ForwardReport::Begin), ForwardCommand::Exit));
}

#[test]
fn unreachable_mailbox_before_start_ends_forwarding() {
    let mut f = StreamForwarder::new(0);
    expect_deliver(f.step::<u32>(ForwardReport::Begin), StreamSignal::Started);
    assert!(matches!(f.step::<u32>(ForwardReport::Unreachable), ForwardCommand::Exit));
    assert!(f.is_done());
}

#[test]
fn refused_started_signal_is_ignored() {
    let mut f = StreamForwarder::new(0);
    expect_deliver(f.step::<u32>(ForwardReport::Begin), StreamSignal::Started);
    assert!(matches!(f.step::<u32>(ForwardReport::Delivered(false)), ForwardCommand::Poll));
}

#[test]
fn refused_item_ends_forwarding() {
    let mut f = StreamForwarder::new(2);
    f.step::<u32>(ForwardReport::Begin);
    f.step::<u32>(ForwardReport::Delivered(true));
    expect_deliver(f.step(ForwardReport::Polled(Some(9u32))), StreamSignal::Item(9));
    assert!(matches!(f.step::<u32>(ForwardReport::Delivered(false)), ForwardCommand::Exit));
    assert!(f.is_done());

    let mut g = StreamForwarder::new(2);
    g.step::<u32>(ForwardReport::Begin);
    g.step::<u32>(ForwardReport::Delivered(true));
    g.step(ForwardReport::Polled(Some(9u32)));
    assert!(matches!(g.step::<u32>(ForwardReport::Unreachable), ForwardCommand::Exit));
}

#[test]
fn remove_is_attempted_after_an_unreachable_finish() {
    let mut f = StreamForwarder::new(11);
    f.step::<u32>(ForwardReport::Begin);
    f.step::<u32>(ForwardReport::Delivered(true));
    expect_deliver(f.step::<u32>(ForwardReport::Polled(None)), StreamSignal::Finished);
    expect_deliver(f.step::<u32>(ForwardReport::Unreachable), StreamSignal::Remove(11));
    assert!(matches!(f.step::<u32>(ForwardReport::Unreachable), ForwardCommand::Exit));
}

#[test]
fn every_item_of_a_stream_reaches_the_actor() {
    let mut items = (0..100).collect::<Vec<i32>>().into_iter();
    let mut f = StreamForwarder::new(0);
    let mut report = ForwardReport::Begin;
    let mut sum = 0;
    let mut started = false;
    let mut finished = false;
    let mut removed = None;
    loop {
        match f.step(report) {
            ForwardCommand::Poll => report = ForwardReport::Polled(items.next()),
            ForwardCommand::Deliver(signal) => {
                match signal {
                    StreamSignal::Started => started = true,
                    StreamSignal::Item(x) => sum += x,
                    StreamSignal::Finished => finished = true,
                    StreamSignal::Remove(k) => removed = Some(k),
                }
                report = ForwardReport::Delivered(true);
            }
            ForwardCommand::Exit => break,
        }
    }
    assert!(started && finished);
    assert_eq!(sum, (0..100).sum::<i32>());
    assert_eq!(removed, Some(0));
}
