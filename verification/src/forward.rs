use vstd::prelude::*;

verus! {

/// What a stream forwarder hands to the actor's mailbox.
pub enum StreamSignal<I> {
    /// The stream has been polled for the first time: run `StreamHandler::started`.
    Started,
    /// An item of the stream: run `StreamHandler::handle` with it.
    Item(I),
    /// The stream has finished: run `StreamHandler::finished`.
    Finished,
    /// Forget the stream registered under this key.
    Remove(usize),
}

/// What the task that forwards a stream does next.
pub enum ForwardCommand<I> {
    /// Deliver this signal to the actor, if its mailbox can still be reached.
    Deliver(StreamSignal<I>),
    /// Wait for the stream's next item.
    Poll,
    /// End the task.
    Exit,
}

/// What the forwarding task observed since its last command.
pub enum ForwardReport<I> {
    /// The task has just started.
    Begin,
    /// The stream yielded this item, or ended (`None`).
    Polled(Option<I>),
    /// The mailbox was reachable and the signal was handed to it; `true`
    /// when the mailbox accepted it.
    Delivered(bool),
    /// The actor's mailbox could not be reached any more.
    Unreachable,
}

/// Where a stream forwarder stands.
pub enum ForwardPhase {
    /// Nothing done yet.
    Start,
    /// The `Started` signal is out.
    AwaitStarted,
    /// Waiting for the stream.
    Polling,
    /// An item is out.
    AwaitItem,
    /// The `Finished` signal is out.
    AwaitFinished,
    /// The `Remove` signal is out.
    AwaitRemove,
    /// Forwarding is over.
    Done,
}

/// The phase and the command that follow `report` in `phase`, for the
/// stream registered under `key`.
pub open spec fn forward_outcome<I>(phase: ForwardPhase, key: usize, report: ForwardReport<I>) -> (
    ForwardPhase,
    ForwardCommand<I>,
) {
    match (phase, report) {
        (ForwardPhase::Start, ForwardReport::Begin) => (
            ForwardPhase::AwaitStarted,
            ForwardCommand::Deliver(StreamSignal::Started),
        ),
        (ForwardPhase::AwaitStarted, ForwardReport::Delivered(_)) => (
            ForwardPhase::Polling,
            ForwardCommand::Poll,
        ),
        (ForwardPhase::Polling, ForwardReport::Polled(Some(item))) => (
            ForwardPhase::AwaitItem,
            ForwardCommand::Deliver(StreamSignal::Item(item)),
        ),
        (ForwardPhase::Polling, ForwardReport::Polled(None)) => (
            ForwardPhase::AwaitFinished,
            ForwardCommand::Deliver(StreamSignal::Finished),
        ),
        (ForwardPhase::AwaitItem, ForwardReport::Delivered(true)) => (
            ForwardPhase::Polling,
            ForwardCommand::Poll,
        ),
        (ForwardPhase::AwaitFinished, ForwardReport::Delivered(_)) => (
            ForwardPhase::AwaitRemove,
            ForwardCommand::Deliver(StreamSignal::Remove(key)),
        ),
        (ForwardPhase::AwaitFinished, ForwardReport::Unreachable) => (
            ForwardPhase::AwaitRemove,
            ForwardCommand::Deliver(StreamSignal::Remove(key)),
        ),
        _ => (ForwardPhase::Done, ForwardCommand::Exit),
    }
}

/// Forwards one stream into an actor's mailbox: first `Started`, then each
/// item, then `Finished` and the `Remove` signal that names the stream's key.
/// If the mailbox cannot be reached before `Started` or before an item, or
/// refuses an item, forwarding ends at once; `Finished` and `Remove` are
/// attempted whatever became of the other.
pub struct StreamForwarder {
    key: usize,
    phase: ForwardPhase,
}

impl StreamForwarder {
    /// The key the stream is registered under.
    pub closed spec fn key(&self) -> usize {
        self.key
    }

    /// Where the forwarder stands.
    pub closed spec fn phase(&self) -> ForwardPhase {
        self.phase
    }

    /// A forwarder for the stream registered under `key`, about to start.
    pub fn new(key: usize) -> (f: Self)
        ensures
            f.key() == key,
            f.phase() == ForwardPhase::Start,
    {
        StreamForwarder { key, phase: ForwardPhase::Start }
    }

    /// Whether forwarding is over.
    pub fn is_done(&self) -> (r: bool)
        ensures
            r == (self.phase() == ForwardPhase::Done),
    {
        match self.phase {
            ForwardPhase::Done => true,
            _ => false,
        }
    }

    /// Takes what the task observed and says what it does next.
    pub fn step<I>(&mut self, report: ForwardReport<I>) -> (cmd: ForwardCommand<I>)
        ensures
            final(self).key() == old(self).key(),
            (final(self).phase(), cmd) == forward_outcome(old(self).phase(), old(self).key(), report),
    {
        let key = self.key;
        match (&self.phase, report) {
            (ForwardPhase::Start, ForwardReport::Begin) => {
                self.phase = ForwardPhase::AwaitStarted;
                ForwardCommand::Deliver(StreamSignal::Started)
            },
            (ForwardPhase::AwaitStarted, ForwardReport::Delivered(_)) => {
                self.phase = ForwardPhase::Polling;
                ForwardCommand::Poll
            },
            (ForwardPhase::Polling, ForwardReport::Polled(Some(item))) => {
                self.phase = ForwardPhase::AwaitItem;
                ForwardCommand::Deliver(StreamSignal::Item(item))
            },
            (ForwardPhase::Polling, ForwardReport::Polled(None)) => {
                self.phase = ForwardPhase::AwaitFinished;
                ForwardCommand::Deliver(StreamSignal::Finished)
            },
            (ForwardPhase::AwaitItem, ForwardReport::Delivered(true)) => {
                self.phase = ForwardPhase::Polling;
                ForwardCommand::Poll
            },
            (ForwardPhase::AwaitFinished, ForwardReport::Delivered(_)) => {
                self.phase = ForwardPhase::AwaitRemove;
                ForwardCommand::Deliver(StreamSignal::Remove(key))
            },
            (ForwardPhase::AwaitFinished, ForwardReport::Unreachable) => {
                self.phase = ForwardPhase::AwaitRemove;
                ForwardCommand::Deliver(StreamSignal::Remove(key))
            },
            _ => {
                self.phase = ForwardPhase::Done;
                ForwardCommand::Exit
            },
        }
    }
}

/// Feeding `reports` to a forwarder one after the other, from `phase`:
/// the phase reached and the commands given, in order.
pub open spec fn forward_run<I>(phase: ForwardPhase, key: usize, reports: Seq<ForwardReport<I>>) -> (
    ForwardPhase,
    Seq<ForwardCommand<I>>,
)
    decreases reports.len(),
{
    if reports.len() == 0 {
        (phase, Seq::empty())
    } else {
        let (p, cmd) = forward_outcome(phase, key, reports[0]);
        let (q, cmds) = forward_run(p, key, reports.drop_first());
        (q, seq![cmd] + cmds)
    }
}

/// What a forwarding task observes while it forwards `items`, from the
/// moment it polls for the first of them, when the mailbox takes every signal.
pub open spec fn accepted_items_reports<I>(items: Seq<I>) -> Seq<ForwardReport<I>>
    decreases items.len(),
{
    if items.len() == 0 {
        seq![ForwardReport::Polled(None), ForwardReport::Delivered(true)]
    } else {
        seq![ForwardReport::Polled(Some(items[0])), ForwardReport::Delivered(true)]
            + accepted_items_reports(items.drop_first())
    }
}

/// The commands that forward `items` into a mailbox that takes every signal,
/// from the first poll on.
pub open spec fn accepted_items_commands<I>(key: usize, items: Seq<I>) -> Seq<ForwardCommand<I>>
    decreases items.len(),
{
    if items.len() == 0 {
        seq![
            ForwardCommand::Poll,
            ForwardCommand::Deliver(StreamSignal::Finished),
            ForwardCommand::Deliver(StreamSignal::Remove(key)),
        ]
    } else {
        seq![ForwardCommand::Poll, ForwardCommand::Deliver(StreamSignal::Item(items[0]))]
            + accepted_items_commands(key, items.drop_first())
    }
}

proof fn lemma_forward_run_append<I>(
    phase: ForwardPhase,
    key: usize,
    a: Seq<ForwardReport<I>>,
    b: Seq<ForwardReport<I>>,
)
    ensures
        forward_run(phase, key, a + b).1 == forward_run(phase, key, a).1 + forward_run(
            forward_run(phase, key, a).0,
            key,
            b,
        ).1,
        forward_run(phase, key, a + b).0 == forward_run(forward_run(phase, key, a).0, key, b).0,
    decreases a.len(),
{
    if a.len() > 0 {
        let (p, cmd) = forward_outcome(phase, key, a[0]);
        assert((a + b).drop_first() =~= a.drop_first() + b);
        lemma_forward_run_append(p, key, a.drop_first(), b);
        assert((a + b)[0] == a[0]);
    }
}

proof fn lemma_forward_items<I>(key: usize, items: Seq<I>)
    ensures
        forward_run(ForwardPhase::AwaitStarted, key, seq![ForwardReport::Delivered(true)]
            + accepted_items_reports(items)).1 == accepted_items_commands(key, items),
        forward_run(ForwardPhase::AwaitStarted, key, seq![ForwardReport::Delivered(true)]
            + accepted_items_reports(items)).0 == ForwardPhase::AwaitRemove,
    decreases items.len(),
{
    let head: Seq<ForwardReport<I>> = seq![ForwardReport::Delivered(true)];
    if items.len() == 0 {
        let r = head + accepted_items_reports(items);
        let r1 = r.drop_first();
        let r2 = r1.drop_first();
        let r3 = r2.drop_first();
        assert(r3.len() == 0);
        assert(r[0] == ForwardReport::<I>::Delivered(true));
        assert(r1[0] == ForwardReport::<I>::Polled(None));
        assert(r2[0] == ForwardReport::<I>::Delivered(true));
        assert(forward_run(ForwardPhase::AwaitRemove, key, r3) == (ForwardPhase::AwaitRemove, Seq::<ForwardCommand<I>>::empty()));
        assert(forward_run(ForwardPhase::AwaitFinished, key, r2).1 =~= seq![ForwardCommand::Deliver(StreamSignal::<I>::Remove(key))]);
        assert(forward_run(ForwardPhase::Polling, key, r1).1 =~= seq![ForwardCommand::Deliver(StreamSignal::<I>::Finished), ForwardCommand::Deliver(StreamSignal::<I>::Remove(key))]);
        assert(forward_run(ForwardPhase::AwaitStarted, key, r).1 =~= accepted_items_commands(
            key,
            items,
        ));
    } else {
        let x = items[0];
        let first: Seq<ForwardReport<I>> = seq![ForwardReport::Delivered(true), ForwardReport::Polled(Some(x))];
        let tail = seq![ForwardReport::Delivered(true)] + accepted_items_reports(items.drop_first());
        assert(head + accepted_items_reports(items) =~= first + tail);
        lemma_forward_run_append(ForwardPhase::AwaitStarted, key, first, tail);
        assert(forward_run(ForwardPhase::AwaitStarted, key, first).0 == ForwardPhase::AwaitItem) by {
            reveal_with_fuel(forward_run, 3);
        }
        assert(forward_run(ForwardPhase::AwaitStarted, key, first).1 =~= seq![
            ForwardCommand::Poll,
            ForwardCommand::Deliver(StreamSignal::Item(x)),
        ]) by {
            reveal_with_fuel(forward_run, 3);
        }
        lemma_forward_items(key, items.drop_first());
        assert(forward_run(ForwardPhase::AwaitItem, key, tail) == forward_run(
            ForwardPhase::AwaitStarted,
            key,
            tail,
        )) by {
            assert(tail[0] == ForwardReport::<I>::Delivered(true));
        }
    }
}

/// A stream whose every signal the mailbox takes is forwarded completely:
/// `Started`, each item in order, `Finished`, then the `Remove` signal with
/// the stream's own key, after which the task ends.
pub proof fn lemma_stream_forwarded_in_order<I>(key: usize, items: Seq<I>)
    ensures
        forward_run(
            ForwardPhase::Start,
            key,
            seq![ForwardReport::Begin, ForwardReport::Delivered(true)] + accepted_items_reports(
                items,
            ) + seq![ForwardReport::Delivered(true)],
        ) == (ForwardPhase::Done, seq![ForwardCommand::Deliver(StreamSignal::Started)]
            + accepted_items_commands(key, items) + seq![ForwardCommand::Exit]),
{
    let a: Seq<ForwardReport<I>> = seq![ForwardReport::Begin];
    let b = seq![ForwardReport::Delivered(true)] + accepted_items_reports(items);
    let c: Seq<ForwardReport<I>> = seq![ForwardReport::Delivered(true)];
    assert(seq![ForwardReport::Begin, ForwardReport::Delivered(true)] + accepted_items_reports(items)
        + c =~= a + (b + c));
    lemma_forward_run_append(ForwardPhase::Start, key, a, b + c);
    assert(forward_run(ForwardPhase::Start, key, a).0 == ForwardPhase::AwaitStarted) by {
        reveal_with_fuel(forward_run, 2);
    }
    assert(forward_run(ForwardPhase::Start, key, a).1 =~= seq![
        ForwardCommand::Deliver(StreamSignal::Started),
    ]) by {
        reveal_with_fuel(forward_run, 2);
    }
    lemma_forward_run_append(ForwardPhase::AwaitStarted, key, b, c);
    lemma_forward_items(key, items);
    assert(forward_run(ForwardPhase::AwaitRemove, key, c) == (
        ForwardPhase::Done,
        seq![ForwardCommand::<I>::Exit],
    )) by {
        reveal_with_fuel(forward_run, 2);
        assert(forward_run(ForwardPhase::AwaitRemove, key, c).1 =~= seq![ForwardCommand::<I>::Exit]);
    }
}

/// Forwarding that has ended stays ended: whatever is reported, a finished
/// forwarder commands `Exit`.
pub proof fn lemma_forwarding_ends_for_good<I>(key: usize, report: ForwardReport<I>)
    ensures
        forward_outcome(ForwardPhase::Done, key, report) == (ForwardPhase::Done, ForwardCommand::<
            I,
        >::Exit),
{
}

/// A mailbox that refuses an item, or cannot be reached for it, ends the
/// forwarding: the stream is not polled again and nothing more is sent.
pub proof fn lemma_refused_item_ends_forwarding<I>(key: usize, accepted: bool, reachable: bool)
    requires
        !(accepted && reachable),
    ensures
        forward_outcome(
            ForwardPhase::AwaitItem,
            key,
            if reachable {
                ForwardReport::<I>::Delivered(accepted)
            } else {
                ForwardReport::<I>::Unreachable
            },
        ) == (ForwardPhase::Done, ForwardCommand::<I>::Exit),
{
}

} // verus!
