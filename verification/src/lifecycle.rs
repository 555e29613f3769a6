use crate::forward::{forward_outcome, ForwardCommand, ForwardPhase, ForwardReport, StreamSignal};
use crate::streams::StreamSlots;
use vstd::prelude::*;

verus! {

/// An event in an actor's mailbox. `Exec` carries the work that handles one
/// message (or one stream event) against the actor.
pub enum ActorEvent<F> {
    /// Run this handler against the actor.
    Exec(F),
    /// Stop the actor, with the error that stopped it, if any.
    Stop(Option<anyhow::Error>),
    /// The stream with this key has finished; forget it.
    RemoveStream(usize),
}

/// What an actor's event loop does with one mailbox event.
pub enum MailboxStep<F> {
    /// Run the handler against the actor, then wait for the next event.
    Handle(F),
    /// Wait for the next event.
    Continue,
    /// Leave the loop: call `stopped`, abort the actor's streams and signal
    /// that the actor has exited.
    Shutdown,
}

/// What a supervisor's event loop does with one mailbox event.
pub enum SupervisorStep<F> {
    /// Run the handler against the current actor instance.
    Handle(F),
    /// Wait for the next event.
    Continue,
    /// Stop the current instance, create a fresh one and start it.
    Restart,
    /// Every address is gone: stop the current instance and leave.
    Exit,
}

/// The registered stream keys after an event, and the step it calls for,
/// in an actor's own event loop. A closed mailbox (`None`) ends the loop.
pub open spec fn mailbox_outcome<F>(keys: Set<usize>, event: Option<ActorEvent<F>>) -> (Set<
    usize,
>, MailboxStep<F>) {
    match event {
        None => (keys, MailboxStep::Shutdown),
        Some(ActorEvent::Exec(f)) => (keys, MailboxStep::Handle(f)),
        Some(ActorEvent::Stop(_)) => (keys, MailboxStep::Shutdown),
        Some(ActorEvent::RemoveStream(id)) => (keys.remove(id), MailboxStep::Continue),
    }
}

/// The registered stream keys after an event, and the step it calls for,
/// in a supervisor's event loop. `Stop` restarts; only a closed mailbox ends
/// the loop.
pub open spec fn supervisor_outcome<F>(keys: Set<usize>, event: Option<ActorEvent<F>>) -> (Set<
    usize,
>, SupervisorStep<F>) {
    match event {
        None => (keys, SupervisorStep::Exit),
        Some(ActorEvent::Exec(f)) => (keys, SupervisorStep::Handle(f)),
        Some(ActorEvent::Stop(_)) => (keys, SupervisorStep::Restart),
        Some(ActorEvent::RemoveStream(id)) => (keys.remove(id), SupervisorStep::Continue),
    }
}

/// Decides what an actor's event loop does with the next mailbox event
/// (`None` once every sender is gone), forgetting a finished stream.
pub fn mailbox_step<F>(streams: &mut StreamSlots, event: Option<ActorEvent<F>>) -> (step:
    MailboxStep<F>)
    ensures
        (final(streams)@, step) == mailbox_outcome(old(streams)@, event),
        match event {
            Some(ActorEvent::RemoveStream(id)) => final(streams)@ == old(streams)@.remove(id),
            _ => final(streams)@ == old(streams)@,
        },
        match event {
            Some(ActorEvent::Exec(f)) => step == MailboxStep::Handle(f),
            Some(ActorEvent::RemoveStream(_)) => step is Continue,
            _ => step is Shutdown,
        },
{
    match event {
        None => MailboxStep::Shutdown,
        Some(ActorEvent::Exec(f)) => MailboxStep::Handle(f),
        Some(ActorEvent::Stop(_err)) => MailboxStep::Shutdown,
        Some(ActorEvent::RemoveStream(id)) => {
            if streams.contains(id) {
                streams.remove(id);
            }
            MailboxStep::Continue
        },
    }
}

/// Decides what a supervisor's event loop does with the next mailbox event
/// (`None` once every sender is gone), forgetting a finished stream.
pub fn supervisor_step<F>(streams: &mut StreamSlots, event: Option<ActorEvent<F>>) -> (step:
    SupervisorStep<F>)
    ensures
        (final(streams)@, step) == supervisor_outcome(old(streams)@, event),
        match event {
            Some(ActorEvent::RemoveStream(id)) => final(streams)@ == old(streams)@.remove(id),
            _ => final(streams)@ == old(streams)@,
        },
        match event {
            Some(ActorEvent::Exec(f)) => step == SupervisorStep::Handle(f),
            Some(ActorEvent::RemoveStream(_)) => step is Continue,
            Some(ActorEvent::Stop(_)) => step is Restart,
            None => step is Exit,
        },
{
    match event {
        None => SupervisorStep::Exit,
        Some(ActorEvent::Stop(_err)) => SupervisorStep::Restart,
        Some(ActorEvent::Exec(f)) => SupervisorStep::Handle(f),
        Some(ActorEvent::RemoveStream(id)) => {
            if streams.contains(id) {
                streams.remove(id);
            }
            SupervisorStep::Continue
        },
    }
}

/// Whether an event ends an actor's own event loop: a `Stop`, or a closed
/// mailbox.
pub open spec fn ends_mailbox<F>(event: Option<ActorEvent<F>>) -> bool {
    match event {
        None => true,
        Some(ActorEvent::Stop(_)) => true,
        _ => false,
    }
}

/// The handlers carried by the `Exec` events of a sequence, in order.
pub open spec fn exec_payloads<F>(events: Seq<Option<ActorEvent<F>>>) -> Seq<F>
    decreases events.len(),
{
    if events.len() == 0 {
        Seq::empty()
    } else {
        let rest = exec_payloads(events.drop_first());
        match events[0] {
            Some(ActorEvent::Exec(f)) => seq![f] + rest,
            _ => rest,
        }
    }
}

/// How many `Stop` events a sequence holds.
pub open spec fn stop_count<F>(events: Seq<Option<ActorEvent<F>>>) -> nat
    decreases events.len(),
{
    if events.len() == 0 {
        0
    } else {
        let rest = stop_count(events.drop_first());
        match events[0] {
            Some(ActorEvent::Stop(_)) => rest + 1,
            _ => rest,
        }
    }
}

/// Feeding `events` to `mailbox_step` one after the other: the stream keys
/// left, the handlers run in order, and whether the loop was left.
pub open spec fn mailbox_run<F>(keys: Set<usize>, events: Seq<Option<ActorEvent<F>>>) -> (Set<
    usize,
>, Seq<F>, bool)
    decreases events.len(),
{
    if events.len() == 0 {
        (keys, Seq::empty(), false)
    } else {
        let (k, step) = mailbox_outcome(keys, events[0]);
        match step {
            MailboxStep::Handle(f) => {
                let (k2, handled, left) = mailbox_run(k, events.drop_first());
                (k2, seq![f] + handled, left)
            },
            MailboxStep::Continue => mailbox_run(k, events.drop_first()),
            MailboxStep::Shutdown => (k, Seq::empty(), true),
        }
    }
}

/// Feeding `events` to `supervisor_step` one after the other: the stream
/// keys left, the handlers run in order, how many restarts happened, and
/// whether the loop was left.
pub open spec fn supervisor_run<F>(keys: Set<usize>, events: Seq<Option<ActorEvent<F>>>) -> (Set<
    usize,
>, Seq<F>, nat, bool)
    decreases events.len(),
{
    if events.len() == 0 {
        (keys, Seq::empty(), 0, false)
    } else {
        let (k, step) = supervisor_outcome(keys, events[0]);
        match step {
            SupervisorStep::Handle(f) => {
                let (k2, handled, restarts, left) = supervisor_run(k, events.drop_first());
                (k2, seq![f] + handled, restarts, left)
            },
            SupervisorStep::Continue => supervisor_run(k, events.drop_first()),
            SupervisorStep::Restart => {
                let (k2, handled, restarts, left) = supervisor_run(k, events.drop_first());
                (k2, handled, restarts + 1, left)
            },
            SupervisorStep::Exit => (k, Seq::empty(), 0, true),
        }
    }
}

/// An actor runs the handlers of its mailbox in order, as long as no event
/// has stopped it: over events none of which is a `Stop` or a closed
/// mailbox, the loop runs exactly the `Exec` handlers and is not left.
pub proof fn lemma_mailbox_runs_every_handler<F>(keys: Set<usize>, events: Seq<Option<ActorEvent<F>>>)
    requires
        forall|i: int| 0 <= i < events.len() ==> !ends_mailbox(#[trigger] events[i]),
    ensures
        mailbox_run(keys, events).1 == exec_payloads(events),
        !mailbox_run(keys, events).2,
    decreases events.len(),
{
    if events.len() > 0 {
        let (k, step) = mailbox_outcome(keys, events[0]);
        assert(!ends_mailbox(events[0]));
        let rest = events.drop_first();
        assert forall|i: int| 0 <= i < rest.len() implies !ends_mailbox(#[trigger] rest[i]) by {
            assert(rest[i] == events[i + 1]);
        }
        lemma_mailbox_runs_every_handler(k, rest);
    }
}

/// A stop is final: once a `Stop` (or a closed mailbox) reaches an actor,
/// no later event has any effect, and the loop is left.
pub proof fn lemma_mailbox_stop_is_final<F>(
    keys: Set<usize>,
    events: Seq<Option<ActorEvent<F>>>,
    i: int,
)
    requires
        0 <= i < events.len(),
        ends_mailbox(events[i]),
    ensures
        mailbox_run(keys, events) == mailbox_run(keys, events.take(i + 1)),
        mailbox_run(keys, events).2,
    decreases i,
{
    let (k, step) = mailbox_outcome(keys, events[0]);
    let rest = events.drop_first();
    let short = events.take(i + 1);
    assert(short[0] == events[0]);
    if i > 0 {
        assert(rest[i - 1] == events[i]);
        lemma_mailbox_stop_is_final(k, rest, i - 1);
        assert(short.drop_first() =~= rest.take(i));
    }
}

/// A supervised actor is never stopped for good by `Stop`: over events
/// none of which is a closed mailbox, the supervisor runs exactly the `Exec`
/// handlers, restarts once per `Stop`, and keeps going.
pub proof fn lemma_supervisor_restarts_on_stop<F>(keys: Set<usize>, events: Seq<Option<ActorEvent<F>>>)
    requires
        forall|i: int| 0 <= i < events.len() ==> (#[trigger] events[i]) is Some,
    ensures
        supervisor_run(keys, events).1 == exec_payloads(events),
        supervisor_run(keys, events).2 == stop_count(events),
        !supervisor_run(keys, events).3,
    decreases events.len(),
{
    if events.len() > 0 {
        let (k, step) = supervisor_outcome(keys, events[0]);
        assert(events[0] is Some);
        let rest = events.drop_first();
        assert forall|i: int| 0 <= i < rest.len() implies (#[trigger] rest[i]) is Some by {
            assert(rest[i] == events[i + 1]);
        }
        lemma_supervisor_restarts_on_stop(k, rest);
    }
}

/// A supervisor leaves its loop when, and only when, its mailbox closes:
/// nothing after the close has any effect.
pub proof fn lemma_supervisor_exits_on_close<F>(
    keys: Set<usize>,
    events: Seq<Option<ActorEvent<F>>>,
    i: int,
)
    requires
        0 <= i < events.len(),
        events[i] is None,
    ensures
        supervisor_run(keys, events) == supervisor_run(keys, events.take(i + 1)),
        supervisor_run(keys, events).3,
    decreases i,
{
    let (k, step) = supervisor_outcome(keys, events[0]);
    let rest = events.drop_first();
    let short = events.take(i + 1);
    assert(short[0] == events[0]);
    if i > 0 {
        assert(rest[i - 1] == events[i]);
        lemma_supervisor_exits_on_close(k, rest, i - 1);
        assert(short.drop_first() =~= rest.take(i));
    }
}

/// Whether a task that sends a message to its actor at a fixed interval
/// goes on after a tick: it stops at the first message the mailbox refuses.
pub fn keeps_ticking(sent: &Result<(), anyhow::Error>) -> (r: bool)
    ensures
        r == sent is Ok,
{
    sent.is_ok()
}

/// A finished stream is forgotten by its actor: once the stream has ended,
/// its forwarder sends a `Remove` signal with the key the stream was
/// registered under (whether or not `Finished` got through), and an actor or
/// a supervisor that receives it as a `RemoveStream` event drops exactly that
/// key from its streams, and nothing else.
pub proof fn lemma_finished_stream_is_forgotten<F, I>(
    keys: Set<usize>,
    key: usize,
    report: ForwardReport<I>,
)
    requires
        report is Delivered || report is Unreachable,
    ensures
        forward_outcome(ForwardPhase::AwaitFinished, key, report).1 == ForwardCommand::<I>::Deliver(
            StreamSignal::Remove(key),
        ),
        mailbox_outcome::<F>(keys, Some(ActorEvent::RemoveStream(key))).0 == keys.remove(key),
        supervisor_outcome::<F>(keys, Some(ActorEvent::RemoveStream(key))).0 == keys.remove(key),
        !keys.remove(key).contains(key),
        forall|other: usize| other != key ==> (keys.remove(key).contains(other) <==> keys.contains(other)),
{
}

/// Handling a message never touches an actor's streams: for every stream
/// table and every event, the keys after the step are the keys before it,
/// except that a `RemoveStream(id)` event takes out `id` and nothing else.
/// In particular an `Exec` event is handed to the actor as it came, with
/// every stream left running.
pub proof fn lemma_mailbox_keeps_streams<F>(keys: Set<usize>, event: Option<ActorEvent<F>>)
    ensures
        event matches Some(ActorEvent::RemoveStream(id)) ==> mailbox_outcome(keys, event).0
            =~= keys.remove(id),
        !(event matches Some(ActorEvent::RemoveStream(_))) ==> mailbox_outcome(keys, event).0
            =~= keys,
        event matches Some(ActorEvent::Exec(f)) ==> mailbox_outcome(keys, event).1
            == MailboxStep::Handle(f),
        forall|k: usize|
            keys.contains(k) && !(event matches Some(ActorEvent::RemoveStream(id)) && id == k)
                ==> #[trigger] mailbox_outcome(keys, event).0.contains(k),
        forall|k: usize| #[trigger]
            mailbox_outcome(keys, event).0.contains(k) ==> keys.contains(k),
{
}

/// The same holds for a supervised actor: handling a message, and even a
/// restart, leaves every stream running; only `RemoveStream(id)` forgets a
/// stream, and only stream `id`.
pub proof fn lemma_supervisor_keeps_streams<F>(keys: Set<usize>, event: Option<ActorEvent<F>>)
    ensures
        event matches Some(ActorEvent::RemoveStream(id)) ==> supervisor_outcome(keys, event).0
            =~= keys.remove(id),
        !(event matches Some(ActorEvent::RemoveStream(_))) ==> supervisor_outcome(keys, event).0
            =~= keys,
        event matches Some(ActorEvent::Exec(f)) ==> supervisor_outcome(keys, event).1
            == SupervisorStep::Handle(f),
        forall|k: usize|
            keys.contains(k) && !(event matches Some(ActorEvent::RemoveStream(id)) && id == k)
                ==> #[trigger] supervisor_outcome(keys, event).0.contains(k),
        forall|k: usize| #[trigger]
            supervisor_outcome(keys, event).0.contains(k) ==> keys.contains(k),
{
}

} // verus!
