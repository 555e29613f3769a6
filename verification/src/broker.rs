use crate::ids::ActorId;
use crate::message::Message;
use crate::sender::Sender;
use fnv::FnvHasher;
use std::collections::HashMap;
use std::hash::BuildHasherDefault;
use vstd::prelude::*;

verus! {

/// The FNV hasher that keys the subscriber table.
#[verifier::external_type_specification]
#[verifier::external_body]
pub struct ExFnvHasher(fnv::FnvHasher);

/// The builder of default-constructed hashers.
#[verifier::external_type_specification]
#[verifier::external_body]
#[verifier::reject_recursive_types(H)]
pub struct ExBuildHasherDefault<H>(std::hash::BuildHasherDefault<H>);

/// `HashMap::insert`, on a map keyed by actor id with the FNV hasher.
#[verifier::external_body]
fn table_insert<V>(m: &mut HashMap<ActorId, V, BuildHasherDefault<FnvHasher>>, k: ActorId, v: V) -> (r:
    Option<V>)
    ensures
        final(m)@ == old(m)@.insert(k, v),
        r matches Some(prev) ==> old(m)@.contains_key(k) && prev == old(m)@[k],
        r is None ==> !old(m)@.contains_key(k),
{
    m.insert(k, v)
}

/// `HashMap::remove`, on a map keyed by actor id with the FNV hasher.
#[verifier::external_body]
fn table_remove<V>(m: &mut HashMap<ActorId, V, BuildHasherDefault<FnvHasher>>, k: ActorId) -> (r:
    Option<V>)
    ensures
        final(m)@ == old(m)@.remove(k),
        r matches Some(prev) ==> old(m)@.contains_key(k) && prev == old(m)@[k],
        r is None ==> !old(m)@.contains_key(k),
{
    m.remove(&k)
}

/// `HashMap::get`, on a map keyed by actor id with the FNV hasher.
#[verifier::external_body]
fn table_get<V>(m: &HashMap<ActorId, V, BuildHasherDefault<FnvHasher>>, k: ActorId) -> (r: Option<&V>)
    ensures
        r matches Some(v) ==> m@.contains_key(k) && *v == m@[k],
        r is None ==> !m@.contains_key(k),
{
    m.get(&k)
}

/// `HashMap::keys`, collected: every key once, in the map's own order,
/// which is left unsaid.
#[verifier::external_body]
fn table_keys<V>(m: &HashMap<ActorId, V, BuildHasherDefault<FnvHasher>>) -> (ks: Vec<ActorId>)
    ensures
        ks@.to_set() == m@.dom(),
        ks@.no_duplicates(),
{
    m.keys().copied().collect()
}

/// Asks a broker to deliver its messages to the actor `actor_id` through `sender`.
#[verifier::reject_recursive_types(T)]
pub struct Subscribe<T: Message<Result = ()>> {
    pub actor_id: ActorId,
    pub sender: Sender<T>,
}

impl<T: Message<Result = ()>> Message for Subscribe<T> {
    type Result = ();
}

/// Asks a broker to stop delivering its messages to the actor `actor_id`.
pub struct Unsubscribe {
    pub actor_id: ActorId,
}

impl Message for Unsubscribe {
    type Result = ();
}

/// Message broker is used to support publishing and subscribing to messages.
///
/// It keeps one sender per subscribed actor; a published message goes to
/// every subscriber, and a subscriber whose mailbox refuses it is dropped.
#[verifier::reject_recursive_types(T)]
pub struct Broker<T: Message<Result = ()>> {
    subscribers: HashMap<ActorId, Sender<T>, BuildHasherDefault<FnvHasher>>,
}

impl<T: Message<Result = ()>> View for Broker<T> {
    type V = Map<ActorId, Sender<T>>;

    /// The subscribers, by actor id.
    closed spec fn view(&self) -> Map<ActorId, Sender<T>> {
        self.subscribers@
    }
}

impl<T: Message<Result = ()>> Broker<T> {
    /// Every subscriber's sender takes any message.
    pub open spec fn wf(&self) -> bool {
        forall|id: ActorId| #[trigger] self@.contains_key(id) ==> self@[id].accepts_all()
    }

    /// A broker without subscribers.
    pub fn new() -> (b: Self)
        ensures
            b@ == Map::<ActorId, Sender<T>>::empty(),
            b.wf(),
    {
        Broker { subscribers: HashMap::default() }
    }

    /// The number of subscribers.
    pub fn subscriber_count(&self) -> (n: usize)
        ensures
            n == self@.len(),
    {
        let ks = table_keys(&self.subscribers);
        proof {
            ks@.unique_seq_to_set();
        }
        ks.len()
    }

    /// Whether the actor `actor_id` is subscribed.
    pub fn is_subscribed(&self, actor_id: ActorId) -> (r: bool)
        ensures
            r == self@.contains_key(actor_id),
    {
        table_get(&self.subscribers, actor_id).is_some()
    }

    /// Handles `Subscribe`: from now on the actor gets the published
    /// messages through the given sender, which replaces any earlier one.
    pub fn subscribe(&mut self, msg: Subscribe<T>)
        requires
            old(self).wf(),
            msg.sender.accepts_all(),
        ensures
            final(self)@ == old(self)@.insert(msg.actor_id, msg.sender),
            final(self).wf(),
    {
        let ghost before = self@;
        let _ = table_insert(&mut self.subscribers, msg.actor_id, msg.sender);
        proof {
            assert forall|id: ActorId| #[trigger] self@.contains_key(id) implies self@[id].accepts_all() by {
                if id != msg.actor_id {
                    assert(before.contains_key(id));
                }
            }
        }
    }

    /// Handles `Unsubscribe`: the actor gets no more published messages.
    pub fn unsubscribe(&mut self, msg: Unsubscribe)
        requires
            old(self).wf(),
        ensures
            final(self)@ == old(self)@.remove(msg.actor_id),
            final(self).wf(),
    {
        let ghost before = self@;
        let _ = table_remove(&mut self.subscribers, msg.actor_id);
        proof {
            assert forall|id: ActorId| #[trigger] self@.contains_key(id) implies self@[id].accepts_all() by {
                assert(before.contains_key(id));
            }
        }
    }

    /// Handles a published message: every subscriber is sent its own clone
    /// of `msg`; those whose delivery fails (most likely because the actor
    /// has stopped) are dropped, the others stay with their senders.
    pub fn publish_to_subscribers(&mut self, msg: T)
        where
            T: Clone,
        requires
            old(self).wf(),
        ensures
            final(self).wf(),
            final(self)@.dom().subset_of(old(self)@.dom()),
            forall|id: ActorId| #[trigger]
                final(self)@.contains_key(id) ==> final(self)@[id] == old(self)@[id],
            forall|id: ActorId| #[trigger]
                old(self)@.contains_key(id) && final(self)@.contains_key(id) ==> exists|c: T|
                    cloned(msg, c) && old(self)@[id].delivered(c, Ok(())),
            forall|id: ActorId| #[trigger]
                old(self)@.contains_key(id) && !final(self)@.contains_key(id) ==> exists|
                    c: T,
                    e: anyhow::Error,
                | cloned(msg, c) && old(self)@[id].delivered(c, Err(e)),
    {
        let ids = table_keys(&self.subscribers);
        let ghost before = self@;
        let mut i: usize = 0;
        while i < ids.len()
            invariant
                0 <= i <= ids.len(),
                ids@.to_set() == before.dom(),
                ids@.no_duplicates(),
                forall|id: ActorId| #[trigger] before.contains_key(id) ==> before[id].accepts_all(),
                self@.dom().subset_of(before.dom()),
                forall|id: ActorId| #[trigger]
                    self@.contains_key(id) ==> self@[id] == before[id],
                forall|j: int| i <= j < ids.len() ==> self@.contains_key(#[trigger] ids@[j]),
                forall|id: ActorId|
                    #[trigger] before.contains_key(id) && !ids@.subrange(0, i as int).contains(id)
                        ==> self@.contains_key(id),
                forall|id: ActorId| #[trigger]
                    ids@.subrange(0, i as int).contains(id) && self@.contains_key(id) ==> exists|
                        c: T,
                    | cloned(msg, c) && before[id].delivered(c, Ok(())),
                forall|id: ActorId| #[trigger]
                    ids@.subrange(0, i as int).contains(id) && !self@.contains_key(id) ==> exists|
                        c: T,
                        e: anyhow::Error,
                    | cloned(msg, c) && before[id].delivered(c, Err(e)),
            decreases ids.len() - i,
        {
            let id = ids[i];
            assert(ids@.contains(id));
            assert(self@.contains_key(id));
            let sender = table_get(&self.subscribers, id).unwrap();
            let copy = msg.clone();
            let ghost c = copy;
            assert(before[id].accepts(copy));
            let r = sender.send(copy);
            let delivered = r.is_ok();
            let ghost outcome = r;
            if !delivered {
                let _ = table_remove(&mut self.subscribers, id);
            }
            proof {
                match outcome {
                    Ok(u) => {
                        assert(u == ());
                        assert(cloned(msg, c) && before[id].delivered(c, Ok(())));
                    },
                    Err(e) => {
                        assert(cloned(msg, c) && before[id].delivered(c, Err(e)));
                    },
                }
                assert forall|k: ActorId|
                    #[trigger] ids@.subrange(0, i + 1).contains(k) && k != id implies ids@.subrange(
                    0,
                    i as int,
                ).contains(k) by {
                    let w = choose|w: int| 0 <= w < i + 1 && #[trigger] ids@.subrange(0, i + 1)[w] == k;
                    assert(ids@.subrange(0, i as int)[w] == k);
                }
                assert(ids@.subrange(0, i + 1).contains(id)) by {
                    assert(ids@.subrange(0, i + 1)[i as int] == id);
                }
            }
            proof {
                assert forall|k: ActorId|
                    #[trigger] before.contains_key(k) && !ids@.subrange(0, i + 1).contains(k)
                        implies self@.contains_key(k) by {
                    if k != id {
                        assert(!ids@.subrange(0, i as int).contains(k)) by {
                            if ids@.subrange(0, i as int).contains(k) {
                                let w = choose|w: int|
                                    0 <= w < i && ids@.subrange(0, i as int)[w] == k;
                                assert(ids@.subrange(0, i + 1)[w] == k);
                            }
                        }
                    } else {
                        assert(ids@.subrange(0, i + 1)[i as int] == id);
                    }
                }
                assert forall|j: int| i + 1 <= j < ids.len() implies self@.contains_key(
                    #[trigger] ids@[j],
                ) by {
                    assert(ids@[j] != id);
                }
            }
            i = i + 1;
        }
        proof {
            assert(ids@.subrange(0, ids.len() as int) =~= ids@);
            assert forall|id: ActorId| #[trigger] before.contains_key(id) implies ids@.contains(
                id,
            ) by {
                assert(ids@.to_set().contains(id));
            }
        }
    }
}

impl<T: Message<Result = ()>> Default for Broker<T> {
    /// A broker without subscribers.
    fn default() -> (b: Self)
        ensures
            b@ == Map::<ActorId, Sender<T>>::empty(),
            b.wf(),
    {
        Broker::new()
    }
}

/// Unsubscribing undoes subscribing: an actor that subscribes and then
/// unsubscribes leaves the broker's subscribers as they were before.
pub proof fn lemma_unsubscribe_undoes_subscribe<T: Message<Result = ()>>(
    subscribers: Map<ActorId, Sender<T>>,
    actor_id: ActorId,
    sender: Sender<T>,
)
    requires
        !subscribers.contains_key(actor_id),
    ensures
        subscribers.insert(actor_id, sender).remove(actor_id) == subscribers,
{
    assert(subscribers.insert(actor_id, sender).remove(actor_id) =~= subscribers);
}

/// An actor is subscribed at most once: subscribing again replaces the
/// earlier sender, and the other subscribers are untouched.
pub proof fn lemma_subscribe_again_replaces<T: Message<Result = ()>>(
    subscribers: Map<ActorId, Sender<T>>,
    actor_id: ActorId,
    first: Sender<T>,
    second: Sender<T>,
)
    ensures
        subscribers.insert(actor_id, first).insert(actor_id, second) == subscribers.insert(
            actor_id,
            second,
        ),
        subscribers.insert(actor_id, second).dom() == subscribers.dom().insert(actor_id),
{
    assert(subscribers.insert(actor_id, first).insert(actor_id, second) =~= subscribers.insert(
        actor_id,
        second,
    ));
    assert(subscribers.insert(actor_id, second).dom() =~= subscribers.dom().insert(actor_id));
}

} // verus!
