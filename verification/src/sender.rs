use crate::ids::ActorId;
use crate::message::Message;
use std::sync::Arc;
use vstd::prelude::*;
use vstd::std_specs::cmp::PartialEqSpec;

verus! {

/// Delivers messages of type `T` to one actor's mailbox.
///
/// It is implemented for every thread-safe closure `Fn(T) -> Result<(), anyhow::Error>`;
/// the closure decides what delivery means.
pub trait SenderFn<T: Message>: 'static + Send + Sync {
    /// Whether `send` may be called with `msg`.
    spec fn accepts(&self, msg: T) -> bool;

    /// Whether `r` is a possible outcome of handing `msg` over.
    spec fn delivered(&self, msg: T, r: Result<(), anyhow::Error>) -> bool;

    /// Hands `msg` over to the recipient.
    fn send(&self, msg: T) -> (r: Result<(), anyhow::Error>)
        requires
            self.accepts(msg),
        ensures
            self.delivered(msg, r),
    ;
}

impl<F, T> SenderFn<T> for F where
    F: Fn(T) -> Result<(), anyhow::Error> + 'static + Send + Sync,
    T: Message,
 {
    open spec fn accepts(&self, msg: T) -> bool {
        call_requires(*self, (msg,))
    }

    open spec fn delivered(&self, msg: T, r: Result<(), anyhow::Error>) -> bool {
        call_ensures(*self, (msg,), r)
    }

    fn send(&self, msg: T) -> (r: Result<(), anyhow::Error>) {
        self(msg)
    }
}

/// Sender of a specific message type.
///
/// Like `Caller<T>`, Sender has a weak reference to the recipient of the
/// message type, and so will not prevent an actor from stopping if all
/// `Addr`s have been dropped elsewhere. Two senders are equal when they
/// deliver to the same actor.
#[verifier::reject_recursive_types(T)]
pub struct Sender<T: Message> {
    pub actor_id: ActorId,
    sender_fn: Arc<Box<dyn SenderFn<T>>>,
}

impl<T: Message> Sender<T> {
    /// The actor this sender delivers to.
    pub closed spec fn target(&self) -> ActorId {
        self.actor_id
    }

    /// Whether `send` may be called with `msg`: the delivering function accepts it.
    pub closed spec fn accepts(&self, msg: T) -> bool {
        self.sender_fn.accepts(msg)
    }

    /// Whether `r` is a possible outcome of the delivering function on `msg`.
    pub closed spec fn delivered(&self, msg: T, r: Result<(), anyhow::Error>) -> bool {
        self.sender_fn.delivered(msg, r)
    }

    /// Whether this sender accepts every message.
    pub open spec fn accepts_all(&self) -> bool {
        forall|msg: T| #[trigger] self.accepts(msg)
    }

    /// A sender that delivers to actor `actor_id` through `sender_fn`.
    pub fn new(actor_id: ActorId, sender_fn: Box<dyn SenderFn<T>>) -> (s: Self)
        ensures
            s.target() == actor_id,
            forall|msg: T| s.accepts(msg) == sender_fn.accepts(msg),
            forall|msg: T, r: Result<(), anyhow::Error>|
                s.delivered(msg, r) == sender_fn.delivered(msg, r),
    {
        Sender { actor_id, sender_fn: Arc::new(sender_fn) }
    }

    /// The id of the actor this sender delivers to.
    pub fn actor_id(&self) -> (id: ActorId)
        ensures
            id == self.target(),
    {
        self.actor_id
    }

    /// Sends `msg` to the actor; the result is what the delivering function
    /// returned for exactly this message.
    pub fn send(&self, msg: T) -> (r: Result<(), anyhow::Error>)
        requires
            self.accepts(msg),
        ensures
            self.delivered(msg, r),
    {
        self.sender_fn.send(msg)
    }
}

impl<T: Message> Clone for Sender<T> {
    /// A sender that shares this one's delivering function.
    fn clone(&self) -> (s: Self)
        ensures
            s == *self,
    {
        Sender { actor_id: self.actor_id, sender_fn: self.sender_fn.clone() }
    }
}

impl<T: Message> PartialEq for Sender<T> {
    fn eq(&self, other: &Self) -> (r: bool) {
        self.actor_id == other.actor_id
    }
}

impl<T: Message> vstd::std_specs::cmp::PartialEqSpecImpl for Sender<T> {
    open spec fn obeys_eq_spec() -> bool {
        true
    }

    open spec fn eq_spec(&self, other: &Self) -> bool {
        self.target() == other.target()
    }
}

impl<T: Message> core::hash::Hash for Sender<T> {
    /// Hashes the id of the actor this sender delivers to.
    fn hash<H: core::hash::Hasher>(&self, state: &mut H) {
        hash_actor_id(self.actor_id, state)
    }
}

/// Feeds `id` to `state` through `<u64 as Hash>::hash`; nothing is claimed
/// of the hasher's state afterwards.
#[verifier::external_body]
fn hash_actor_id<H: core::hash::Hasher>(id: ActorId, state: &mut H) {
    core::hash::Hash::hash(&id, state)
}

/// Sender equality is an equivalence relation, and two senders are equal
/// exactly when they deliver to the same actor.
pub proof fn lemma_sender_eq_by_target<T: Message>(a: Sender<T>, b: Sender<T>, c: Sender<T>)
    ensures
        a.eq_spec(&a),
        a.eq_spec(&b) == b.eq_spec(&a),
        a.eq_spec(&b) && b.eq_spec(&c) ==> a.eq_spec(&c),
        a.eq_spec(&b) <==> a.target() == b.target(),
{
}

} // verus!
