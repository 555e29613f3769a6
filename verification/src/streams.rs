use futures::future::{AbortHandle, AbortRegistration};
use slab::Slab;
use vstd::prelude::*;

verus! {

/// A handle that aborts one forwarded stream.
#[verifier::external_type_specification]
#[verifier::external_body]
pub struct ExAbortHandle(futures::future::AbortHandle);

/// The registration that makes one forwarded stream abortable.
#[verifier::external_type_specification]
#[verifier::external_body]
pub struct ExAbortRegistration(futures::future::AbortRegistration);

/// The slab that keys the streams of an actor.
#[verifier::external_type_specification]
#[verifier::external_body]
#[verifier::reject_recursive_types(T)]
pub struct ExSlab<T>(slab::Slab<T>);

/// The keys that a slab of abort handles holds a value for.
pub uninterp spec fn slab_keys(s: Slab<AbortHandle>) -> Set<usize>;

/// The most streams one actor can hold: a slab entry takes at most 32 bytes
/// and the slab's vector must be able to double its allocation.
pub open spec fn stream_capacity() -> nat {
    (isize::MAX as nat) / 64
}

/// `Slab::new`: an empty slab.
#[verifier::external_body]
fn slab_new() -> (s: Slab<AbortHandle>)
    ensures
        slab_keys(s) == Set::<usize>::empty(),
{
    Slab::new()
}

/// `Slab::len`: the number of stored values.
#[verifier::external_body]
fn slab_len(s: &Slab<AbortHandle>) -> (n: usize)
    ensures
        n == slab_keys(*s).len(),
{
    s.len()
}

/// `Slab::insert`: stores `handle` under the slab's vacant key, a key that
/// held no value before, and returns that key.
#[verifier::external_body]
fn slab_insert(s: &mut Slab<AbortHandle>, handle: AbortHandle) -> (key: usize)
    requires
        slab_keys(*old(s)).len() < stream_capacity(),
    ensures
        !slab_keys(*old(s)).contains(key),
        slab_keys(*final(s)) == slab_keys(*old(s)).insert(key),
{
    s.insert(handle)
}

/// `Slab::contains`: whether a value is stored under `key`.
#[verifier::external_body]
fn slab_contains(s: &Slab<AbortHandle>, key: usize) -> (r: bool)
    ensures
        r == slab_keys(*s).contains(key),
{
    s.contains(key)
}

/// `Slab::remove`: takes the value stored under `key` out (it panics on a
/// vacant key, so `key` must hold a value).
#[verifier::external_body]
fn slab_remove(s: &mut Slab<AbortHandle>, key: usize) -> (handle: AbortHandle)
    requires
        slab_keys(*old(s)).contains(key),
    ensures
        slab_keys(*final(s)) == slab_keys(*old(s)).remove(key),
{
    s.remove(key)
}

/// `Slab::drain`: empties the slab and hands out every stored value.
#[verifier::external_body]
fn slab_drain(s: &mut Slab<AbortHandle>) -> (handles: Vec<AbortHandle>)
    ensures
        slab_keys(*final(s)) == Set::<usize>::empty(),
        handles.len() == slab_keys(*old(s)).len(),
{
    s.drain().collect()
}

/// `AbortHandle::new_pair`: a handle and the registration it aborts.
#[verifier::external_body]
fn new_abort_pair() -> (AbortHandle, AbortRegistration) {
    AbortHandle::new_pair()
}

/// `AbortHandle::abort`: aborts the stream that the handle belongs to.
#[verifier::external_body]
fn abort_handle(handle: &AbortHandle) {
    handle.abort()
}

/// The streams that an actor forwards into its mailbox, each kept under a
/// key that the stream's `RemoveStream` event names when it has finished.
pub struct StreamSlots {
    slots: Slab<AbortHandle>,
}

impl View for StreamSlots {
    type V = Set<usize>;

    /// The keys of the streams that are registered.
    closed spec fn view(&self) -> Set<usize> {
        slab_keys(self.slots)
    }
}

impl StreamSlots {
    /// An empty table.
    pub fn new() -> (t: Self)
        ensures
            t@ == Set::<usize>::empty(),
    {
        StreamSlots { slots: slab_new() }
    }

    /// The number of registered streams.
    pub fn len(&self) -> (n: usize)
        ensures
            n == self@.len(),
    {
        slab_len(&self.slots)
    }

    /// Whether one more stream can be registered.
    pub fn has_room(&self) -> (r: bool)
        ensures
            r == (self@.len() < stream_capacity()),
    {
        let n = slab_len(&self.slots);
        (n as u64) < ((isize::MAX as u64) / 64)
    }

    /// Registers the abort handle of a new stream and returns the stream's
    /// key, one that no registered stream had.
    pub fn register(&mut self, handle: AbortHandle) -> (key: usize)
        requires
            old(self)@.len() < stream_capacity(),
        ensures
            !old(self)@.contains(key),
            final(self)@ == old(self)@.insert(key),
    {
        let key = slab_insert(&mut self.slots, handle);
        key
    }

    /// Opens a slot for a new stream: makes the abort handle that
    /// `abort_all` will use, registers it, and returns the stream's key, one
    /// that no registered stream had, with the registration that the
    /// stream's task must be wrapped in.
    pub fn open(&mut self) -> (r: (usize, AbortRegistration))
        requires
            old(self)@.len() < stream_capacity(),
        ensures
            !old(self)@.contains(r.0),
            final(self)@ == old(self)@.insert(r.0),
    {
        let (handle, registration) = new_abort_pair();
        let key = self.register(handle);
        (key, registration)
    }

    /// Whether a stream is registered under `key`.
    pub fn contains(&self, key: usize) -> (r: bool)
        ensures
            r == self@.contains(key),
    {
        slab_contains(&self.slots, key)
    }

    /// Forgets the stream registered under `key`, if there is one; the other
    /// streams stay registered.
    pub fn remove(&mut self, key: usize)
        ensures
            final(self)@ == old(self)@.remove(key),
    {
        if slab_contains(&self.slots, key) {
            let _handle = slab_remove(&mut self.slots, key);
        } else {
            assert(self@.remove(key) =~= self@);
        }
    }

    /// Aborts every registered stream and empties the table; returns how many
    /// abort calls were made, one per stream that was registered.
    pub fn abort_all(&mut self) -> (n: usize)
        ensures
            final(self)@ == Set::<usize>::empty(),
            n == old(self)@.len(),
    {
        let handles = slab_drain(&mut self.slots);
        let mut i: usize = 0;
        while i < handles.len()
            invariant
                i <= handles.len(),
            decreases handles.len() - i,
        {
            abort_handle(&handles[i]);
            i = i + 1;
        }
        i
    }
}

} // verus!
