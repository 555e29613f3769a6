use vstd::prelude::*;

verus! {

/// The number of actors that are running, as the system counts them: each
/// start adds one, each exit takes one away (both wrap around, as the
/// atomic operations they stand for do).
pub struct ActorCount {
    count: usize,
}

impl View for ActorCount {
    type V = nat;

    closed spec fn view(&self) -> nat {
        self.count as nat
    }
}

/// The count after one more actor started.
pub open spec fn count_after_start(n: nat) -> nat {
    if n == usize::MAX {
        0
    } else {
        n + 1
    }
}

/// The count after one actor exited.
pub open spec fn count_after_exit(n: nat) -> nat {
    if n == 0 {
        usize::MAX as nat
    } else {
        (n - 1) as nat
    }
}

impl ActorCount {
    /// No actor is running.
    pub fn new() -> (c: Self)
        ensures
            c@ == 0,
    {
        ActorCount { count: 0 }
    }

    /// The number of running actors.
    pub fn get(&self) -> (n: usize)
        ensures
            n == self@,
    {
        self.count
    }

    /// An actor has started.
    pub fn inc(&mut self)
        ensures
            final(self)@ == count_after_start(old(self)@),
            old(self)@ < usize::MAX ==> final(self)@ == old(self)@ + 1,
            old(self)@ == usize::MAX ==> final(self)@ == 0,
    {
        self.count = self.count.wrapping_add(1);
    }

    /// An actor has exited.
    pub fn dec(&mut self)
        ensures
            final(self)@ == count_after_exit(old(self)@),
            old(self)@ > 0 ==> final(self)@ == old(self)@ - 1,
            old(self)@ == 0 ==> final(self)@ == usize::MAX,
    {
        self.count = self.count.wrapping_sub(1);
    }

    /// Whether waiting for all actors is over: `wait_all` completes once
    /// the count is zero, and keeps waiting while it is positive.
    pub fn all_exited(&self) -> (r: bool)
        ensures
            r == (self@ == 0),
    {
        !(self.count > 0)
    }
}

/// An actor that starts and exits leaves the count as it was.
pub proof fn lemma_start_then_exit(n: nat)
    requires
        n <= usize::MAX,
    ensures
        count_after_exit(count_after_start(n)) == n,
        count_after_start(count_after_exit(n)) == n,
{
}

/// The count after `k` more actors started, from `n`.
pub open spec fn count_after_starts(n: nat, k: nat) -> nat
    decreases k,
{
    if k == 0 {
        n
    } else {
        count_after_start(count_after_starts(n, (k - 1) as nat))
    }
}

/// A start adds exactly one and an exit takes exactly one away, away from
/// the wrap point; in particular a start from a count below the maximum
/// never yields zero, so waiting for all actors does not end while one runs.
pub proof fn lemma_start_adds_one(n: nat)
    requires
        n <= usize::MAX,
    ensures
        n < usize::MAX ==> count_after_start(n) == n + 1,
        n > 0 ==> count_after_exit(n) == n - 1,
        count_after_start(n) == 0 <==> n == usize::MAX,
        count_after_start(n) <= usize::MAX,
{
}

/// Starting `k` actors from none, with `k` not past the maximum, gives a
/// count of exactly `k`: the count is zero only when no actor has started.
pub proof fn lemma_starts_from_zero(k: nat)
    requires
        k <= usize::MAX,
    ensures
        count_after_starts(0, k) == k,
        (count_after_starts(0, k) == 0) <==> k == 0,
    decreases k,
{
    if k > 0 {
        lemma_starts_from_zero((k - 1) as nat);
        lemma_start_adds_one((k - 1) as nat);
    }
}

} // verus!
