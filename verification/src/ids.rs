use vstd::prelude::*;

verus! {

/// The identifier of an actor.
pub type ActorId = u64;

/// Hands out actor identifiers in increasing order, starting at 0.
///
/// Each context takes the next identifier when it is created; the counter
/// wraps around after `u64::MAX`, as an atomic `fetch_add` does.
pub struct ActorIdAllocator {
    next: u64,
}

/// The identifier handed out `k` allocations after one that handed out
/// `start`: the counter counts modulo 2^64.
pub open spec fn id_after(start: u64, k: nat) -> u64 {
    ((start + k) % 0x1_0000_0000_0000_0000) as u64
}

impl ActorIdAllocator {
    /// The identifier that the next allocation hands out.
    pub closed spec fn next_id(&self) -> u64 {
        self.next
    }

    /// An allocator whose first identifier is 0.
    pub fn new() -> (a: Self)
        ensures
            a.next_id() == 0,
    {
        ActorIdAllocator { next: 0 }
    }

    /// Takes the next identifier and advances the counter by one (wrapping).
    pub fn allocate(&mut self) -> (id: ActorId)
        ensures
            id == old(self).next_id(),
            final(self).next_id() == id_after(old(self).next_id(), 1),
    {
        let id = self.next;
        self.next = self.next.wrapping_add(1);
        id
    }

    /// The identifier that the next allocation will hand out.
    pub fn peek(&self) -> (id: ActorId)
        ensures
            id == self.next_id(),
    {
        self.next
    }
}

/// Advancing the counter `k` times and then once more is advancing it
/// `k + 1` times: the identifiers handed out by consecutive allocations are
/// `id_after(start, 0)`, `id_after(start, 1)`, and so on.
pub proof fn lemma_id_after_step(start: u64, k: nat)
    ensures
        id_after(id_after(start, k), 1) == id_after(start, k + 1),
{
    let m: int = 0x1_0000_0000_0000_0000;
    let a: int = start + k;
    assert(((a % m) + 1) % m == (a + 1) % m) by {
        vstd::arithmetic::div_mod::lemma_add_mod_noop(a, 1, m);
        vstd::arithmetic::div_mod::lemma_small_mod(1, m as nat);
        vstd::arithmetic::div_mod::lemma_mod_bound(a, m);
    }
}

/// Identifiers are never reused within 2^64 consecutive allocations: the
/// `i`-th and the `j`-th allocation from the same start hand out different
/// identifiers.
pub proof fn lemma_ids_unique(start: u64, i: nat, j: nat)
    requires
        i < j,
        j < 0x1_0000_0000_0000_0000,
    ensures
        id_after(start, i) != id_after(start, j),
{
    let m: int = 0x1_0000_0000_0000_0000;
    let a: int = start + i;
    let b: int = start + j;
    if (a % m) == (b % m) {
        vstd::arithmetic::div_mod::lemma_mod_equivalence(b, a, m);
        assert((b - a) % m == 0);
        assert(b - a == j - i);
        vstd::arithmetic::div_mod::lemma_small_mod((j - i) as nat, m as nat);
    }
}

} // verus!
