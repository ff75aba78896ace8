//! Entities that live for a fixed span of time.
use vstd::prelude::*;

verus! {

/// When an entity was made and how long it lives, in nanoseconds of game time.
#[derive(Clone, Copy, Debug, PartialEq, Eq, Structural)]
pub struct Lifetime {
    pub creation: u64,
    pub lifespan: u64,
}

/// The entity has outlived its span at time `now`.
pub open spec fn expired(l: Lifetime, now: int) -> bool {
    now - l.creation > l.lifespan
}

/// The indices, in increasing order, of the first `k` entities that have expired at `now`.
pub open spec fn expired_indices(ls: Seq<Lifetime>, now: int, k: int) -> Seq<usize>
    decreases k,
{
    if k <= 0 {
        Seq::empty()
    } else if expired(ls[k - 1], now) {
        expired_indices(ls, now, k - 1).push((k - 1) as usize)
    } else {
        expired_indices(ls, now, k - 1)
    }
}

impl Lifetime {
    /// Whether the entity has outlived its span at time `now`, which is not before its
    /// creation.
    pub fn is_expired(&self, now: u64) -> (r: bool)
        requires
            self.creation <= now,
        ensures
            r == expired(*self, now as int),
    {
        now - self.creation > self.lifespan
    }
}

/// The indices of the entities to remove at time `now`: those that have outlived their
/// span, in order. No entity was made after `now`.
pub fn remove_dead(lifetimes: &Vec<Lifetime>, now: u64) -> (dead: Vec<usize>)
    requires
        forall|i: int| 0 <= i < lifetimes@.len() ==> (#[trigger] lifetimes@[i]).creation <= now,
    ensures
        dead@ == expired_indices(lifetimes@, now as int, lifetimes@.len() as int),
{
    let mut dead: Vec<usize> = Vec::new();
    let mut i: usize = 0;
    while i < lifetimes.len()
        invariant
            i <= lifetimes@.len(),
            forall|j: int| 0 <= j < lifetimes@.len() ==> (#[trigger] lifetimes@[j]).creation <= now,
            dead@ == expired_indices(lifetimes@, now as int, i as int),
        decreases lifetimes@.len() - i,
    {
        if lifetimes[i].is_expired(now) {
            dead.push(i);
        }
        i = i + 1;
    }
    dead
}

/// The indices of the entities to remove when a game ends: all of them, in order.
pub fn remove_remaining(lifetimes: &Vec<Lifetime>) -> (all: Vec<usize>)
    ensures
        all@.len() == lifetimes@.len(),
        forall|k: int| 0 <= k < all@.len() ==> all@[k] == k,
{
    let mut all: Vec<usize> = Vec::new();
    let mut i: usize = 0;
    while i < lifetimes.len()
        invariant
            i <= lifetimes@.len(),
            all@.len() == i,
            forall|k: int| 0 <= k < i ==> all@[k] == k,
        decreases lifetimes@.len() - i,
    {
        all.push(i);
        i = i + 1;
    }
    all
}

} // verus!
