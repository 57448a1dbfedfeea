//! Identifier generation for one package build.
//!
//! Every entity written into the relational snapshot of a package draws its
//! primary key from one shared [`IdGenerator`].  The generator is seeded with
//! a millisecond timestamp and hands out consecutive integers, so all
//! identifiers drawn during one build are unique and strictly increasing in
//! draw order.

use vstd::prelude::*;

verus! {

/// A strictly increasing source of unique integer identifiers, seeded from a
/// millisecond timestamp.
///
/// The ghost state records the seed and the full sequence of identifiers
/// drawn so far, so callers can reason about every value the generator has
/// handed out.
pub struct IdGenerator {
    next_id: u64,
    seed: Ghost<u64>,
    drawn: Ghost<Seq<u64>>,
}

impl IdGenerator {
    /// The seed this generator was constructed with.
    pub closed spec fn seed(&self) -> u64 {
        self.seed@
    }

    /// All identifiers drawn so far, in draw order.
    pub closed spec fn drawn(&self) -> Seq<u64> {
        self.drawn@
    }

    /// The identifier the next call to [`IdGenerator::next`] will return.
    pub closed spec fn next_value(&self) -> u64 {
        self.next_id
    }

    /// Internal consistency: the generator has handed out exactly the
    /// consecutive integers from the seed up to (but excluding) `next_value`.
    pub closed spec fn wf(&self) -> bool {
        &&& self.next_id == self.seed@ + self.drawn@.len()
        &&& forall|i: int| 0 <= i < self.drawn@.len() ==> self.drawn@[i] == self.seed@ + i
    }

    /// Create a generator whose first identifier will be `seed_millis`.
    pub fn new(seed_millis: u64) -> (g: IdGenerator)
        ensures
            g.wf(),
            g.seed() == seed_millis,
            g.next_value() == seed_millis,
            g.drawn() == Seq::<u64>::empty(),
    {
        IdGenerator {
            next_id: seed_millis,
            seed: Ghost(seed_millis),
            drawn: Ghost(Seq::empty()),
        }
    }

    /// Draw the next identifier: returns the current value and advances by
    /// one.  Exhausting the 64-bit space is treated as unreachable at
    /// realistic scales, so the caller must have bounded the number of draws.
    pub fn next(&mut self) -> (id: u64)
        requires
            old(self).wf(),
            old(self).next_value() < u64::MAX,
        ensures
            final(self).wf(),
            id == old(self).next_value(),
            final(self).seed() == old(self).seed(),
            final(self).drawn() == old(self).drawn().push(id),
            final(self).next_value() == old(self).next_value() + 1,
    {
        let id = self.next_id;
        self.next_id = self.next_id + 1;
        proof {
            self.drawn@ = self.drawn@.push(id);
        }
        id
    }

    /// Draw `n` consecutive identifiers at once, in draw order.
    pub fn draw_block(&mut self, n: usize) -> (ids: Vec<u64>)
        requires
            old(self).wf(),
            old(self).next_value() + n <= u64::MAX,
        ensures
            final(self).wf(),
            final(self).seed() == old(self).seed(),
            final(self).next_value() == old(self).next_value() + n,
            final(self).drawn() == old(self).drawn() + ids@,
            ids@.len() == n,
            forall|i: int| 0 <= i < n ==> ids@[i] == old(self).next_value() + i,
    {
        let mut ids: Vec<u64> = Vec::new();
        let mut k: usize = 0;
        proof {
            assert(old(self).drawn() + ids@ =~= old(self).drawn());
        }
        while k < n
            invariant
                k <= n,
                self.wf(),
                self.seed() == old(self).seed(),
                old(self).next_value() + n <= u64::MAX,
                self.next_value() == old(self).next_value() + k,
                self.drawn() == old(self).drawn() + ids@,
                ids@.len() == k,
                forall|i: int| 0 <= i < k ==> ids@[i] == old(self).next_value() + i,
            decreases n - k,
        {
            let id = self.next();
            ids.push(id);
            proof {
                assert(self.drawn() =~= old(self).drawn() + ids@);
            }
            k = k + 1;
        }
        ids
    }
}

/// Law: within one build, every identifier drawn from a generator is unique,
/// the sequence of drawn identifiers is strictly increasing in draw order,
/// and the first identifier drawn equals the seed.
pub proof fn lemma_drawn_ids_unique_and_increasing(g: &IdGenerator)
    requires
        g.wf(),
    ensures
        forall|i: int, j: int| 0 <= i < j < g.drawn().len() ==> g.drawn()[i] < g.drawn()[j],
        forall|i: int, j: int|
            0 <= i < g.drawn().len() && 0 <= j < g.drawn().len() && i != j
                ==> g.drawn()[i] != g.drawn()[j],
        g.drawn().len() > 0 ==> g.drawn()[0] == g.seed(),
{
}

} // verus!
