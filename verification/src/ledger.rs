//! Per-resolver tallies of timed-out queries.

use vstd::prelude::*;

verus! {

/// One timeout counter for each resolver of the pool, by pool position.
pub struct TimeoutLedger {
    counts: Vec<u32>,
}

impl View for TimeoutLedger {
    type V = Seq<u32>;

    closed spec fn view(&self) -> Seq<u32> {
        self.counts@
    }
}

impl TimeoutLedger {
    /// A ledger for `pool_size` resolvers, every counter at zero.
    pub fn new(pool_size: usize) -> (ledger: TimeoutLedger)
        ensures
            ledger@ == Seq::new(pool_size as nat, |i: int| 0u32),
    {
        let mut counts: Vec<u32> = Vec::new();
        let mut i: usize = 0;
        while i < pool_size
            invariant
                i <= pool_size,
                counts@ == Seq::new(i as nat, |j: int| 0u32),
            decreases pool_size - i,
        {
            counts.push(0u32);
            i += 1;
            assert(counts@ =~= Seq::new(i as nat, |j: int| 0u32));
        }
        TimeoutLedger { counts }
    }

    /// Counts one more timeout against a resolver and returns its new tally.
    pub fn record(&mut self, resolver: usize) -> (tally: u32)
        requires
            resolver < old(self)@.len(),
            old(self)@[resolver as int] < u32::MAX,
        ensures
            tally == old(self)@[resolver as int] + 1,
            final(self)@ == old(self)@.update(resolver as int, tally),
    {
        let tally: u32 = self.counts[resolver] + 1;
        self.counts.set(resolver, tally);
        tally
    }

    /// The timeouts counted against a resolver.
    pub fn count(&self, resolver: usize) -> (tally: u32)
        requires
            resolver < self@.len(),
        ensures
            tally == self@[resolver as int],
    {
        self.counts[resolver]
    }

    /// The number of resolvers the ledger covers.
    pub fn len(&self) -> (n: usize)
        ensures
            n == self@.len(),
    {
        self.counts.len()
    }

    /// Every counter, by pool position.
    pub fn tallies(&self) -> (all: Vec<u32>)
        ensures
            all@ == self@,
    {
        self.counts.clone()
    }
}

} // verus!
