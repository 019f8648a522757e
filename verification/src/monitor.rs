//! Throughput sampling: how many lookups completed since the last sample.

use vstd::prelude::*;

verus! {

/// Remembers the processed count of the last sample.
#[derive(Clone, Copy, Debug)]
pub struct RateMonitor {
    last_count: usize,
}

impl View for RateMonitor {
    type V = nat;

    closed spec fn view(&self) -> nat {
        self.last_count as nat
    }
}

impl RateMonitor {
    /// A monitor that has seen nothing yet.
    pub fn new() -> (monitor: RateMonitor)
        ensures
            monitor@ == 0,
    {
        RateMonitor { last_count: 0 }
    }

    /// Takes one sample of the processed count: returns how far it moved
    /// since the previous sample and makes it the new baseline.
    pub fn sample(&mut self, current: usize) -> (rate: usize)
        requires
            current >= old(self)@,
        ensures
            rate == current - old(self)@,
            final(self)@ == current,
    {
        let rate: usize = current - self.last_count;
        self.last_count = current;
        rate
    }

    /// The processed count of the last sample.
    pub fn baseline(&self) -> (n: usize)
        ensures
            n == self@,
    {
        self.last_count
    }
}

} // verus!
