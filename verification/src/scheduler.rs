//! The throttle that bounds how many lookups are in flight at once.

use vstd::prelude::*;

verus! {

/// Lets lookups through up to a budget, then stays shut until the whole batch has
/// completed.
#[derive(Clone, Copy, Debug)]
pub struct Throttle {
    budget: usize,
    in_flight: usize,
}

/// The mathematical model of a [`Throttle`].
pub struct ThrottleView {
    /// The configured budget.
    pub budget: nat,
    /// The lookups let in since the last release.
    pub in_flight: nat,
}

/// What can happen at a throttle.
pub enum ThrottleEvent {
    /// A lookup asks to be dispatched.
    Enter,
    /// The batch in flight has completed.
    Release,
}

impl ThrottleView {
    /// The most lookups the throttle lets through before it shuts: the budget,
    /// and one where the budget is zero, since a lookup is dispatched before
    /// the throttle is consulted.
    pub open spec fn limit(self) -> nat {
        if self.budget == 0 {
            1
        } else {
            self.budget
        }
    }

    /// The throttle never holds more than its limit.
    pub open spec fn wf(self) -> bool {
        self.in_flight <= self.limit()
    }

    /// The throttle is shut: the batch must complete before more is let in.
    pub open spec fn full(self) -> bool {
        self.in_flight >= self.limit()
    }

    /// The throttle after one event. A shut throttle lets nothing in.
    pub open spec fn after(self, event: ThrottleEvent) -> ThrottleView {
        match event {
            ThrottleEvent::Enter => if self.full() {
                self
            } else {
                ThrottleView { in_flight: self.in_flight + 1, ..self }
            },
            ThrottleEvent::Release => ThrottleView { in_flight: 0, ..self },
        }
    }

    /// The throttle after a series of events, taken in order.
    pub open spec fn after_all(self, events: Seq<ThrottleEvent>) -> ThrottleView
        decreases events.len(),
    {
        if events.len() == 0 {
            self
        } else {
            self.after_all(events.drop_last()).after(events.last())
        }
    }
}

impl View for Throttle {
    type V = ThrottleView;

    closed spec fn view(&self) -> ThrottleView {
        ThrottleView { budget: self.budget as nat, in_flight: self.in_flight as nat }
    }
}

impl Throttle {
    /// An open throttle with nothing in flight.
    pub fn new(budget: usize) -> (throttle: Throttle)
        ensures
            throttle@ == (ThrottleView { budget: budget as nat, in_flight: 0 }),
            throttle@.wf(),
    {
        Throttle { budget, in_flight: 0 }
    }

    /// Asks to dispatch one more lookup. The answer is `true`, and the lookup
    /// counts as in flight, unless the throttle is shut.
    pub fn try_enter(&mut self) -> (entered: bool)
        requires
            old(self)@.wf(),
        ensures
            entered == !old(self)@.full(),
            final(self)@ == old(self)@.after(ThrottleEvent::Enter),
            final(self)@.wf(),
    {
        if self.is_full() {
            false
        } else {
            self.in_flight = self.in_flight + 1;
            true
        }
    }

    /// Opens the throttle again once the batch in flight has completed.
    pub fn release(&mut self)
        ensures
            final(self)@ == old(self)@.after(ThrottleEvent::Release),
            final(self)@.wf(),
    {
        self.in_flight = 0;
    }

    /// True when the batch in flight must complete before more is let in.
    pub fn is_full(&self) -> (b: bool)
        ensures
            b == self@.full(),
    {
        if self.budget == 0 {
            self.in_flight >= 1
        } else {
            self.in_flight >= self.budget
        }
    }

    /// The lookups let in since the last release.
    pub fn in_flight(&self) -> (n: usize)
        ensures
            n == self@.in_flight,
    {
        self.in_flight
    }

    /// The configured budget.
    pub fn budget(&self) -> (n: usize)
        ensures
            n == self@.budget,
    {
        self.budget
    }
}

/// Whatever is asked of a throttle, and in whatever order, it
/// never holds more lookups than its limit, which is the budget wherever the
/// budget is positive.
pub proof fn lemma_throttle_bound(budget: nat, events: Seq<ThrottleEvent>)
    ensures
        (ThrottleView { budget, in_flight: 0 }).after_all(events).wf(),
        (ThrottleView { budget, in_flight: 0 }).after_all(events).budget == budget,
        budget > 0 ==> (ThrottleView { budget, in_flight: 0 }).after_all(events).in_flight <= budget,
    decreases events.len(),
{
    if events.len() > 0 {
        lemma_throttle_bound(budget, events.drop_last());
    }
}

} // verus!
