//! The run as a whole: which lookup is dispatched next, what each answer
//! changes in the shared state, and what is left to report at the end.

use vstd::prelude::*;
use crate::aggregator::{insert_spec, MatchSet};
use crate::ledger::TimeoutLedger;
use crate::lookup::{start_spec, step_spec, hit_spec, lemma_step_wf, Lookup, LookupView, Outcome, Phase, Reply};
use crate::scheduler::{Throttle, ThrottleEvent, ThrottleView};
use crate::selector::{select, select_spec};
use crate::text::texts;

verus! {

/// What a run is configured with.
#[derive(Debug)]
pub struct Settings {
    /// The retries a lookup may issue after its first query.
    pub max_retries: u32,
    /// The lookups that may be in flight at once.
    pub budget: usize,
    /// The number of pending matches at which they are handed out.
    pub flush_threshold: usize,
    /// The watched addresses, in textual form.
    pub targets: Vec<String>,
}

/// A lookup to carry out: which domain, against which resolver.
#[derive(Clone, Copy, Debug, PartialEq, Eq, Structural)]
pub struct Job {
    /// The position of the domain in the run's list.
    pub id: usize,
    /// The position of the resolver in the pool.
    pub resolver: usize,
}

/// What to do next when asked for more work.
#[derive(Clone, Copy, Debug, PartialEq, Eq, Structural)]
pub enum Next {
    /// Carry out this lookup.
    Start(Job),
    /// The budget is used up: wait until the batch in flight has completed.
    AwaitBatch,
    /// Every domain has been dispatched.
    Exhausted,
}

/// What follows from one answer.
#[derive(Debug)]
pub struct Directive {
    /// The outcome, when the answer ended the lookup; without one the query
    /// is to be issued again.
    pub outcome: Option<Outcome>,
    /// The answer was a timeout: wait the retry delay before going on.
    pub pause: bool,
    /// The timeouts now counted against the lookup's resolver.
    pub tally: u32,
    /// The position, in the answer, of the address that matched.
    pub address: Option<usize>,
    /// The number of pending matches, this one included, before any flush.
    pub matching: usize,
    /// The pending matches, taken out for persistence.
    pub batch: Option<Vec<String>>,
}

/// What a run has to report when it is over.
#[derive(Debug)]
pub struct Summary {
    /// The matches that were still pending, for the last flush.
    pub remaining: Vec<String>,
    /// The lookups that have completed.
    pub processed: usize,
    /// The domains of the run.
    pub total: usize,
    /// The timeouts counted against each resolver, by pool position.
    pub timeouts: Vec<u32>,
}

/// The shared state of a run.
pub struct Engine {
    settings: Settings,
    pool_size: usize,
    domains: Vec<String>,
    lookups: Vec<Lookup>,
    resolvers: Vec<usize>,
    ledger: TimeoutLedger,
    matches: MatchSet,
    throttle: Throttle,
    processed: usize,
}

/// The mathematical model of an [`Engine`].
pub struct EngineView {
    /// The domains of the run, in input order.
    pub domains: Seq<Seq<char>>,
    /// The watched addresses.
    pub targets: Seq<Seq<char>>,
    /// The retries a lookup may issue.
    pub max_retries: u32,
    /// The number of resolvers.
    pub pool_size: usize,
    /// The flush threshold.
    pub threshold: nat,
    /// The lookups dispatched so far, by domain position.
    pub lookups: Seq<LookupView>,
    /// The resolver of each dispatched lookup.
    pub resolvers: Seq<usize>,
    /// The timeouts counted against each resolver.
    pub ledger: Seq<u32>,
    /// The matches that wait for the next flush.
    pub pending: Seq<Seq<char>>,
    /// The throttle that bounds the lookups in flight.
    pub throttle: ThrottleView,
    /// The lookups that have completed.
    pub processed: nat,
}

/// The timeouts that the first `n` lookups have suffered at resolver `r`.
pub open spec fn timeouts_upto(ls: Seq<LookupView>, rs: Seq<usize>, r: usize, n: nat) -> nat
    decreases n,
{
    if n == 0 {
        0
    } else {
        timeouts_upto(ls, rs, r, (n - 1) as nat) + if rs[n - 1] == r {
            ls[n - 1].timeouts()
        } else {
            0
        }
    }
}

/// The timeouts that all the lookups have suffered at resolver `r`.
pub open spec fn timeouts_at(ls: Seq<LookupView>, rs: Seq<usize>, r: usize) -> nat {
    timeouts_upto(ls, rs, r, ls.len())
}

/// How many of the first `n` lookups are over.
pub open spec fn finished_upto(ls: Seq<LookupView>, n: nat) -> nat
    decreases n,
{
    if n == 0 {
        0
    } else {
        finished_upto(ls, (n - 1) as nat) + if ls[n - 1].active() {
            0nat
        } else {
            1nat
        }
    }
}

/// How many of the lookups are over.
pub open spec fn finished(ls: Seq<LookupView>) -> nat {
    finished_upto(ls, ls.len())
}

impl EngineView {
    /// The lookups dispatched and not yet over.
    pub open spec fn in_progress(self) -> int {
        self.lookups.len() - self.processed
    }

    /// Every domain has been dispatched and every lookup is over.
    pub open spec fn complete(self) -> bool {
        &&& self.lookups.len() == self.domains.len()
        &&& forall|i: int| 0 <= i < self.lookups.len() ==> !(#[trigger] self.lookups[i]).active()
    }

    /// What holds of a run at every moment.
    pub open spec fn wf(self) -> bool {
        &&& self.pool_size > 0
        &&& self.ledger.len() == self.pool_size
        &&& self.domains.len() * (self.max_retries + 1) <= u32::MAX
        &&& self.lookups.len() <= self.domains.len()
        &&& self.resolvers.len() == self.lookups.len()
        &&& forall|i: int|
            0 <= i < self.lookups.len() ==> {
                &&& (#[trigger] self.lookups[i]).wf()
                &&& self.lookups[i].max_retries == self.max_retries
            }
        &&& forall|i: int|
            0 <= i < self.lookups.len() ==> (#[trigger] self.resolvers[i]) == select_spec(
                self.domains[i],
                self.pool_size as nat,
            )
        &&& forall|r: usize|
            r < self.pool_size ==> (#[trigger] self.ledger[r as int]) == timeouts_at(
                self.lookups,
                self.resolvers,
                r,
            )
        &&& self.processed == finished(self.lookups)
        &&& self.pending.no_duplicates()
        &&& self.pending.len() == 0 || self.pending.len() < self.threshold
        &&& self.throttle.wf()
        &&& self.in_progress() <= self.throttle.in_flight
    }

    /// The run before anything is dispatched.
    pub open spec fn initial(
        domains: Seq<Seq<char>>,
        targets: Seq<Seq<char>>,
        max_retries: u32,
        budget: usize,
        threshold: usize,
        pool_size: usize,
    ) -> EngineView {
        EngineView {
            domains,
            targets,
            max_retries,
            pool_size,
            threshold: threshold as nat,
            lookups: Seq::empty(),
            resolvers: Seq::empty(),
            ledger: Seq::new(pool_size as nat, |i: int| 0u32),
            pending: Seq::empty(),
            throttle: ThrottleView { budget: budget as nat, in_flight: 0 },
            processed: 0,
        }
    }

    /// The next domain can be dispatched now.
    pub open spec fn can_dispatch(self) -> bool {
        self.lookups.len() < self.domains.len() && !self.throttle.full()
    }

    /// The resolver that the next domain goes to.
    pub open spec fn next_resolver(self) -> int {
        select_spec(self.domains[self.lookups.len() as int], self.pool_size as nat)
    }

    /// The run after the next domain has been dispatched to `resolver`.
    pub open spec fn dispatched(self, resolver: usize) -> EngineView {
        EngineView {
            lookups: self.lookups.push(start_spec(self.max_retries)),
            resolvers: self.resolvers.push(resolver),
            throttle: self.throttle.after(ThrottleEvent::Enter),
            ..self
        }
    }

    /// The pending matches with lookup `id` among them, where `reply` makes
    /// it a match; the pending matches as they are otherwise.
    pub open spec fn grown(self, id: int, reply: Reply) -> Seq<Seq<char>> {
        if step_spec(self.lookups[id], reply, self.targets).phase == Phase::Done(Outcome::Matched) {
            insert_spec(self.pending, self.domains[id])
        } else {
            self.pending
        }
    }

    /// `reply` makes lookup `id` a match, and with it the pending matches
    /// reach the threshold.
    pub open spec fn flushes(self, id: int, reply: Reply) -> bool {
        &&& step_spec(self.lookups[id], reply, self.targets).phase == Phase::Done(Outcome::Matched)
        &&& self.grown(id, reply).len() >= self.threshold
    }

    /// The run after `reply` has arrived for the active lookup `id`: the
    /// lookup moves on, a timeout is counted against its resolver, a match is
    /// recorded and may flush the pending matches, and a lookup that is over
    /// counts as processed.
    pub open spec fn replied(self, id: int, reply: Reply) -> EngineView {
        let after = step_spec(self.lookups[id], reply, self.targets);
        let r = self.resolvers[id] as int;
        EngineView {
            lookups: self.lookups.update(id, after),
            ledger: if reply is TimedOut {
                self.ledger.update(r, (self.ledger[r] + 1) as u32)
            } else {
                self.ledger
            },
            pending: if self.flushes(id, reply) {
                Seq::empty()
            } else {
                self.grown(id, reply)
            },
            processed: if after.active() {
                self.processed
            } else {
                self.processed + 1
            },
            ..self
        }
    }
}

/// Replacing one lookup changes the timeouts at a resolver by what that
/// lookup gained, if it belongs to the resolver.
pub proof fn lemma_timeouts_update(
    ls: Seq<LookupView>,
    rs: Seq<usize>,
    r: usize,
    n: nat,
    i: int,
    l: LookupView,
)
    requires
        0 <= i < ls.len(),
        n <= ls.len(),
        rs.len() == ls.len(),
    ensures
        timeouts_upto(ls.update(i, l), rs, r, n) == timeouts_upto(ls, rs, r, n) + if i < n && rs[i]
            == r {
            l.timeouts() - ls[i].timeouts()
        } else {
            0
        },
    decreases n,
{
    if n > 0 {
        lemma_timeouts_update(ls, rs, r, (n - 1) as nat, i, l);
    }
}

/// One more lookup leaves the timeouts of the lookups before it as they are.
pub proof fn lemma_timeouts_push(
    ls: Seq<LookupView>,
    rs: Seq<usize>,
    r: usize,
    n: nat,
    l: LookupView,
    x: usize,
)
    requires
        n <= ls.len(),
        rs.len() == ls.len(),
    ensures
        timeouts_upto(ls.push(l), rs.push(x), r, n) == timeouts_upto(ls, rs, r, n),
    decreases n,
{
    if n > 0 {
        lemma_timeouts_push(ls, rs, r, (n - 1) as nat, l, x);
    }
}

/// Lookups that have each timed out at most `bound` times have together
/// timed out at most `n * bound` times.
pub proof fn lemma_timeouts_bound(
    ls: Seq<LookupView>,
    rs: Seq<usize>,
    r: usize,
    n: nat,
    bound: nat,
)
    requires
        n <= ls.len(),
        forall|i: int| 0 <= i < n ==> (#[trigger] ls[i]).timeouts() <= bound,
    ensures
        timeouts_upto(ls, rs, r, n) <= n * bound,
    decreases n,
{
    if n > 0 {
        lemma_timeouts_bound(ls, rs, r, (n - 1) as nat, bound);
        assert((n - 1) * bound + bound == n * bound) by (nonlinear_arith);
    }
}

/// Replacing one lookup changes the count of finished lookups by that
/// lookup alone.
pub proof fn lemma_finished_update(ls: Seq<LookupView>, n: nat, i: int, l: LookupView)
    requires
        0 <= i < ls.len(),
        n <= ls.len(),
    ensures
        finished_upto(ls.update(i, l), n) == finished_upto(ls, n) + if i < n {
            (if l.active() { 0int } else { 1int }) - (if ls[i].active() { 0int } else { 1int })
        } else {
            0
        },
    decreases n,
{
    if n > 0 {
        lemma_finished_update(ls, (n - 1) as nat, i, l);
    }
}

/// One more lookup leaves the count over the lookups before it as it is.
pub proof fn lemma_finished_push(ls: Seq<LookupView>, n: nat, l: LookupView)
    requires
        n <= ls.len(),
    ensures
        finished_upto(ls.push(l), n) == finished_upto(ls, n),
    decreases n,
{
    if n > 0 {
        lemma_finished_push(ls, (n - 1) as nat, l);
    }
}

/// No more lookups are over than there are, and all of them are counted
/// when each is over.
pub proof fn lemma_finished_bound(ls: Seq<LookupView>, n: nat)
    requires
        n <= ls.len(),
    ensures
        finished_upto(ls, n) <= n,
        (forall|i: int| 0 <= i < n ==> !(#[trigger] ls[i]).active()) <==> finished_upto(ls, n) == n,
    decreases n,
{
    if n > 0 {
        lemma_finished_bound(ls, (n - 1) as nat);
    }
}

/// In a run where every domain has been dispatched and
/// every lookup is over, exactly as many lookups count as processed as there
/// are domains, whatever their outcomes.
pub proof fn lemma_complete_run_counts_every_domain(v: EngineView)
    requires
        v.wf(),
        v.complete(),
    ensures
        v.processed == v.domains.len(),
        v.in_progress() == 0,
{
    lemma_finished_bound(v.lookups, v.lookups.len());
}

/// At every moment of a run the lookups in progress are
/// no more than the throttle has let in, which is within the budget wherever
/// the budget is positive.
pub proof fn lemma_in_progress_within_budget(v: EngineView)
    requires
        v.wf(),
    ensures
        0 <= v.in_progress() <= v.throttle.in_flight <= v.throttle.limit(),
        v.throttle.budget > 0 ==> v.in_progress() <= v.throttle.budget,
{
    lemma_finished_bound(v.lookups, v.lookups.len());
}

/// At every moment of a run each lookup has issued
/// at most `max_retries + 1` queries, and each resolver's counter holds
/// exactly the timeouts that its lookups have suffered.
pub proof fn lemma_attempts_within_bound(v: EngineView, i: int, r: usize)
    requires
        v.wf(),
        0 <= i < v.lookups.len(),
        r < v.pool_size,
    ensures
        v.lookups[i].attempts() <= v.max_retries + 1,
        v.lookups[i].timeouts() <= v.max_retries + 1,
        v.ledger[r as int] == timeouts_at(v.lookups, v.resolvers, r),
        v.ledger[r as int] <= v.lookups.len() * (v.max_retries + 1),
{
    assert(v.lookups[i].wf());
    assert forall|j: int| 0 <= j < v.lookups.len() implies (#[trigger] v.lookups[j]).timeouts()
        <= (v.max_retries + 1) as nat by {
        assert(v.lookups[j].wf());
    }
    lemma_timeouts_bound(v.lookups, v.resolvers, r, v.lookups.len(), (v.max_retries + 1) as nat);
}

impl View for Engine {
    type V = EngineView;

    closed spec fn view(&self) -> EngineView {
        EngineView {
            domains: texts(self.domains@),
            targets: texts(self.settings.targets@),
            max_retries: self.settings.max_retries,
            pool_size: self.pool_size,
            threshold: self.matches.threshold(),
            lookups: Seq::new(self.lookups@.len(), |i: int| self.lookups@[i]@),
            resolvers: self.resolvers@,
            ledger: self.ledger@,
            pending: self.matches@,
            throttle: self.throttle@,
            processed: self.processed as nat,
        }
    }
}

impl Engine {
    /// Sets a run up: nothing dispatched, nothing counted, nothing matched.
    /// The counters are 32 bits wide, so the domains times the attempts that
    /// each may take must fit in them.
    pub fn new(settings: Settings, domains: Vec<String>, pool_size: usize) -> (engine: Engine)
        requires
            pool_size > 0,
            domains@.len() * (settings.max_retries + 1) <= u32::MAX,
        ensures
            engine@ == EngineView::initial(
                texts(domains@),
                texts(settings.targets@),
                settings.max_retries,
                settings.budget,
                settings.flush_threshold,
                pool_size,
            ),
            engine@.wf(),
    {
        let ledger = TimeoutLedger::new(pool_size);
        let matches = MatchSet::new(settings.flush_threshold);
        let throttle = Throttle::new(settings.budget);
        let engine = Engine {
            settings,
            pool_size,
            domains,
            lookups: Vec::new(),
            resolvers: Vec::new(),
            ledger,
            matches,
            throttle,
            processed: 0,
        };
        assert(engine@.lookups =~= Seq::<LookupView>::empty());
        assert(engine@.resolvers =~= Seq::<usize>::empty());
        engine
    }

    /// Asks for more work. The next domain of the list is dispatched to the
    /// resolver that its hash selects, unless every domain has been
    /// dispatched or the budget is used up.
    pub fn dispatch(&mut self) -> (next: Next)
        requires
            old(self)@.wf(),
        ensures
            final(self)@.wf(),
            old(self)@.lookups.len() == old(self)@.domains.len() ==> next == Next::Exhausted
                && final(self)@ == old(self)@,
            old(self)@.lookups.len() < old(self)@.domains.len() && old(self)@.throttle.full() ==> next
                == Next::AwaitBatch && final(self)@ == old(self)@,
            old(self)@.can_dispatch() ==> {
                &&& next matches Next::Start(job)
                &&& job.id == old(self)@.lookups.len()
                &&& job.resolver == old(self)@.next_resolver()
                &&& final(self)@ == old(self)@.dispatched(job.resolver)
            },
    {
        let id = self.lookups.len();
        if id == self.domains.len() {
            return Next::Exhausted;
        }
        if self.throttle.is_full() {
            return Next::AwaitBatch;
        }
        let resolver = select(self.domains[id].as_str(), self.pool_size);
        let fresh = Lookup::start(self.settings.max_retries);
        self.lookups.push(fresh);
        self.resolvers.push(resolver);
        self.throttle.try_enter();
        proof {
            let v = old(self)@;
            let w = self@;
            assert(w.lookups =~= v.lookups.push(start_spec(v.max_retries)));
            assert(w == v.dispatched(resolver));
            assert forall|r: usize| r < w.pool_size implies (#[trigger] w.ledger[r as int])
                == timeouts_at(w.lookups, w.resolvers, r) by {
                lemma_timeouts_push(
                    v.lookups,
                    v.resolvers,
                    r,
                    v.lookups.len(),
                    start_spec(v.max_retries),
                    resolver,
                );
            }
            lemma_finished_push(v.lookups, v.lookups.len(), start_spec(v.max_retries));
        }
        Next::Start(Job { id, resolver })
    }

    /// Takes the answer to the query of the active lookup `id`. The lookup
    /// moves on; a timeout is counted against its resolver; a match is
    /// recorded, and the pending matches are handed out when they reach the
    /// threshold; a lookup that is over counts as processed, once.
    pub fn on_reply(&mut self, id: usize, reply: &Reply) -> (directive: Directive)
        requires
            old(self)@.wf(),
            id < old(self)@.lookups.len(),
            old(self)@.lookups[id as int].active(),
        ensures
            final(self)@ == old(self)@.replied(id as int, *reply),
            final(self)@.wf(),
            directive.outcome == match final(self)@.lookups[id as int].phase {
                Phase::Attempting => None,
                Phase::Done(outcome) => Some(outcome),
            },
            directive.pause == (reply is TimedOut),
            directive.tally == final(self)@.ledger[old(self)@.resolvers[id as int] as int],
            hit_spec(old(self)@.lookups[id as int], *reply, old(self)@.targets, directive.address),
            directive.matching == old(self)@.grown(id as int, *reply).len(),
            match directive.batch {
                Some(batch) => old(self)@.flushes(id as int, *reply) && texts(batch@) == old(
                    self,
                )@.grown(id as int, *reply),
                None => !old(self)@.flushes(id as int, *reply),
            },
    {
        let ghost v = old(self)@;
        let ghost before = v.lookups[id as int];
        let ghost after = step_spec(before, *reply, v.targets);
        let ghost moved = v.lookups.update(id as int, after);
        let resolver = self.resolvers[id];
        proof {
            assert(before.wf());
            assert(resolver == select_spec(v.domains[id as int], v.pool_size as nat));
            lemma_step_wf(before, *reply, v.targets);
            assert forall|j: int| 0 <= j < moved.len() implies (#[trigger] moved[j]).timeouts()
                <= (v.max_retries + 1) as nat by {
                assert(v.lookups[j].wf());
            }
            lemma_timeouts_bound(moved, v.resolvers, resolver, moved.len(), (v.max_retries + 1) as nat);
            lemma_timeouts_update(v.lookups, v.resolvers, resolver, v.lookups.len(), id as int, after);
            assert(moved.len() * (v.max_retries + 1) <= v.domains.len() * (v.max_retries + 1))
                by (nonlinear_arith)
                requires
                    moved.len() <= v.domains.len(),
            ;
            lemma_finished_update(v.lookups, v.lookups.len(), id as int, after);
            lemma_finished_bound(moved, moved.len());
        }
        let mut lookup = self.lookups[id];
        let address = lookup.step(reply, &self.settings.targets);
        self.lookups.set(id, lookup);
        let mut pause = false;
        let mut tally = self.ledger.count(resolver);
        if let Reply::TimedOut = reply {
            tally = self.ledger.record(resolver);
            pause = true;
        }
        let outcome = lookup.outcome();
        let mut matching = self.matches.len();
        let mut batch: Option<Vec<String>> = None;
        if let Some(done) = outcome {
            if let Outcome::Matched = done {
                let recorded = self.matches.record(&self.domains[id]);
                matching = recorded.count;
                batch = recorded.batch;
            }
            let dispatched = self.lookups.len();
            assert(self.processed + 1 == finished(moved) <= dispatched);
            self.processed = self.processed + 1;
        }
        proof {
            let w = self@;
            assert(w.lookups =~= moved);
            assert(w.ledger =~= v.replied(id as int, *reply).ledger);
            assert(w == v.replied(id as int, *reply));
            assert forall|r: usize| r < w.pool_size implies (#[trigger] w.ledger[r as int])
                == timeouts_at(w.lookups, w.resolvers, r) by {
                lemma_timeouts_update(v.lookups, v.resolvers, r, v.lookups.len(), id as int, after);
            }
        }
        Directive { outcome, pause, tally, address, matching, batch }
    }

    /// Opens the throttle for the next batch, provided no lookup is in progress.
    /// While one is, nothing changes and the answer is `false`.
    pub fn release_batch(&mut self) -> (released: bool)
        requires
            old(self)@.wf(),
        ensures
            final(self)@.wf(),
            released == (old(self)@.in_progress() == 0),
            released ==> final(self)@ == (EngineView {
                throttle: old(self)@.throttle.after(ThrottleEvent::Release),
                ..old(self)@
            }),
            !released ==> final(self)@ == old(self)@,
    {
        proof {
            lemma_finished_bound(self@.lookups, self@.lookups.len());
        }
        if self.processed == self.lookups.len() {
            self.throttle.release();
            true
        } else {
            false
        }
    }

    /// Closes the run: takes the pending matches out for the last flush,
    /// whatever their number, and reports the counters.
    pub fn shutdown(&mut self) -> (summary: Summary)
        requires
            old(self)@.wf(),
        ensures
            final(self)@.wf(),
            final(self)@ == (EngineView { pending: Seq::empty(), ..old(self)@ }),
            texts(summary.remaining@) == old(self)@.pending,
            summary.processed == old(self)@.processed,
            summary.total == old(self)@.domains.len(),
            summary.timeouts@ == old(self)@.ledger,
            old(self)@.complete() ==> summary.processed == summary.total,
    {
        proof {
            lemma_finished_bound(self@.lookups, self@.lookups.len());
        }
        let remaining = self.matches.drain();
        Summary {
            remaining,
            processed: self.processed,
            total: self.domains.len(),
            timeouts: self.ledger.tallies(),
        }
    }

    /// The lookups that have completed.
    pub fn processed(&self) -> (n: usize)
        ensures
            n == self@.processed,
    {
        self.processed
    }

    /// The lookups dispatched so far.
    pub fn dispatched(&self) -> (n: usize)
        ensures
            n == self@.lookups.len(),
    {
        self.lookups.len()
    }

    /// The domains of the run.
    pub fn total(&self) -> (n: usize)
        ensures
            n == self@.domains.len(),
    {
        self.domains.len()
    }

    /// The domain at a position of the run's list.
    pub fn domain(&self, id: usize) -> (domain: &String)
        requires
            id < self@.domains.len(),
        ensures
            domain@ == self@.domains[id as int],
    {
        &self.domains[id]
    }

    /// Tells whether lookup `id` has been dispatched and is not over yet.
    pub fn is_active(&self, id: usize) -> (b: bool)
        ensures
            b == (id < self@.lookups.len() && self@.lookups[id as int].active()),
    {
        if id < self.lookups.len() {
            self.lookups[id].is_active()
        } else {
            false
        }
    }

    /// The outcome of lookup `id`, once it is over.
    pub fn outcome(&self, id: usize) -> (o: Option<Outcome>)
        requires
            id < self@.lookups.len(),
        ensures
            o == match self@.lookups[id as int].phase {
                Phase::Attempting => None,
                Phase::Done(outcome) => Some(outcome),
            },
    {
        self.lookups[id].outcome()
    }

    /// The timeouts counted against a resolver.
    pub fn timeouts(&self, resolver: usize) -> (tally: u32)
        requires
            self@.wf(),
            resolver < self@.pool_size,
        ensures
            tally == self@.ledger[resolver as int],
    {
        self.ledger.count(resolver)
    }

    /// The number of matches that wait for the next flush.
    pub fn pending(&self) -> (n: usize)
        ensures
            n == self@.pending.len(),
    {
        self.matches.len()
    }

    /// True when every domain has been dispatched and every lookup is over.
    pub fn is_complete(&self) -> (b: bool)
        requires
            self@.wf(),
        ensures
            b == self@.complete(),
    {
        proof {
            lemma_finished_bound(self@.lookups, self@.lookups.len());
        }
        self.lookups.len() == self.domains.len() && self.processed == self.lookups.len()
    }
}

} // verus!
