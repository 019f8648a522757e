//! The life of one domain lookup: attempts, retries on timeout, and the
//! outcome it ends in.

use vstd::prelude::*;
use crate::text::{contains_text, texts};

verus! {

/// What a resolver answered to one query.
#[derive(Debug)]
pub enum Reply {
    /// The query succeeded with these addresses, each in its textual form.
    Addresses(Vec<String>),
    /// The resolver holds no records for the name, or the name does not exist.
    NoRecords,
    /// The resolver did not answer in time.
    TimedOut,
    /// Any other failure: a malformed response, a refusal and the like.
    Failed,
}

/// How a lookup ended.
#[derive(Clone, Copy, Debug, PartialEq, Eq, Structural)]
pub enum Outcome {
    /// One of the returned addresses is a watched address.
    Matched,
    /// The query succeeded and none of the addresses is watched.
    Unmatched,
    /// The resolver gave a definitive negative answer.
    NoRecords,
    /// Every allowed attempt timed out.
    RetriesExhausted,
    /// The query failed for a reason that a retry cannot cure.
    OtherError,
}

/// Whether a lookup is still waiting for an answer.
#[derive(Clone, Copy, Debug, PartialEq, Eq, Structural)]
pub enum Phase {
    /// A query is in flight.
    Attempting,
    /// The lookup is over.
    Done(Outcome),
}

/// One domain's lookup against its resolver.
#[derive(Clone, Copy, Debug)]
pub struct Lookup {
    retries: u32,
    max_retries: u32,
    phase: Phase,
}

/// The mathematical model of a [`Lookup`].
pub struct LookupView {
    /// Queries issued after the first one.
    pub retries: nat,
    /// The most retries the lookup may issue.
    pub max_retries: nat,
    /// Where the lookup stands.
    pub phase: Phase,
}

impl LookupView {
    /// A lookup never retries more often than it may.
    pub open spec fn wf(self) -> bool {
        self.retries <= self.max_retries
    }

    /// The queries issued so far, the one in flight included.
    pub open spec fn attempts(self) -> nat {
        self.retries + 1
    }

    /// The attempts that have timed out so far.
    pub open spec fn timeouts(self) -> nat {
        if self.phase == Phase::Done(Outcome::RetriesExhausted) {
            self.retries + 1
        } else {
            self.retries
        }
    }

    /// True while a query is in flight.
    pub open spec fn active(self) -> bool {
        self.phase == Phase::Attempting
    }
}

/// Some address of the answer is a watched address.
pub open spec fn has_match(addresses: Seq<Seq<char>>, targets: Seq<Seq<char>>) -> bool {
    exists|i: int| 0 <= i < addresses.len() && targets.contains(#[trigger] addresses[i])
}

/// `hit` is the position of the first watched address of the answer, if any.
pub open spec fn is_first_match(
    addresses: Seq<Seq<char>>,
    targets: Seq<Seq<char>>,
    hit: Option<usize>,
) -> bool {
    match hit {
        Some(i) => {
            &&& i < addresses.len()
            &&& targets.contains(addresses[i as int])
            &&& forall|j: int| 0 <= j < i ==> !targets.contains(#[trigger] addresses[j])
        },
        None => !has_match(addresses, targets),
    }
}

/// A fresh lookup whose first query is in flight.
pub open spec fn start_spec(max_retries: u32) -> LookupView {
    LookupView { retries: 0, max_retries: max_retries as nat, phase: Phase::Attempting }
}

/// The lookup after `reply` has arrived for the query in flight. A lookup that
/// is over stays as it is.
pub open spec fn step_spec(l: LookupView, reply: Reply, targets: Seq<Seq<char>>) -> LookupView {
    if !l.active() {
        l
    } else {
        match reply {
            Reply::Addresses(addresses) => LookupView {
                phase: Phase::Done(
                    if has_match(texts(addresses@), targets) {
                        Outcome::Matched
                    } else {
                        Outcome::Unmatched
                    },
                ),
                ..l
            },
            Reply::NoRecords => LookupView { phase: Phase::Done(Outcome::NoRecords), ..l },
            Reply::TimedOut => if l.retries < l.max_retries {
                LookupView { retries: l.retries + 1, ..l }
            } else {
                LookupView { phase: Phase::Done(Outcome::RetriesExhausted), ..l }
            },
            Reply::Failed => LookupView { phase: Phase::Done(Outcome::OtherError), ..l },
        }
    }
}

/// `hit` is what a step reports of `reply`: the position of the first watched
/// address of an answer that an active lookup takes, and nothing otherwise.
pub open spec fn hit_spec(
    l: LookupView,
    reply: Reply,
    targets: Seq<Seq<char>>,
    hit: Option<usize>,
) -> bool {
    match reply {
        Reply::Addresses(addresses) if l.active() => is_first_match(
            texts(addresses@),
            targets,
            hit,
        ),
        _ => hit is None,
    }
}

/// The lookup after a whole series of replies, taken in order.
pub open spec fn run_spec(l: LookupView, replies: Seq<Reply>, targets: Seq<Seq<char>>) -> LookupView
    decreases replies.len(),
{
    if replies.len() == 0 {
        l
    } else {
        step_spec(run_spec(l, replies.drop_last(), targets), replies.last(), targets)
    }
}

/// Finds the first address of an answer that is a watched address.
pub fn first_match(addresses: &Vec<String>, targets: &Vec<String>) -> (hit: Option<usize>)
    ensures
        is_first_match(texts(addresses@), texts(targets@), hit),
{
    let mut i: usize = 0;
    while i < addresses.len()
        invariant
            i <= addresses.len(),
            forall|j: int|
                0 <= j < i ==> !texts(targets@).contains(#[trigger] texts(addresses@)[j]),
        decreases addresses.len() - i,
    {
        if contains_text(targets, &addresses[i]) {
            assert(texts(addresses@)[i as int] == addresses@[i as int]@);
            return Some(i);
        }
        assert(texts(addresses@)[i as int] == addresses@[i as int]@);
        i += 1;
    }
    None
}

impl View for Lookup {
    type V = LookupView;

    closed spec fn view(&self) -> LookupView {
        LookupView {
            retries: self.retries as nat,
            max_retries: self.max_retries as nat,
            phase: self.phase,
        }
    }
}

impl Lookup {
    /// Starts a lookup: the first query is issued, and `max_retries` more may
    /// follow.
    pub fn start(max_retries: u32) -> (l: Lookup)
        ensures
            l@ == start_spec(max_retries),
            l@.wf(),
    {
        Lookup { retries: 0, max_retries, phase: Phase::Attempting }
    }

    /// Takes the answer to the query in flight and moves to the next state:
    /// a success or a definitive failure ends the lookup, a timeout issues the
    /// next query while retries are left and ends the lookup when none is.
    /// A lookup that is over is left as it is.
    /// Returns the position of the first watched address where the answer
    /// holds one.
    pub fn step(&mut self, reply: &Reply, targets: &Vec<String>) -> (hit: Option<usize>)
        requires
            old(self)@.wf(),
        ensures
            final(self)@ == step_spec(old(self)@, *reply, texts(targets@)),
            final(self)@.wf(),
            final(self)@.attempts() <= final(self)@.max_retries + 1,
            hit_spec(old(self)@, *reply, texts(targets@), hit),
    {
        if !self.is_active() {
            return None;
        }
        match reply {
            Reply::Addresses(addresses) => {
                let hit = first_match(addresses, targets);
                if hit.is_some() {
                    self.phase = Phase::Done(Outcome::Matched);
                } else {
                    self.phase = Phase::Done(Outcome::Unmatched);
                }
                hit
            },
            Reply::NoRecords => {
                self.phase = Phase::Done(Outcome::NoRecords);
                None
            },
            Reply::TimedOut => {
                if self.retries < self.max_retries {
                    self.retries = self.retries + 1;
                } else {
                    self.phase = Phase::Done(Outcome::RetriesExhausted);
                }
                None
            },
            Reply::Failed => {
                self.phase = Phase::Done(Outcome::OtherError);
                None
            },
        }
    }

    /// The queries issued after the first one.
    pub fn retries(&self) -> (n: u32)
        ensures
            n == self@.retries,
    {
        self.retries
    }

    /// The most retries this lookup may issue.
    pub fn max_retries(&self) -> (n: u32)
        ensures
            n == self@.max_retries,
    {
        self.max_retries
    }

    /// Where the lookup stands.
    pub fn phase(&self) -> (p: Phase)
        ensures
            p == self@.phase,
    {
        self.phase
    }

    /// True while a query is in flight.
    pub fn is_active(&self) -> (b: bool)
        ensures
            b == self@.active(),
    {
        match self.phase {
            Phase::Attempting => true,
            Phase::Done(_) => false,
        }
    }

    /// The outcome, once the lookup is over.
    pub fn outcome(&self) -> (o: Option<Outcome>)
        ensures
            match o {
                Some(outcome) => self@.phase == Phase::Done(outcome),
                None => self@.phase == Phase::Attempting,
            },
    {
        match self.phase {
            Phase::Attempting => None,
            Phase::Done(outcome) => Some(outcome),
        }
    }
}

/// Every step keeps a lookup within its retry bound.
pub proof fn lemma_step_wf(l: LookupView, reply: Reply, targets: Seq<Seq<char>>)
    requires
        l.wf(),
    ensures
        step_spec(l, reply, targets).wf(),
        step_spec(l, reply, targets).max_retries == l.max_retries,
        step_spec(l, reply, targets).timeouts() <= l.timeouts() + 1,
        l.timeouts() <= step_spec(l, reply, targets).timeouts(),
{
}

/// Whatever the resolver answers, and however often, a lookup
/// never issues more than `max_retries + 1` queries, and never sees more
/// timeouts than that.
pub proof fn lemma_retry_bound(max_retries: u32, replies: Seq<Reply>, targets: Seq<Seq<char>>)
    ensures
        run_spec(start_spec(max_retries), replies, targets).wf(),
        run_spec(start_spec(max_retries), replies, targets).max_retries == max_retries,
        run_spec(start_spec(max_retries), replies, targets).attempts() <= max_retries + 1,
        run_spec(start_spec(max_retries), replies, targets).timeouts() <= max_retries + 1,
    decreases replies.len(),
{
    if replies.len() > 0 {
        lemma_retry_bound(max_retries, replies.drop_last(), targets);
        lemma_step_wf(
            run_spec(start_spec(max_retries), replies.drop_last(), targets),
            replies.last(),
            targets,
        );
    }
}

/// A lookup that is over ignores whatever arrives afterwards.
pub proof fn lemma_done_is_final(l: LookupView, replies: Seq<Reply>, targets: Seq<Seq<char>>)
    requires
        !l.active(),
    ensures
        run_spec(l, replies, targets) == l,
    decreases replies.len(),
{
    if replies.len() > 0 {
        lemma_done_is_final(l, replies.drop_last(), targets);
    }
}

} // verus!
