//! The set of matched domains and the rule that decides when it is handed
//! out for persistence.

use vstd::prelude::*;
use crate::text::{contains_text, texts};

verus! {

/// The matched domains that wait for the next flush. No domain occurs twice.
pub struct MatchSet {
    entries: Vec<String>,
    threshold: usize,
}

/// What recording one match led to.
#[derive(Debug)]
pub struct Recorded {
    /// The size of the set with the match in it, before any flush.
    pub count: usize,
    /// The whole set, taken out for persistence, when the size reached the
    /// threshold.
    pub batch: Option<Vec<String>>,
}

/// The set with `domain` in it: unchanged when the domain is there already.
pub open spec fn insert_spec(set: Seq<Seq<char>>, domain: Seq<char>) -> Seq<Seq<char>> {
    if set.contains(domain) {
        set
    } else {
        set.push(domain)
    }
}

/// The pending set and the batches flushed so far, as a series of matches
/// leaves them.
pub struct History {
    /// The domains that wait for the next flush.
    pub pending: Seq<Seq<char>>,
    /// The batches handed out, oldest first.
    pub batches: Seq<Seq<Seq<char>>>,
}

impl History {
    /// `domain` waits for the next flush or has left in some batch.
    pub open spec fn holds(self, domain: Seq<char>) -> bool {
        self.pending.contains(domain) || exists|k: int|
            0 <= k < self.batches.len() && (#[trigger] self.batches[k]).contains(domain)
    }
}

/// The history after one more match has been recorded.
pub open spec fn record_spec(h: History, domain: Seq<char>, threshold: nat) -> History {
    let grown = insert_spec(h.pending, domain);
    if grown.len() >= threshold {
        History { pending: Seq::empty(), batches: h.batches.push(grown) }
    } else {
        History { pending: grown, batches: h.batches }
    }
}

/// The history after a series of matches, recorded in order into an empty set.
pub open spec fn replay(matches: Seq<Seq<char>>, threshold: nat) -> History
    decreases matches.len(),
{
    if matches.len() == 0 {
        History { pending: Seq::empty(), batches: Seq::empty() }
    } else {
        record_spec(replay(matches.drop_last(), threshold), matches.last(), threshold)
    }
}

impl View for MatchSet {
    type V = Seq<Seq<char>>;

    closed spec fn view(&self) -> Seq<Seq<char>> {
        texts(self.entries@)
    }
}

impl MatchSet {
    /// The size at which the set is handed out.
    pub closed spec fn threshold(&self) -> nat {
        self.threshold as nat
    }

    /// No domain occurs twice, and the set never rests at or above its
    /// threshold.
    pub open spec fn wf(&self) -> bool {
        &&& self@.no_duplicates()
        &&& self@.len() == 0 || self@.len() < self.threshold()
    }

    /// An empty set that flushes when it holds `threshold` domains.
    pub fn new(threshold: usize) -> (set: MatchSet)
        ensures
            set@ == Seq::<Seq<char>>::empty(),
            set.threshold() == threshold,
            set.wf(),
    {
        let set = MatchSet { entries: Vec::new(), threshold };
        assert(set@ =~= Seq::<Seq<char>>::empty());
        set
    }

    /// Records a matched domain. A domain that is in the set already changes
    /// nothing. When the set then holds as many domains as the threshold asks
    /// for, all of them are taken out and the set is left empty.
    pub fn record(&mut self, domain: &String) -> (rec: Recorded)
        requires
            old(self).wf(),
        ensures
            final(self).wf(),
            final(self).threshold() == old(self).threshold(),
            rec.count == insert_spec(old(self)@, domain@).len(),
            insert_spec(old(self)@, domain@).len() >= old(self).threshold() ==> {
                &&& rec.batch matches Some(batch)
                &&& texts(batch@) == insert_spec(old(self)@, domain@)
                &&& final(self)@ == Seq::<Seq<char>>::empty()
            },
            insert_spec(old(self)@, domain@).len() < old(self).threshold() ==> {
                &&& rec.batch is None
                &&& final(self)@ == insert_spec(old(self)@, domain@)
            },
    {
        proof {
            lemma_insert_no_duplicates(self@, domain@);
        }
        if !contains_text(&self.entries, domain) {
            self.entries.push(domain.clone());
            assert(self@ =~= old(self)@.push(domain@));
        }
        let count = self.entries.len();
        if count >= self.threshold {
            let batch = self.take_entries();
            Recorded { count, batch: Some(batch) }
        } else {
            Recorded { count, batch: None }
        }
    }

    /// Takes every domain out of the set, leaving it empty.
    pub fn drain(&mut self) -> (batch: Vec<String>)
        ensures
            texts(batch@) == old(self)@,
            final(self)@ == Seq::<Seq<char>>::empty(),
            final(self).threshold() == old(self).threshold(),
            final(self).wf(),
    {
        self.take_entries()
    }

    fn take_entries(&mut self) -> (batch: Vec<String>)
        ensures
            texts(batch@) == old(self)@,
            final(self)@ == Seq::<Seq<char>>::empty(),
            final(self).threshold() == old(self).threshold(),
            final(self).wf(),
    {
        let mut batch: Vec<String> = Vec::new();
        std::mem::swap(&mut self.entries, &mut batch);
        assert(self@ =~= Seq::<Seq<char>>::empty());
        batch
    }

    /// The number of domains that wait for the next flush.
    pub fn len(&self) -> (n: usize)
        ensures
            n == self@.len(),
    {
        self.entries.len()
    }

    /// True when no domain waits for the next flush.
    pub fn is_empty(&self) -> (b: bool)
        ensures
            b == (self@.len() == 0),
    {
        self.entries.len() == 0
    }

    /// Tells whether `domain` waits for the next flush.
    pub fn contains(&self, domain: &String) -> (b: bool)
        ensures
            b == self@.contains(domain@),
    {
        contains_text(&self.entries, domain)
    }

    /// The size at which the set is handed out.
    pub fn flush_threshold(&self) -> (n: usize)
        ensures
            n == self.threshold(),
    {
        self.threshold
    }
}

/// Inserting keeps a set free of duplicates, keeps what was there and holds
/// the new domain.
pub proof fn lemma_insert_no_duplicates(set: Seq<Seq<char>>, domain: Seq<char>)
    requires
        set.no_duplicates(),
    ensures
        insert_spec(set, domain).no_duplicates(),
        insert_spec(set, domain).contains(domain),
        forall|d: Seq<char>| set.contains(d) ==> insert_spec(set, domain).contains(d),
{
    let grown = insert_spec(set, domain);
    if !set.contains(domain) {
        assert(grown[set.len() as int] == domain);
        assert forall|d: Seq<char>| set.contains(d) implies grown.contains(d) by {
            let i = choose|i: int| 0 <= i < set.len() && set[i] == d;
            assert(grown[i] == d);
        }
    }
}

/// Recording is idempotent: a domain recorded twice in a row is held once.
pub proof fn lemma_insert_idempotent(set: Seq<Seq<char>>, domain: Seq<char>)
    ensures
        insert_spec(insert_spec(set, domain), domain) == insert_spec(set, domain),
{
    if !set.contains(domain) {
        assert(set.push(domain)[set.len() as int] == domain);
    }
}

/// One more recorded match loses nothing that the history held, and the new
/// domain is held too.
pub proof fn lemma_record_keeps(h: History, domain: Seq<char>, threshold: nat)
    requires
        h.pending.no_duplicates(),
    ensures
        record_spec(h, domain, threshold).holds(domain),
        forall|d: Seq<char>| h.holds(d) ==> record_spec(h, domain, threshold).holds(d),
        record_spec(h, domain, threshold).pending.no_duplicates(),
{
    let grown = insert_spec(h.pending, domain);
    let after = record_spec(h, domain, threshold);
    lemma_insert_no_duplicates(h.pending, domain);
    if grown.len() >= threshold {
        let last = h.batches.len() as int;
        assert(after.batches[last] == grown);
        assert forall|d: Seq<char>| h.holds(d) implies after.holds(d) by {
            if h.pending.contains(d) {
                assert(after.batches[last].contains(d));
            } else {
                let k = choose|k: int| 0 <= k < h.batches.len() && h.batches[k].contains(d);
                assert(after.batches[k].contains(d));
            }
        }
    }
}

/// Every match of a series waits in the set or has left in
/// a flushed batch, no batch and no pending set holds a domain twice, and the
/// set never rests at or above a positive threshold.
pub proof fn lemma_nothing_lost(matches: Seq<Seq<char>>, threshold: nat)
    ensures
        forall|i: int| 0 <= i < matches.len() ==> replay(matches, threshold).holds(#[trigger] matches[i]),
        replay(matches, threshold).pending.no_duplicates(),
        forall|k: int| 0 <= k < replay(matches, threshold).batches.len() ==>
            (#[trigger] replay(matches, threshold).batches[k]).no_duplicates(),
        replay(matches, threshold).pending.len() == 0
            || replay(matches, threshold).pending.len() < threshold,
    decreases matches.len(),
{
    if matches.len() > 0 {
        let before = replay(matches.drop_last(), threshold);
        let after = replay(matches, threshold);
        lemma_nothing_lost(matches.drop_last(), threshold);
        lemma_record_keeps(before, matches.last(), threshold);
        assert forall|i: int| 0 <= i < matches.len() implies after.holds(#[trigger] matches[i]) by {
            if i < matches.len() - 1 {
                assert(matches.drop_last()[i] == matches[i]);
                assert(before.holds(matches[i]));
            }
        }
    }
}

} // verus!
