use dns_sweep::aggregator::MatchSet;

fn s(text: &str) -> String {
    text.to_string()
}

#[test]
fn a_new_set_is_empty() {
    let set = MatchSet::new(100);
    assert_eq!(set.len(), 0);
    assert!(set.is_empty());
    assert_eq!(set.flush_threshold(), 100);
    assert!(!set.contains(&s("a.example")));
}

#[test]
fn recording_below_the_threshold_keeps_the_domain() {
    let mut set = MatchSet::new(3);
    let rec = set.record(&s("a.example"));
    assert_eq!(rec.count, 1);
    assert!(rec.batch.is_none());
    assert_eq!(set.len(), 1);
    assert!(set.contains(&s("a.example")));
    assert!(!set.is_empty());
}

#[test]
fn recording_is_idempotent() {
    let mut set = MatchSet::new(10);
    set.record(&s("a.example"));
    let again = set.record(&s("a.example"));
    assert_eq!(again.count, 1);
    assert!(again.batch.is_none());
    assert_eq!(set.len(), 1);
    set.record(&s("b.example"));
    let third = set.record(&s("a.example"));
    assert_eq!(third.count, 2);
    assert_eq!(set.drain(), vec![s("a.example"), s("b.example")]);
}

#[test]
fn threshold_two_flushes_the_first_two_and_leaves_the_third() {
    let mut set = MatchSet::new(2);
    let a = set.record(&s("A"));
    assert!(a.batch.is_none());
    let b = set.record(&s("B"));
    assert_eq!(b.count, 2);
    assert_eq!(b.batch, Some(vec![s("A"), s("B")]));
    assert!(set.is_empty());
    let c = set.record(&s("C"));
    assert_eq!(c.count, 1);
    assert!(c.batch.is_none());
    assert_eq!(set.drain(), vec![s("C")]);
    assert!(set.is_empty());
}

#[test]
fn a_flush_takes_everything_and_nothing_twice() {
    let mut set = MatchSet::new(3);
    let mut flushed: Vec<String> = Vec::new();
    for i in 0..10 {
        let rec = set.record(&format!("d{}.example", i));
        if let Some(batch) = rec.batch {
            assert_eq!(batch.len(), 3);
            flushed.extend(batch);
        }
    }
    flushed.extend(set.drain());
    let expected: Vec<String> = (0..10).map(|i| format!("d{}.example", i)).collect();
    assert_eq!(flushed, expected);
}

#[test]
fn threshold_one_flushes_every_match() {
    let mut set = MatchSet::new(1);
    let rec = set.record(&s("a.example"));
    assert_eq!(rec.count, 1);
    assert_eq!(rec.batch, Some(vec![s("a.example")]));
    assert!(set.is_empty());
}

#[test]
fn threshold_zero_flushes_every_match() {
    let mut set = MatchSet::new(0);
    let rec = set.record(&s("a.example"));
    assert_eq!(rec.count, 1);
    assert_eq!(rec.batch, Some(vec![s("a.example")]));
    assert!(set.is_empty());
    let rec = set.record(&s("a.example"));
    assert_eq!(rec.batch, Some(vec![s("a.example")]));
}

#[test]
fn draining_an_empty_set_gives_nothing() {
    let mut set = MatchSet::new(5);
    assert_eq!(set.drain(), Vec::<String>::new());
    assert!(set.is_empty());
    assert_eq!(set.flush_threshold(), 5);
}

#[test]
fn draining_empties_the_set() {
    let mut set = MatchSet::new(5);
    set.record(&s("a.example"));
    set.record(&s("b.example"));
    assert_eq!(set.drain(), vec![s("a.example"), s("b.example")]);
    assert_eq!(set.len(), 0);
    assert!(!set.contains(&s("a.example")));
    assert_eq!(set.drain(), Vec::<String>::new());
}
