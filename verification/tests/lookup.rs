use dns_sweep::lookup::{first_match, Lookup, Outcome, Phase, Reply};

fn strings(items: &[&str]) -> Vec<String> {
    items.iter().map(|s| s.to_string()).collect()
}

#[test]
fn a_fresh_lookup_is_attempting() {
    let l = Lookup::start(2);
    assert!(l.is_active());
    assert_eq!(l.phase(), Phase::Attempting);
    assert_eq!(l.outcome(), None);
    assert_eq!(l.retries(), 0);
    assert_eq!(l.max_retries(), 2);
}

#[test]
fn an_answer_with_a_watched_address_matches() {
    let targets = strings(&["182.173.0.181"]);
    let mut l = Lookup::start(2);
    let hit = l.step(&Reply::Addresses(strings(&["10.0.0.1", "182.173.0.181", "10.0.0.2"])), &targets);
    assert_eq!(hit, Some(1));
    assert_eq!(l.outcome(), Some(Outcome::Matched));
    assert_eq!(l.retries(), 0);
    assert!(!l.is_active());
}

#[test]
fn an_answer_without_a_watched_address_does_not_match() {
    let targets = strings(&["182.173.0.181"]);
    let mut l = Lookup::start(2);
    let hit = l.step(&Reply::Addresses(strings(&["10.0.0.1", "10.0.0.2"])), &targets);
    assert_eq!(hit, None);
    assert_eq!(l.outcome(), Some(Outcome::Unmatched));
}

#[test]
fn an_empty_answer_does_not_match() {
    let targets = strings(&["182.173.0.181"]);
    let mut l = Lookup::start(2);
    let hit = l.step(&Reply::Addresses(Vec::new()), &targets);
    assert_eq!(hit, None);
    assert_eq!(l.outcome(), Some(Outcome::Unmatched));
}

#[test]
fn no_records_ends_the_lookup_without_retry() {
    let targets = strings(&["182.173.0.181"]);
    let mut l = Lookup::start(2);
    assert_eq!(l.step(&Reply::NoRecords, &targets), None);
    assert_eq!(l.outcome(), Some(Outcome::NoRecords));
    assert_eq!(l.retries(), 0);
}

#[test]
fn another_failure_ends_the_lookup_without_retry() {
    let targets = strings(&["182.173.0.181"]);
    let mut l = Lookup::start(2);
    assert_eq!(l.step(&Reply::Failed, &targets), None);
    assert_eq!(l.outcome(), Some(Outcome::OtherError));
    assert_eq!(l.retries(), 0);
}

#[test]
fn timeouts_retry_until_the_bound() {
    let targets = strings(&["182.173.0.181"]);
    let mut l = Lookup::start(2);
    l.step(&Reply::TimedOut, &targets);
    assert_eq!(l.phase(), Phase::Attempting);
    assert_eq!(l.retries(), 1);
    l.step(&Reply::TimedOut, &targets);
    assert_eq!(l.phase(), Phase::Attempting);
    assert_eq!(l.retries(), 2);
    l.step(&Reply::TimedOut, &targets);
    assert_eq!(l.phase(), Phase::Done(Outcome::RetriesExhausted));
    assert_eq!(l.retries(), 2);
}

#[test]
fn no_more_than_max_retries_plus_one_attempts() {
    let targets = strings(&["182.173.0.181"]);
    for max in 0..6u32 {
        let mut l = Lookup::start(max);
        let mut attempts = 0u32;
        while l.is_active() {
            attempts += 1;
            l.step(&Reply::TimedOut, &targets);
            assert!(attempts <= max + 1);
        }
        assert_eq!(attempts, max + 1);
        assert_eq!(l.outcome(), Some(Outcome::RetriesExhausted));
    }
}

#[test]
fn zero_retries_gives_one_attempt() {
    let targets = strings(&[]);
    let mut l = Lookup::start(0);
    l.step(&Reply::TimedOut, &targets);
    assert_eq!(l.outcome(), Some(Outcome::RetriesExhausted));
    assert_eq!(l.retries(), 0);
}

#[test]
fn a_retry_can_still_succeed() {
    let targets = strings(&["182.173.0.181"]);
    let mut l = Lookup::start(2);
    l.step(&Reply::TimedOut, &targets);
    let hit = l.step(&Reply::Addresses(strings(&["182.173.0.181"])), &targets);
    assert_eq!(hit, Some(0));
    assert_eq!(l.outcome(), Some(Outcome::Matched));
    assert_eq!(l.retries(), 1);
}

#[test]
fn a_finished_lookup_ignores_later_replies() {
    let targets = strings(&["182.173.0.181"]);
    let mut l = Lookup::start(2);
    l.step(&Reply::NoRecords, &targets);
    let hit = l.step(&Reply::Addresses(strings(&["182.173.0.181"])), &targets);
    assert_eq!(hit, None);
    assert_eq!(l.outcome(), Some(Outcome::NoRecords));
    l.step(&Reply::TimedOut, &targets);
    assert_eq!(l.outcome(), Some(Outcome::NoRecords));
    assert_eq!(l.retries(), 0);
}

#[test]
fn first_match_finds_the_first_watched_address() {
    let targets = strings(&["1.1.1.1", "2.2.2.2"]);
    assert_eq!(first_match(&strings(&["9.9.9.9", "2.2.2.2", "1.1.1.1"]), &targets), Some(1));
    assert_eq!(first_match(&strings(&["1.1.1.1"]), &targets), Some(0));
    assert_eq!(first_match(&strings(&["9.9.9.9"]), &targets), None);
    assert_eq!(first_match(&strings(&[]), &targets), None);
    assert_eq!(first_match(&strings(&["1.1.1.1"]), &strings(&[])), None);
}

#[test]
fn addresses_are_compared_as_text() {
    let targets = strings(&["182.173.0.181"]);
    assert_eq!(first_match(&strings(&["182.173.0.18", "182.173.0.1811", "182.173.000.181"]), &targets), None);
}
