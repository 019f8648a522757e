use dns_sweep::config::{
    default_settings, dns_servers, target_ips, MAX_RETRIES, NUM_TASKS, RESOLVER_TIMEOUT,
    RETRY_DELAY_MS, WRITE_THRESHOLD,
};
use dns_sweep::domains::{clean_line, collect_domains, render};
use dns_sweep::ledger::TimeoutLedger;
use dns_sweep::monitor::RateMonitor;
use dns_sweep::pool::{plan_pool, plan_resolver, Transport, DNS_PORT};
use dns_sweep::text::contains_text;

fn strings(items: &[&str]) -> Vec<String> {
    items.iter().map(|s| s.to_string()).collect()
}

#[test]
fn clean_line_trims_whitespace() {
    assert_eq!(clean_line(&"  example.com \t".to_string()), Some("example.com".to_string()));
    assert_eq!(clean_line(&"example.com\r".to_string()), Some("example.com".to_string()));
    assert_eq!(clean_line(&"example.com".to_string()), Some("example.com".to_string()));
    assert_eq!(clean_line(&"\u{a0}example.com\u{3000}".to_string()), Some("example.com".to_string()));
}

#[test]
fn clean_line_keeps_inner_whitespace() {
    assert_eq!(clean_line(&" a b ".to_string()), Some("a b".to_string()));
}

#[test]
fn clean_line_drops_blank_lines() {
    assert_eq!(clean_line(&"".to_string()), None);
    assert_eq!(clean_line(&"   ".to_string()), None);
    assert_eq!(clean_line(&"\t\r".to_string()), None);
}

#[test]
fn collect_domains_skips_blank_lines_and_keeps_order() {
    let lines = strings(&["a.example", "", "  b.example  ", "   ", "c.example\r", "\t"]);
    assert_eq!(collect_domains(&lines), strings(&["a.example", "b.example", "c.example"]));
}

#[test]
fn collect_domains_of_nothing_is_nothing() {
    assert_eq!(collect_domains(&Vec::new()), Vec::<String>::new());
    assert_eq!(collect_domains(&strings(&["", " "])), Vec::<String>::new());
}

#[test]
fn collect_domains_keeps_duplicates() {
    let lines = strings(&["a.example", "a.example"]);
    assert_eq!(collect_domains(&lines), strings(&["a.example", "a.example"]));
}

#[test]
fn render_ends_every_domain_with_a_line_feed() {
    assert_eq!(render(&strings(&["a.example", "b.example"])), "a.example\nb.example\n");
    assert_eq!(render(&strings(&["only.example"])), "only.example\n");
}

#[test]
fn render_of_nothing_is_empty() {
    assert_eq!(render(&Vec::new()), "");
}

#[test]
fn rendered_text_reads_back() {
    let domains = strings(&["a.example", "b.example", "c.example"]);
    let text = render(&domains);
    let lines: Vec<String> = text.lines().map(|l| l.to_string()).collect();
    assert_eq!(collect_domains(&lines), domains);
}

#[test]
fn a_new_ledger_counts_nothing() {
    let ledger = TimeoutLedger::new(7);
    assert_eq!(ledger.len(), 7);
    assert_eq!(ledger.tallies(), vec![0u32; 7]);
    for r in 0..7 {
        assert_eq!(ledger.count(r), 0);
    }
}

#[test]
fn the_ledger_counts_by_resolver() {
    let mut ledger = TimeoutLedger::new(3);
    assert_eq!(ledger.record(1), 1);
    assert_eq!(ledger.record(1), 2);
    assert_eq!(ledger.record(2), 1);
    assert_eq!(ledger.record(1), 3);
    assert_eq!(ledger.count(0), 0);
    assert_eq!(ledger.count(1), 3);
    assert_eq!(ledger.count(2), 1);
    assert_eq!(ledger.tallies(), vec![0, 3, 1]);
}

#[test]
fn an_empty_ledger_has_no_counters() {
    let ledger = TimeoutLedger::new(0);
    assert_eq!(ledger.len(), 0);
    assert_eq!(ledger.tallies(), Vec::<u32>::new());
}

#[test]
fn the_monitor_reports_the_difference_to_the_last_sample() {
    let mut monitor = RateMonitor::new();
    assert_eq!(monitor.baseline(), 0);
    assert_eq!(monitor.sample(10), 10);
    assert_eq!(monitor.baseline(), 10);
    assert_eq!(monitor.sample(10), 0);
    assert_eq!(monitor.sample(35), 25);
    assert_eq!(monitor.baseline(), 35);
}

#[test]
fn the_rates_add_up_to_the_last_sample() {
    let mut monitor = RateMonitor::new();
    let samples = [0usize, 3, 3, 40, 41, 100];
    let mut sum = 0usize;
    for c in samples.iter() {
        sum += monitor.sample(*c);
    }
    assert_eq!(sum, 100);
}

#[test]
fn a_resolver_is_planned_on_port_53_over_udp() {
    let plan = plan_resolver(&"101.101.101.101".to_string(), 5);
    assert_eq!(plan.endpoint, "101.101.101.101:53");
    assert_eq!(plan.transport, Transport::Udp);
    assert!(!plan.trust_negative_responses);
    assert_eq!(plan.timeout_secs, 5);
    assert_eq!(plan.concurrent_requests, 0);
    assert_eq!(DNS_PORT, 53);
}

#[test]
fn the_pool_has_one_resolver_per_server_in_order() {
    let servers = strings(&["1.1.1.1", "8.8.8.8", "9.9.9.9"]);
    let plans = plan_pool(&servers, 7);
    assert_eq!(plans.len(), 3);
    assert_eq!(plans[0].endpoint, "1.1.1.1:53");
    assert_eq!(plans[1].endpoint, "8.8.8.8:53");
    assert_eq!(plans[2].endpoint, "9.9.9.9:53");
    for plan in plans.iter() {
        assert_eq!(plan.transport, Transport::Udp);
        assert!(!plan.trust_negative_responses);
        assert_eq!(plan.timeout_secs, 7);
        assert_eq!(plan.concurrent_requests, 0);
    }
}

#[test]
fn an_empty_server_list_plans_an_empty_pool() {
    assert_eq!(plan_pool(&Vec::new(), 5).len(), 0);
}

#[test]
fn the_defaults_are_the_documented_ones() {
    assert_eq!(MAX_RETRIES, 2);
    assert_eq!(NUM_TASKS, 50);
    assert_eq!(WRITE_THRESHOLD, 100);
    assert_eq!(RESOLVER_TIMEOUT, 5);
    assert_eq!(RETRY_DELAY_MS, 500);
    assert_eq!(
        dns_servers(),
        strings(&[
            "101.101.101.101",
            "168.95.1.1",
            "168.95.192.1",
            "61.31.233.1",
            "203.133.1.7",
            "203.133.1.6",
            "210.243.121.155",
        ])
    );
    assert_eq!(target_ips(), strings(&["182.173.0.181"]));
    let settings = default_settings();
    assert_eq!(settings.max_retries, 2);
    assert_eq!(settings.budget, 50);
    assert_eq!(settings.flush_threshold, 100);
    assert_eq!(settings.targets, strings(&["182.173.0.181"]));
}

#[test]
fn contains_text_compares_whole_strings() {
    let list = strings(&["a.example", "b.example"]);
    assert!(contains_text(&list, &"a.example".to_string()));
    assert!(contains_text(&list, &"b.example".to_string()));
    assert!(!contains_text(&list, &"a.exampl".to_string()));
    assert!(!contains_text(&list, &"".to_string()));
    assert!(!contains_text(&Vec::new(), &"a.example".to_string()));
}
