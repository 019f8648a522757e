//! The values a run starts from when nothing else is configured.

use vstd::prelude::*;
use vstd::string::*;
use crate::engine::Settings;
use crate::text::texts;

verus! {

/// The retries a lookup may issue after its first query.
pub const MAX_RETRIES: u32 = 2;

/// The lookups that may be in flight at once.
pub const NUM_TASKS: usize = 50;

/// The number of pending matches at which they are written out.
pub const WRITE_THRESHOLD: usize = 100;

/// The seconds after which a query counts as timed out.
pub const RESOLVER_TIMEOUT: u64 = 5;

/// The milliseconds to wait after a timeout.
pub const RETRY_DELAY_MS: u64 = 500;

/// The name servers of the pool, in pool order.
pub open spec fn dns_servers_spec() -> Seq<Seq<char>> {
    seq![
        "101.101.101.101"@,
        "168.95.1.1"@,
        "168.95.192.1"@,
        "61.31.233.1"@,
        "203.133.1.7"@,
        "203.133.1.6"@,
        "210.243.121.155"@,
    ]
}

/// The watched addresses.
pub open spec fn target_ips_spec() -> Seq<Seq<char>> {
    seq!["182.173.0.181"@]
}

/// The name servers of the pool, in pool order.
pub fn dns_servers() -> (servers: Vec<String>)
    ensures
        texts(servers@) == dns_servers_spec(),
{
    let mut servers: Vec<String> = Vec::new();
    servers.push(String::from_str("101.101.101.101"));
    servers.push(String::from_str("168.95.1.1"));
    servers.push(String::from_str("168.95.192.1"));
    servers.push(String::from_str("61.31.233.1"));
    servers.push(String::from_str("203.133.1.7"));
    servers.push(String::from_str("203.133.1.6"));
    servers.push(String::from_str("210.243.121.155"));
    assert(texts(servers@) =~= dns_servers_spec());
    servers
}

/// The watched addresses.
pub fn target_ips() -> (targets: Vec<String>)
    ensures
        texts(targets@) == target_ips_spec(),
{
    let mut targets: Vec<String> = Vec::new();
    targets.push(String::from_str("182.173.0.181"));
    assert(texts(targets@) =~= target_ips_spec());
    targets
}

/// The settings of a run that configures nothing.
pub fn default_settings() -> (settings: Settings)
    ensures
        settings.max_retries == MAX_RETRIES,
        settings.budget == NUM_TASKS,
        settings.flush_threshold == WRITE_THRESHOLD,
        texts(settings.targets@) == target_ips_spec(),
{
    Settings {
        max_retries: MAX_RETRIES,
        budget: NUM_TASKS,
        flush_threshold: WRITE_THRESHOLD,
        targets: target_ips(),
    }
}

} // verus!
