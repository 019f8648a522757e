//! How each resolver of the pool is to be set up.

use vstd::prelude::*;
use vstd::string::*;
use crate::text::texts;

verus! {

/// The port every name server is asked on.
pub const DNS_PORT: u16 = 53;

/// The transport a resolver speaks to its server.
#[derive(Clone, Copy, Debug, PartialEq, Eq, Structural)]
pub enum Transport {
    /// Plain datagrams.
    Udp,
    /// A stream connection.
    Tcp,
}

/// The settings of one resolver, as plain values.
#[derive(Debug)]
pub struct ResolverPlan {
    /// The server's socket address as text: the host, a colon and the port.
    pub endpoint: String,
    /// The transport to the server.
    pub transport: Transport,
    /// Whether a negative answer of the server is taken as authoritative.
    pub trust_negative_responses: bool,
    /// The seconds after which a query counts as timed out.
    pub timeout_secs: u64,
    /// The cap on concurrent requests; zero leaves it to the transport.
    pub concurrent_requests: usize,
}

/// The socket address of a server as text.
pub open spec fn endpoint_spec(server: Seq<char>) -> Seq<char> {
    server + seq![':', '5', '3']
}

impl ResolverPlan {
    /// The plan describes a resolver for `server` with the given timeout:
    /// datagrams to port 53, negative answers not trusted, no cap on
    /// concurrent requests.
    pub open spec fn is_for(&self, server: Seq<char>, timeout_secs: u64) -> bool {
        &&& self.endpoint@ == endpoint_spec(server)
        &&& self.transport == Transport::Udp
        &&& !self.trust_negative_responses
        &&& self.timeout_secs == timeout_secs
        &&& self.concurrent_requests == 0
    }
}

/// Plans the resolver for one server.
pub fn plan_resolver(server: &String, timeout_secs: u64) -> (plan: ResolverPlan)
    ensures
        plan.is_for(server@, timeout_secs),
{
    let mut endpoint = server.clone();
    endpoint.append(":53");
    proof {
        reveal_strlit(":53");
        assert(":53"@ =~= seq![':', '5', '3']);
    }
    ResolverPlan {
        endpoint,
        transport: Transport::Udp,
        trust_negative_responses: false,
        timeout_secs,
        concurrent_requests: 0,
    }
}

/// Plans the pool: one resolver for each server, in the servers' order.
pub fn plan_pool(servers: &Vec<String>, timeout_secs: u64) -> (plans: Vec<ResolverPlan>)
    ensures
        plans@.len() == servers@.len(),
        forall|i: int|
            0 <= i < servers@.len() ==> (#[trigger] plans@[i]).is_for(
                texts(servers@)[i],
                timeout_secs,
            ),
{
    let mut plans: Vec<ResolverPlan> = Vec::new();
    let mut i: usize = 0;
    while i < servers.len()
        invariant
            i <= servers.len(),
            plans@.len() == i,
            forall|j: int|
                0 <= j < i ==> (#[trigger] plans@[j]).is_for(texts(servers@)[j], timeout_secs),
        decreases servers.len() - i,
    {
        plans.push(plan_resolver(&servers[i], timeout_secs));
        i += 1;
    }
    plans
}

} // verus!
