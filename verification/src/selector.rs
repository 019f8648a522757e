//! Deterministic assignment of a domain to one resolver of the pool.

use vstd::prelude::*;
use vstd::string::*;

verus! {

/// The 64-bit CityHash of a byte string.
pub uninterp spec fn city_hash64(bytes: Seq<u8>) -> u64;

/// Calls `fasthash::city::hash64`, which hands the bytes to the unseeded
/// CityHash64 routine. The hash is a function of the bytes alone, and the
/// contract only gives it its name.
#[verifier::external_body]
fn hash_bytes(bytes: &[u8]) -> (h: u64)
    ensures
        h == city_hash64(bytes@),
{
    fasthash::city::hash64(bytes)
}

/// The pool position that a hash value falls on.
pub open spec fn slot_of(hash: u64, pool_size: nat) -> int {
    hash as int % pool_size as int
}

/// The pool position of a domain: its hash reduced modulo the pool size.
pub open spec fn select_spec(domain: Seq<char>, pool_size: nat) -> int {
    slot_of(city_hash64(vstd::utf8::encode_utf8(domain)), pool_size)
}

/// Reduces a hash value to a position in a pool of `pool_size` resolvers.
pub fn index_for_hash(hash: u64, pool_size: usize) -> (idx: usize)
    requires
        pool_size > 0,
    ensures
        idx == slot_of(hash, pool_size as nat),
        idx < pool_size,
{
    let r: u64 = hash % (pool_size as u64);
    r as usize
}

/// The position of a domain is a position of the pool, whatever the domain
/// and however large the pool.
pub proof fn lemma_select_in_range(domain: Seq<char>, pool_size: nat)
    requires
        pool_size > 0,
    ensures
        0 <= select_spec(domain, pool_size) < pool_size,
{
}

/// Picks the resolver for a domain. The choice depends on the domain's bytes
/// and the pool size only, so a domain always meets the same resolver.
pub fn select(domain: &str, pool_size: usize) -> (idx: usize)
    requires
        pool_size > 0,
    ensures
        idx == select_spec(domain@, pool_size as nat),
        idx < pool_size,
{
    let h: u64 = hash_bytes(domain.as_bytes());
    index_for_hash(h, pool_size)
}

} // verus!
