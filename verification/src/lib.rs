//! Bulk DNS sweep engine: the decision logic behind resolving a large list of
//! domains against a fixed pool of resolvers and collecting those that resolve
//! to a watched address.

pub mod aggregator;
pub mod config;
pub mod domains;
pub mod engine;
pub mod ledger;
pub mod lookup;
pub mod monitor;
pub mod pool;
pub mod scheduler;
pub mod selector;
pub mod text;
