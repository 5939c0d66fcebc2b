//! Core logic of a Kademlia-style peer-discovery protocol: an XOR-metric
//! routing table, a per-peer session state machine with LRU eviction, a
//! pending-request store with a retry policy, an iterative lookup engine,
//! an inbound abuse filter, and an external-address reachability monitor.

pub mod config;
pub mod counting;
pub mod filter;
pub mod ident;
pub mod query;
pub mod reachability;
pub mod record;
pub mod request;
pub mod session;
pub mod table;
