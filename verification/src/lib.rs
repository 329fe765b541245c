//! Client-side component of a Raft consensus cluster: it tracks cluster
//! membership, routes read queries round-robin across the replicas, routes
//! write commands to the tracked leader, and preserves per-client read
//! consistency through a monotonic `(log id, log term)` watermark.
//!
//! All remote calls are performed by the embedding program; this crate holds
//! the decision logic — member reconciliation, target selection, watermark
//! ratcheting, bounded retry — and proves its contracts.

pub mod ratchet;
pub mod types;
pub mod membership;
pub mod client;
pub mod rotation;
