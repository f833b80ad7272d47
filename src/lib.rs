//! Verified core of a peer-to-peer node runtime: the bounded event log that the
//! background scheduler fills, the per-peer connection counters, the run
//! controller that hands the network engine back and forth, the
//! classification of engine occurrences into events, and the node's settings.
//!
//! Beside the core stand the bookkeeping registries that callers use next to
//! the node: discovery, publish/subscribe, relay, stream and transport
//! registries, a multiaddress builder, record stores, hashing and key pairs.

pub mod address;
pub mod config;
pub mod crypto;
pub mod discovery;
pub mod error;
pub mod events;
pub mod node_info;
pub mod occurrence;
pub mod protocols;
pub mod registry;
pub mod runner;
pub mod scheduler;
pub mod stats;
pub mod storage;
pub mod text;
pub mod text_set;
pub mod transport;
pub mod view;
