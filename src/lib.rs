//! Contract lifecycle core for a small set of Ethereum lab contracts: a
//! per-name deploy-or-attach registry, the artifact side of the chain
//! client, revert-reason decoding and a single-subscriber progress
//! broadcaster.

pub mod address;
pub mod revert;
pub mod client;
pub mod pairs;
pub mod registry;
pub mod debug;
pub mod events;
pub mod text;
pub mod block;
