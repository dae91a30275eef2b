//! Block production and consensus core of a permissioned, stake-weighted
//! BFT blockchain node, together with the node-side services around it.

pub mod config;
pub mod digest;
pub mod validators;
pub mod block;
pub mod escrow;
pub mod chain;
pub mod mempool;
pub mod consensus;
pub mod safety;
pub mod builder;
pub mod loader;
pub mod node;
pub mod txpool;
pub mod pubsub;
pub mod index;
pub mod storage;
pub mod console;
pub mod generator;
pub mod broker;
pub mod genesis;
pub mod settings;
pub mod history;
pub mod wire;
pub mod liveness;
