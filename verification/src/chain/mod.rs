//! Blocks, transactions and the chain configuration.

pub mod block;
pub mod config;
pub mod transaction;
