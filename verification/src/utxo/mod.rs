//! Unspent transaction outputs: the store, the cache in front of it and the
//! flushing of one into the other.

pub mod map;
pub mod types;
pub mod cache;
pub mod db;
