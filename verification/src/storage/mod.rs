//! Storage interface
//!
//! Storage is a collection of key-value maps. All operations on it happen
//! inside of a transaction.

pub mod traits;
pub mod transaction;
