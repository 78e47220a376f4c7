//! The wire encoding of blocks and of what they are made of.

pub mod prim;
pub mod wire;
pub mod chain;
pub mod message;
