//! What the memory pool decides by fee.

pub mod feerate;
