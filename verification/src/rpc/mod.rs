//! What the remote procedure call layer decides by itself.

pub mod address;
pub mod api;
pub mod bytes;
pub mod testing;
pub mod uint;
