//! What the networking layer decides by itself.

pub mod mock;
pub mod addr;
pub mod backend;
pub mod peer_info;
