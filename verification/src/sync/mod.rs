//! Block synchronisation: the locator exchange, the per-peer state machine,
//! the request tracker and the manager that drives them.

pub mod locator;
pub mod message;
pub mod request;
pub mod table;
pub mod peer;
pub mod providers;
pub mod manager;
pub mod handlers;
pub mod events;
pub mod config;
