//! Block synchronisation for a blockchain node: chain primitives, the locator
//! exchange, the per-peer download state machine, the request tracker, the
//! two-level UTXO cache and the wire encoding, each with a proved contract.

pub mod bytes;
pub mod chain;
pub mod chainstate;
pub mod codec;
pub mod consensus;
pub mod error;
pub mod hexcode;
pub mod mempool;
pub mod net;
pub mod primitives;
pub mod rpc;
pub mod storage;
pub mod sync;
pub mod utxo;
