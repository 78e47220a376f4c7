//! The maps that a storage backend offers.

use vstd::prelude::*;

verus! {

/// Why a storage operation failed.
#[derive(Clone, Copy, Debug, PartialEq, Eq, Structural)]
pub enum Error {
    /// The backend failed in a way that may pass.
    Recoverable,
    /// The backend failed for good.
    Unrecoverable,
}

/// Map taking a key to a value
pub trait SingleMap {
    /// Check if the key exists in the map
    fn has_key(&self, key: &[u8]) -> Result<bool, Error>;

    /// Get the value.
    fn get(&self, key: &[u8]) -> Result<Option<Vec<u8>>, Error>;

    /// Put value into the entry
    fn put(&mut self, key: &[u8], val: &[u8]) -> Result<(), Error>;

    /// Remove the value
    fn remove(&mut self, key: &[u8]) -> Result<(), Error>;
}

/// Map taking a key to multiple values
pub trait MultiMap {

}

} // verus!
