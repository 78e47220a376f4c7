//! The limits of the sync manager: how often a request is sent again and
//! how long an answer or a peer is waited for.

use crate::sync::request::{MAX_RETRIES, REQUEST_TIMEOUT_SECS};
use vstd::prelude::*;

verus! {

/// The number of request timeouts after which a peer that has not been
/// heard of is given up.
pub const INACTIVITY_TIMEOUT_FACTOR: u64 = 10;

/// The limits of the sync manager.
#[derive(Clone, Copy, Debug, PartialEq, Eq, Structural)]
pub struct SyncConfig {
    /// How often a request is sent again before the peer is dropped.
    pub max_retries: u32,
    /// The seconds after which a request without an answer has timed out.
    pub request_timeout_secs: u32,
}

impl SyncConfig {
    /// The limits that hold unless configured otherwise: three further
    /// sends, and thirty seconds for an answer.
    pub fn new() -> (r: SyncConfig)
        ensures
            r.max_retries == MAX_RETRIES,
            r.request_timeout_secs == REQUEST_TIMEOUT_SECS,
            r.spec_inactivity_timeout_secs() == 300,
    {
        SyncConfig { max_retries: MAX_RETRIES, request_timeout_secs: REQUEST_TIMEOUT_SECS }
    }

    /// The seconds after which a peer that has not been heard of is given
    /// up: ten request timeouts.
    pub open spec fn spec_inactivity_timeout_secs(self) -> int {
        INACTIVITY_TIMEOUT_FACTOR * self.request_timeout_secs
    }

    /// The seconds after which a peer that has not been heard of is given up.
    pub fn inactivity_timeout_secs(&self) -> (r: u64)
        ensures
            r == self.spec_inactivity_timeout_secs(),
    {
        INACTIVITY_TIMEOUT_FACTOR * (self.request_timeout_secs as u64)
    }

    /// Whether a request that was sent at `sent_at` has timed out at `now`,
    /// both in seconds since one start.
    pub fn request_timed_out(&self, sent_at: u64, now: u64) -> (r: bool)
        ensures
            r == (now - sent_at >= self.request_timeout_secs),
    {
        now >= sent_at && now - sent_at >= self.request_timeout_secs as u64
    }

    /// Whether a peer that was last heard of at `last_seen` is to be given
    /// up at `now`, both in seconds since one start.
    pub fn peer_inactive(&self, last_seen: u64, now: u64) -> (r: bool)
        ensures
            r == (now - last_seen >= self.spec_inactivity_timeout_secs()),
    {
        now >= last_seen && now - last_seen >= self.inactivity_timeout_secs()
    }
}

} // verus!
