//! The identifiers of the mock networking service.

use vstd::prelude::*;

verus! {

/// How the mock service discovers peers: it does not.
#[derive(Clone, Copy, Debug, PartialEq, Eq, Structural)]
pub enum MockDiscoveryStrategy {
    /// No discovery.
    Disabled,
}

#[derive(Clone, Copy, Debug)]
pub struct MockService;

#[derive(Debug, Copy, Clone)]
pub struct MockMessageId(pub u64);

#[derive(Debug, Copy, Clone, PartialEq, Eq, Structural, Hash)]
pub struct MockRequestId(pub u64);

impl MockRequestId {
    /// The number by which the request tracker knows the request.
    pub fn as_request_id(&self) -> (r: crate::sync::request::RequestId)
        ensures
            r == self.0,
    {
        self.0
    }
}

} // verus!
