//! The tracker of requests that are in flight: which peer each was sent to,
//! what it asked for and how often it has been sent.

use crate::error::P2pError;
use crate::primitives::BlockId;
use crate::sync::message::clone_ids;
use crate::sync::table::keys_of;
use std::collections::HashMap;
use vstd::prelude::*;

verus! {

/// The handle by which the transport names a peer.
pub type PeerId = u64;

/// The handle by which the transport names a request.
pub type RequestId = u64;

/// How often a request is sent again before the peer is given up, unless
/// configured otherwise.
pub const MAX_RETRIES: u32 = 3;

/// The seconds after which a request without an answer has timed out,
/// unless configured otherwise.
pub const REQUEST_TIMEOUT_SECS: u32 = 30;

/// What a request type is.
pub enum RequestTypeView {
    GetHeaders,
    GetBlocks(Seq<BlockId>),
}

/// Request type
#[derive(Debug, PartialEq, Eq)]
pub enum RequestType {
    /// Header request
    GetHeaders,
    /// Block request
    GetBlocks(Vec<BlockId>),
}

impl View for RequestType {
    type V = RequestTypeView;

    open spec fn view(&self) -> RequestTypeView {
        match self {
            RequestType::GetHeaders => RequestTypeView::GetHeaders,
            RequestType::GetBlocks(ids) => RequestTypeView::GetBlocks(ids@),
        }
    }
}

impl Clone for RequestType {
    fn clone(&self) -> (r: Self)
        ensures
            r@ == self@,
    {
        match self {
            RequestType::GetHeaders => RequestType::GetHeaders,
            RequestType::GetBlocks(ids) => RequestType::GetBlocks(clone_ids(ids)),
        }
    }
}

/// What the state of a request is.
pub struct RequestStateView {
    pub peer_id: PeerId,
    pub request_type: RequestTypeView,
    pub retry_count: u32,
}

/// Request state
#[derive(Debug, PartialEq, Eq)]
pub struct RequestState {
    /// Unique ID of the remote peer
    pub peer_id: PeerId,
    /// Request type
    pub request_type: RequestType,
    /// How many times the request has been sent again
    pub retry_count: u32,
}

impl View for RequestState {
    type V = RequestStateView;

    open spec fn view(&self) -> RequestStateView {
        RequestStateView {
            peer_id: self.peer_id,
            request_type: self.request_type@,
            retry_count: self.retry_count,
        }
    }
}

/// What the transport reports of a request that failed.
#[derive(Clone, Copy, Debug, PartialEq, Eq, Structural)]
pub enum TransportError {
    /// No answer came in time.
    Timeout,
    /// Reading or writing failed for the moment.
    TemporaryIo,
    /// The answer could not be decoded.
    Malformed,
    /// The answer carries the magic bytes of another chain.
    WrongMagic,
    /// The headers of the answer do not connect to a known block.
    UnconnectedHeaders,
    /// The channel to the transport is closed.
    ChannelClosed,
}

/// The three kinds of transport errors.
#[derive(Clone, Copy, Debug, PartialEq, Eq, Structural)]
pub enum ErrorClass {
    /// The request may succeed if sent again.
    Transient,
    /// The peer broke the protocol.
    Protocol,
    /// The local node cannot go on.
    Fatal,
}

impl TransportError {
    /// The kind of the error.
    pub open spec fn spec_class(self) -> ErrorClass {
        match self {
            TransportError::Timeout => ErrorClass::Transient,
            TransportError::TemporaryIo => ErrorClass::Transient,
            TransportError::Malformed => ErrorClass::Protocol,
            TransportError::WrongMagic => ErrorClass::Protocol,
            TransportError::UnconnectedHeaders => ErrorClass::Protocol,
            TransportError::ChannelClosed => ErrorClass::Fatal,
        }
    }

    /// The kind of the error.
    pub fn class(&self) -> (r: ErrorClass)
        ensures
            r == self.spec_class(),
    {
        match self {
            TransportError::Timeout => ErrorClass::Transient,
            TransportError::TemporaryIo => ErrorClass::Transient,
            TransportError::Malformed => ErrorClass::Protocol,
            TransportError::WrongMagic => ErrorClass::Protocol,
            TransportError::UnconnectedHeaders => ErrorClass::Protocol,
            TransportError::ChannelClosed => ErrorClass::Fatal,
        }
    }
}

/// What is to be done after a request failed, as a value of the model.
pub enum ErrorActionView {
    Resend { peer_id: PeerId, request_type: RequestTypeView, retry_count: u32 },
    Disconnect { peer_id: PeerId },
    Shutdown,
    Ignore,
}

/// What is to be done after a request failed.
#[derive(Debug, PartialEq, Eq)]
pub enum ErrorAction {
    /// Send the same request again; it has now been sent again this often.
    Resend { peer_id: PeerId, request_type: RequestType, retry_count: u32 },
    /// Drop the peer.
    Disconnect { peer_id: PeerId },
    /// Stop the manager.
    Shutdown,
    /// The request is not tracked: nothing is to be done.
    Ignore,
}

impl View for ErrorAction {
    type V = ErrorActionView;

    open spec fn view(&self) -> ErrorActionView {
        match self {
            ErrorAction::Resend { peer_id, request_type, retry_count } => ErrorActionView::Resend {
                peer_id: *peer_id,
                request_type: request_type@,
                retry_count: *retry_count,
            },
            ErrorAction::Disconnect { peer_id } => ErrorActionView::Disconnect { peer_id: *peer_id },
            ErrorAction::Shutdown => ErrorActionView::Shutdown,
            ErrorAction::Ignore => ErrorActionView::Ignore,
        }
    }
}

/// What `on_error` answers for a tracked request.
pub open spec fn error_action(
    entry: Option<RequestStateView>,
    err: TransportError,
    max_retries: u32,
) -> ErrorActionView {
    match err.spec_class() {
        ErrorClass::Fatal => ErrorActionView::Shutdown,
        ErrorClass::Protocol => match entry {
            Some(e) => ErrorActionView::Disconnect { peer_id: e.peer_id },
            None => ErrorActionView::Ignore,
        },
        ErrorClass::Transient => match entry {
            Some(e) => if e.retry_count < max_retries {
                ErrorActionView::Resend {
                    peer_id: e.peer_id,
                    request_type: e.request_type,
                    retry_count: (e.retry_count + 1) as u32,
                }
            } else {
                ErrorActionView::Disconnect { peer_id: e.peer_id }
            },
            None => ErrorActionView::Ignore,
        },
    }
}

/// The requests in flight, by the id that the transport gave each.
#[derive(Debug, PartialEq, Eq)]
pub struct RequestTracker {
    pub requests: HashMap<RequestId, RequestState>,
    pub max_retries: u32,
}

impl View for RequestTracker {
    type V = Map<RequestId, RequestStateView>;

    open spec fn view(&self) -> Map<RequestId, RequestStateView> {
        self.requests@.map_values(|r: RequestState| r@)
    }
}

/// Whether no two entries of the map name the same peer.
pub open spec fn one_request_per_peer(m: Map<RequestId, RequestStateView>) -> bool {
    forall|a: RequestId, b: RequestId|
        m.contains_key(a) && m.contains_key(b) && a != b ==> (#[trigger] m[a]).peer_id != (
        #[trigger] m[b]).peer_id
}

/// Whether an entry of the map names this peer.
pub open spec fn has_request_for(m: Map<RequestId, RequestStateView>, peer_id: PeerId) -> bool {
    exists|r: RequestId| m.contains_key(r) && (#[trigger] m[r]).peer_id == peer_id
}

/// The map without the entries that name this peer.
pub open spec fn without_peer(m: Map<RequestId, RequestStateView>, peer_id: PeerId) -> Map<
    RequestId,
    RequestStateView,
> {
    Map::new(|r: RequestId| m.contains_key(r) && m[r].peer_id != peer_id, |r: RequestId| m[r])
}

impl RequestTracker {
    /// The map is finite and no peer has two requests in flight.
    pub open spec fn wf(&self) -> bool {
        &&& self.requests@.dom().finite()
        &&& one_request_per_peer(self@)
    }

    /// An empty tracker that gives a request up after `MAX_RETRIES` further sends.
    pub fn new() -> (r: RequestTracker)
        ensures
            r.wf(),
            r@ == Map::<RequestId, RequestStateView>::empty(),
            r.max_retries == MAX_RETRIES,
    {
        let r = RequestTracker { requests: HashMap::new(), max_retries: MAX_RETRIES };
        assert(r@ =~= Map::<RequestId, RequestStateView>::empty());
        r
    }

    /// An empty tracker that gives a request up after `max_retries` further sends.
    pub fn with_max_retries(max_retries: u32) -> (r: RequestTracker)
        ensures
            r.wf(),
            r@ == Map::<RequestId, RequestStateView>::empty(),
            r.max_retries == max_retries,
    {
        let r = RequestTracker { requests: HashMap::new(), max_retries };
        assert(r@ =~= Map::<RequestId, RequestStateView>::empty());
        r
    }

    /// The number of requests in flight.
    pub fn len(&self) -> (r: usize)
        ensures
            r == self@.len(),
    {
        proof {
            assert(self@.dom() =~= self.requests@.dom());
        }
        self.requests.len()
    }

    /// Whether the request is tracked.
    pub fn contains(&self, request_id: RequestId) -> (r: bool)
        ensures
            r == self@.contains_key(request_id),
    {
        self.requests.contains_key(&request_id)
    }

    /// The request in flight to this peer, if there is one.
    pub fn find_by_peer(&self, peer_id: PeerId) -> (r: Option<RequestId>)
        ensures
            match r {
                Some(id) => self@.contains_key(id) && self@[id].peer_id == peer_id,
                None => !has_request_for(self@, peer_id),
            },
    {
        let keys = keys_of(&self.requests);
        let mut i: usize = 0;
        while i < keys.len()
            invariant
                i <= keys@.len(),
                forall|k: int| 0 <= k < keys@.len() ==> self.requests@.contains_key(#[trigger] keys@[k]),
                forall|k: u64| self.requests@.contains_key(k) ==> keys@.contains(k),
                forall|k: int| 0 <= k < i ==> self@[#[trigger] keys@[k]].peer_id != peer_id,
            decreases keys@.len() - i,
        {
            let k = keys[i];
            match self.requests.get(&k) {
                Some(e) => {
                    if e.peer_id == peer_id {
                        return Some(k);
                    }
                },
                None => {},
            }
            i = i + 1;
        }
        proof {
            assert forall|r: RequestId| self@.contains_key(r) implies (#[trigger] self@[r]).peer_id
                != peer_id by {
                assert(keys@.contains(r));
                let k = choose|k: int| 0 <= k < keys@.len() && keys@[k] == r;
                assert(self@[keys@[k]].peer_id != peer_id);
            }
        }
        None
    }

    /// Starts to track a request that has just been sent for the first time.
    ///
    /// Fails with `InvalidState` where a request to the same peer is in
    /// flight already, and then changes nothing.
    pub fn record(&mut self, request_id: RequestId, peer_id: PeerId, request_type: RequestType) -> (r:
        Result<(), P2pError>)
        requires
            old(self).wf(),
        ensures
            final(self).wf(),
            final(self).max_retries == old(self).max_retries,
            match r {
                Ok(_) => !has_request_for(old(self)@, peer_id) && final(self)@ == old(self)@.insert(
                    request_id,
                    RequestStateView { peer_id, request_type: request_type@, retry_count: 0 },
                ),
                Err(e) => has_request_for(old(self)@, peer_id) && final(self)@ == old(self)@ && e
                    == P2pError::ProtocolError(
                    crate::error::ProtocolError::InvalidState(
                        crate::error::StateName::RequestInFlight,
                        crate::error::StateName::NoRequest,
                    ),
                ),
            },
    {
        self.record_retry(request_id, peer_id, request_type, 0)
    }

    /// Starts to track a request that has been sent again `retry_count` times.
    ///
    /// Fails with `InvalidState` where a request to the same peer is in
    /// flight already, and then changes nothing.
    pub fn record_retry(
        &mut self,
        request_id: RequestId,
        peer_id: PeerId,
        request_type: RequestType,
        retry_count: u32,
    ) -> (r: Result<(), P2pError>)
        requires
            old(self).wf(),
        ensures
            final(self).wf(),
            final(self).max_retries == old(self).max_retries,
            match r {
                Ok(_) => !has_request_for(old(self)@, peer_id) && final(self)@ == old(self)@.insert(
                    request_id,
                    RequestStateView { peer_id, request_type: request_type@, retry_count },
                ),
                Err(e) => has_request_for(old(self)@, peer_id) && final(self)@ == old(self)@ && e
                    == P2pError::ProtocolError(
                    crate::error::ProtocolError::InvalidState(
                        crate::error::StateName::RequestInFlight,
                        crate::error::StateName::NoRequest,
                    ),
                ),
            },
    {
        match self.find_by_peer(peer_id) {
            Some(_) => {
                return Err(
                    P2pError::ProtocolError(
                        crate::error::ProtocolError::InvalidState(
                            crate::error::StateName::RequestInFlight,
                            crate::error::StateName::NoRequest,
                        ),
                    ),
                );
            },
            None => {},
        }
        let ghost before = self@;
        let entry = RequestState { peer_id, request_type, retry_count };
        self.requests.insert(request_id, entry);
        proof {
            assert(self@ =~= before.insert(request_id, entry@));
            assert forall|a: RequestId, b: RequestId|
                self@.contains_key(a) && self@.contains_key(b) && a != b implies (
            #[trigger] self@[a]).peer_id != (#[trigger] self@[b]).peer_id by {
                if a != request_id {
                    assert(before.contains_key(a));
                    assert(before[a].peer_id != peer_id);
                }
                if b != request_id {
                    assert(before.contains_key(b));
                    assert(before[b].peer_id != peer_id);
                }
            }
        }
        Ok(())
    }

    /// Stops tracking a request whose answer has come, and hands its state back.
    ///
    /// Fails with `RequestDoesntExist` where the request is not tracked.
    pub fn on_response(&mut self, request_id: RequestId) -> (r: Result<RequestState, P2pError>)
        requires
            old(self).wf(),
        ensures
            final(self).wf(),
            final(self).max_retries == old(self).max_retries,
            match r {
                Ok(s) => old(self)@.contains_key(request_id) && s@ == old(self)@[request_id]
                    && final(self)@ == old(self)@.remove(request_id),
                Err(e) => !old(self)@.contains_key(request_id) && e == P2pError::RequestDoesntExist
                    && final(self)@ == old(self)@,
            },
    {
        let ghost before = self@;
        match self.requests.remove(&request_id) {
            Some(s) => {
                assert(self@ =~= before.remove(request_id));
                Ok(s)
            },
            None => {
                assert(self@ =~= before);
                Err(P2pError::RequestDoesntExist)
            },
        }
    }

    /// Decides what follows from the failure of a request.
    ///
    /// A fatal error stops the manager and leaves the tracker as it is. An
    /// error of a request that is not tracked is ignored. Otherwise the
    /// request leaves the tracker: after a transient error it is to be sent
    /// again, unless it has been sent again `max_retries` times already;
    /// then, and after a protocol error, the peer is to be dropped.
    pub fn on_error(&mut self, request_id: RequestId, err: TransportError) -> (r: ErrorAction)
        requires
            old(self).wf(),
        ensures
            final(self).wf(),
            final(self).max_retries == old(self).max_retries,
            r@ == error_action(
                if old(self)@.contains_key(request_id) {
                    Some(old(self)@[request_id])
                } else {
                    None
                },
                err,
                old(self).max_retries,
            ),
            final(self)@ == if err.spec_class() == ErrorClass::Fatal {
                old(self)@
            } else {
                old(self)@.remove(request_id)
            },
    {
        let ghost before = self@;
        match err.class() {
            ErrorClass::Fatal => ErrorAction::Shutdown,
            ErrorClass::Protocol => match self.requests.remove(&request_id) {
                Some(s) => {
                    assert(self@ =~= before.remove(request_id));
                    ErrorAction::Disconnect { peer_id: s.peer_id }
                },
                None => {
                    assert(self@ =~= before.remove(request_id));
                    ErrorAction::Ignore
                },
            },
            ErrorClass::Transient => match self.requests.remove(&request_id) {
                Some(s) => {
                    assert(self@ =~= before.remove(request_id));
                    if s.retry_count < self.max_retries {
                        ErrorAction::Resend {
                            peer_id: s.peer_id,
                            request_type: s.request_type,
                            retry_count: s.retry_count + 1,
                        }
                    } else {
                        ErrorAction::Disconnect { peer_id: s.peer_id }
                    }
                },
                None => {
                    assert(self@ =~= before.remove(request_id));
                    ErrorAction::Ignore
                },
            },
        }
    }

    /// Stops tracking whatever is in flight to this peer.
    pub fn remove_peer(&mut self, peer_id: PeerId)
        requires
            old(self).wf(),
        ensures
            final(self).wf(),
            final(self).max_retries == old(self).max_retries,
            final(self)@ == without_peer(old(self)@, peer_id),
            !has_request_for(final(self)@, peer_id),
    {
        let ghost before = self@;
        match self.find_by_peer(peer_id) {
            Some(id) => {
                self.requests.remove(&id);
                proof {
                    assert(self@ =~= before.remove(id));
                    assert forall|r: RequestId| before.contains_key(r) && r != id implies (
                    #[trigger] before[r]).peer_id != peer_id by {
                        assert(before[id].peer_id == peer_id);
                    }
                    assert(self@ =~= without_peer(before, peer_id));
                }
            },
            None => {
                assert(self@ =~= without_peer(before, peer_id));
            },
        }
    }
}

} // verus!
