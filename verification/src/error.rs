//! The errors of the networking and synchronisation layer.

use vstd::prelude::*;

verus! {

/// Errors that concern one peer.
#[derive(Clone, Copy, Debug, PartialEq, Eq, Structural)]
pub enum PeerError {
    /// No record of the peer exists.
    PeerDoesntExist,
    /// A record of the peer exists already.
    PeerAlreadyExists,
}

/// The names of the states that a connection or an exchange can be in.
#[derive(Clone, Copy, Debug, PartialEq, Eq, Structural)]
pub enum StateName {
    /// No pending connection.
    Absent,
    /// An outbound connection has been dialed.
    Dialed,
    /// An outbound connection has been accepted by the remote.
    OutboundAccepted,
    /// An inbound connection has been accepted locally.
    InboundAccepted,
    /// Nothing has been asked of the peer.
    Unknown,
    /// The peer owes headers.
    UploadingHeaders,
    /// The peer owes a block.
    UploadingBlocks,
    /// The peer owes nothing.
    Idle,
    /// A request to the peer is in flight.
    RequestInFlight,
    /// No request to the peer is in flight.
    NoRequest,
}

/// Violations of the protocol by a peer.
#[derive(Clone, Copy, Debug, PartialEq, Eq, Structural)]
pub enum ProtocolError {
    /// The peer speaks another protocol or another network.
    InvalidProtocol,
    /// A message could not be decoded or does not fit the exchange.
    InvalidMessage,
    /// An event arrived in a state that does not allow it: the state found
    /// and the state expected.
    InvalidState(StateName, StateName),
    /// The headers sent do not connect to any block known locally.
    UnconnectedHeaders,
    /// A block was sent that was not asked for.
    UnexpectedBlock,
    /// A block was rejected by validation.
    InvalidBlock,
}

/// Why an outbound connection failed.
#[derive(Clone, Copy, Debug, PartialEq, Eq, Structural)]
pub enum DialError {
    AddrInUse,
    ConnectionRefused,
    Other,
}

/// Why a message could not be published.
#[derive(Clone, Copy, Debug, PartialEq, Eq, Structural)]
pub enum PublishError {
    /// The encoded message is larger than the largest frame: its size and the limit.
    MessageTooLarge(usize, usize),
}

/// Errors of the networking and synchronisation layer.
#[derive(Clone, Copy, Debug, PartialEq, Eq, Structural)]
pub enum P2pError {
    /// A channel to another subsystem is closed; nothing more can be done.
    ChannelClosed,
    PeerError(PeerError),
    ProtocolError(ProtocolError),
    DialError(DialError),
    PublishError(PublishError),
    /// An address could not be converted.
    InvalidAddress,
    /// A response or an error names a request that is not being tracked.
    RequestDoesntExist,
    /// The local storage failed.
    StorageFailure,
}

impl P2pError {
    /// Whether the manager must stop on this error, rather than drop a peer.
    pub open spec fn spec_is_fatal(self) -> bool {
        self == P2pError::ChannelClosed || self == P2pError::StorageFailure
    }

    /// Whether the manager must stop on this error: errors rooted in the
    /// local node are fatal, errors rooted in a peer are not.
    pub fn is_fatal(&self) -> (r: bool)
        ensures
            r == self.spec_is_fatal(),
    {
        match self {
            P2pError::ChannelClosed => true,
            P2pError::StorageFailure => true,
            _ => false,
        }
    }
}

} // verus!
