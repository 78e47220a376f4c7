//! The bookkeeping of the networking backend: which connections are
//! pending and in which state, and what follows from each event.

use crate::error::{P2pError, PeerError, ProtocolError, PublishError, StateName};
use crate::net::addr::{Multiaddr, Protocol};
use crate::sync::message::{Message, PubSubTopic, PUBSUB_MAX_FRAME_SIZE};
use crate::sync::request::PeerId;
use std::collections::HashMap;
use vstd::prelude::*;

verus! {

broadcast use vstd::std_specs::hash::group_hash_axioms;

/// What a pending connection is.
pub enum PendingStateView {
    Dialed(Seq<Protocol>),
    OutboundAccepted(Seq<Protocol>),
    InboundAccepted(Seq<Protocol>),
}

/// The state of a connection that is being set up, with the address of
/// the remote.
#[derive(Debug, PartialEq, Eq)]
pub enum PendingState {
    /// Outbound connection has been dialed, wait for `ConnectionEstablished` event
    Dialed(Multiaddr),
    /// Connection established for outbound connection
    OutboundAccepted(Multiaddr),
    /// Connection established for inbound connection
    InboundAccepted(Multiaddr),
}

impl View for PendingState {
    type V = PendingStateView;

    open spec fn view(&self) -> PendingStateView {
        match self {
            PendingState::Dialed(a) => PendingStateView::Dialed(a@),
            PendingState::OutboundAccepted(a) => PendingStateView::OutboundAccepted(a@),
            PendingState::InboundAccepted(a) => PendingStateView::InboundAccepted(a@),
        }
    }
}

impl PendingStateView {
    /// The name of the state.
    pub open spec fn name(self) -> StateName {
        match self {
            PendingStateView::Dialed(_) => StateName::Dialed,
            PendingStateView::OutboundAccepted(_) => StateName::OutboundAccepted,
            PendingStateView::InboundAccepted(_) => StateName::InboundAccepted,
        }
    }
}

/// What the end of a new connection is.
pub enum ConnectedPointView {
    Dialer,
    Listener { send_back_addr: Seq<Protocol> },
}

/// Which end of a new connection the local node is.
#[derive(Debug, PartialEq, Eq)]
pub enum ConnectedPoint {
    /// The local node dialed.
    Dialer,
    /// The local node listened; the remote is reached at this address.
    Listener { send_back_addr: Multiaddr },
}

impl View for ConnectedPoint {
    type V = ConnectedPointView;

    open spec fn view(&self) -> ConnectedPointView {
        match self {
            ConnectedPoint::Dialer => ConnectedPointView::Dialer,
            ConnectedPoint::Listener { send_back_addr } => ConnectedPointView::Listener {
                send_back_addr: send_back_addr@,
            },
        }
    }
}

/// The pending connections, by peer.
#[derive(Debug, PartialEq, Eq)]
pub struct PendingConnections {
    pub pending_conns: HashMap<PeerId, PendingState>,
}

impl View for PendingConnections {
    type V = Map<PeerId, PendingStateView>;

    open spec fn view(&self) -> Map<PeerId, PendingStateView> {
        self.pending_conns@.map_values(|s: PendingState| s@)
    }
}

/// What follows when a connection has been established: the pending
/// connections afterwards and the verdict.
///
/// On the dialing end the peer must have been dialed, and is then accepted
/// as outbound; in any other state the entry is dropped and the state is
/// reported; without an entry the peer does not exist. On the listening end
/// the peer must have no entry, and is then accepted as inbound; an entry
/// that is there is dropped and reported.
pub open spec fn spec_connection_established(
    pre: Map<PeerId, PendingStateView>,
    peer_id: PeerId,
    endpoint: ConnectedPointView,
) -> (Map<PeerId, PendingStateView>, Result<(), P2pError>) {
    match endpoint {
        ConnectedPointView::Dialer => if pre.contains_key(peer_id) {
            match pre[peer_id] {
                PendingStateView::Dialed(addr) => (
                    pre.insert(peer_id, PendingStateView::OutboundAccepted(addr)),
                    Ok(()),
                ),
                other => (
                    pre.remove(peer_id),
                    Err(
                        P2pError::ProtocolError(
                            ProtocolError::InvalidState(other.name(), StateName::Dialed),
                        ),
                    ),
                ),
            }
        } else {
            (pre, Err(P2pError::PeerError(PeerError::PeerDoesntExist)))
        },
        ConnectedPointView::Listener { send_back_addr } => if pre.contains_key(peer_id) {
            (
                pre.remove(peer_id),
                Err(
                    P2pError::ProtocolError(
                        ProtocolError::InvalidState(pre[peer_id].name(), StateName::Absent),
                    ),
                ),
            )
        } else {
            (pre.insert(peer_id, PendingStateView::InboundAccepted(send_back_addr)), Ok(()))
        },
    }
}

/// What is to be done after an outbound connection failed.
#[derive(Debug, PartialEq, Eq)]
pub enum ConnectionErrorAction {
    /// Report that the connection to this address was refused.
    ReportRefused(Multiaddr),
    /// Hand the error of the transport on.
    Propagate,
    /// Nothing: the error names no peer.
    Ignore,
}

/// What the action after a failed connection is.
pub enum ConnectionErrorActionView {
    ReportRefused(Seq<Protocol>),
    Propagate,
    Ignore,
}

impl View for ConnectionErrorAction {
    type V = ConnectionErrorActionView;

    open spec fn view(&self) -> ConnectionErrorActionView {
        match self {
            ConnectionErrorAction::ReportRefused(a) => ConnectionErrorActionView::ReportRefused(a@),
            ConnectionErrorAction::Propagate => ConnectionErrorActionView::Propagate,
            ConnectionErrorAction::Ignore => ConnectionErrorActionView::Ignore,
        }
    }
}

/// What follows when an outbound connection has failed: an error without a
/// peer is passed over; the entry of the peer is dropped; if the peer was
/// dialed or accepted as outbound, the refusal is reported for its address,
/// and else the error is handed on.
pub open spec fn spec_outgoing_connection_error(
    pre: Map<PeerId, PendingStateView>,
    peer_id: Option<PeerId>,
) -> (Map<PeerId, PendingStateView>, ConnectionErrorActionView) {
    match peer_id {
        None => (pre, ConnectionErrorActionView::Ignore),
        Some(p) => (
            pre.remove(p),
            if pre.contains_key(p) {
                match pre[p] {
                    PendingStateView::Dialed(a) => ConnectionErrorActionView::ReportRefused(a),
                    PendingStateView::OutboundAccepted(a) => ConnectionErrorActionView::ReportRefused(
                        a,
                    ),
                    PendingStateView::InboundAccepted(_) => ConnectionErrorActionView::Propagate,
                }
            } else {
                ConnectionErrorActionView::Propagate
            },
        ),
    }
}

impl PendingConnections {
    /// No connection is pending.
    pub fn new() -> (r: Self)
        ensures
            r@ == Map::<PeerId, PendingStateView>::empty(),
    {
        let r = PendingConnections { pending_conns: HashMap::new() };
        assert(r@ =~= Map::<PeerId, PendingStateView>::empty());
        r
    }

    /// Notes that a peer has been dialed at an address.
    pub fn on_dialed(&mut self, peer_id: PeerId, peer_addr: Multiaddr)
        ensures
            final(self)@ == old(self)@.insert(peer_id, PendingStateView::Dialed(peer_addr@)),
    {
        let state = PendingState::Dialed(peer_addr);
        self.pending_conns.insert(peer_id, state);
        assert(self@ =~= old(self)@.insert(peer_id, state@));
    }

    /// Handles the establishing of a connection.
    pub fn on_connection_established(&mut self, peer_id: PeerId, endpoint: ConnectedPoint) -> (r:
        Result<(), P2pError>)
        ensures
            (final(self)@, r) == spec_connection_established(old(self)@, peer_id, endpoint@),
    {
        let ghost pre = self@;
        match endpoint {
            ConnectedPoint::Dialer => {
                match self.pending_conns.remove(&peer_id) {
                    Some(PendingState::Dialed(addr)) => {
                        let state = PendingState::OutboundAccepted(addr);
                        self.pending_conns.insert(peer_id, state);
                        assert(self@ =~= pre.insert(peer_id, state@));
                        Ok(())
                    },
                    Some(PendingState::InboundAccepted(_addr)) => {
                        assert(self@ =~= pre.remove(peer_id));
                        Err(
                            P2pError::ProtocolError(
                                ProtocolError::InvalidState(
                                    StateName::InboundAccepted,
                                    StateName::Dialed,
                                ),
                            ),
                        )
                    },
                    Some(PendingState::OutboundAccepted(_addr)) => {
                        assert(self@ =~= pre.remove(peer_id));
                        Err(
                            P2pError::ProtocolError(
                                ProtocolError::InvalidState(
                                    StateName::OutboundAccepted,
                                    StateName::Dialed,
                                ),
                            ),
                        )
                    },
                    None => {
                        assert(self@ =~= pre);
                        Err(P2pError::PeerError(PeerError::PeerDoesntExist))
                    },
                }
            },
            ConnectedPoint::Listener { send_back_addr } => {
                match self.pending_conns.remove(&peer_id) {
                    Some(state) => {
                        assert(self@ =~= pre.remove(peer_id));
                        let name = match state {
                            PendingState::Dialed(_) => StateName::Dialed,
                            PendingState::OutboundAccepted(_) => StateName::OutboundAccepted,
                            PendingState::InboundAccepted(_) => StateName::InboundAccepted,
                        };
                        Err(
                            P2pError::ProtocolError(
                                ProtocolError::InvalidState(name, StateName::Absent),
                            ),
                        )
                    },
                    None => {
                        let state = PendingState::InboundAccepted(send_back_addr);
                        self.pending_conns.insert(peer_id, state);
                        assert(self@ =~= pre.insert(peer_id, state@));
                        Ok(())
                    },
                }
            },
        }
    }

    /// Handles the failure of an outbound connection.
    pub fn on_outgoing_connection_error(&mut self, peer_id: Option<PeerId>) -> (r:
        ConnectionErrorAction)
        ensures
            (final(self)@, r@) == spec_outgoing_connection_error(old(self)@, peer_id),
    {
        let ghost pre = self@;
        match peer_id {
            Some(p) => {
                let removed = self.pending_conns.remove(&p);
                assert(self@ =~= pre.remove(p));
                match removed {
                    Some(PendingState::Dialed(addr)) => ConnectionErrorAction::ReportRefused(addr),
                    Some(PendingState::OutboundAccepted(addr)) => ConnectionErrorAction::ReportRefused(
                        addr,
                    ),
                    _ => ConnectionErrorAction::Propagate,
                }
            },
            None => ConnectionErrorAction::Ignore,
        }
    }
}

/// How peers are discovered.
#[derive(Clone, Copy, Debug, PartialEq, Eq, Structural)]
pub enum Libp2pDiscoveryStrategy {
    /// Use mDNS to find peers in the local network
    MulticastDns,
}

/// Whether what multicast DNS discovers is to be passed on: where that
/// strategy is among those asked for.
pub fn relay_mdns(strategies: &Vec<Libp2pDiscoveryStrategy>) -> (r: bool)
    ensures
        r == strategies@.contains(Libp2pDiscoveryStrategy::MulticastDns),
{
    let mut i: usize = 0;
    while i < strategies.len()
        invariant
            i <= strategies@.len(),
            forall|k: int| 0 <= k < i ==> strategies@[k] != Libp2pDiscoveryStrategy::MulticastDns,
        decreases strategies@.len() - i,
    {
        if strategies[i] == Libp2pDiscoveryStrategy::MulticastDns {
            return true;
        }
        i = i + 1;
    }
    false
}

/// What the backend keeps of its connections: those that are being set up
/// and those that stand.
#[derive(Debug)]
pub struct Backend {
    pub pending: PendingConnections,
    pub established_conns: std::collections::HashSet<PeerId>,
}

impl Backend {
    /// A backend without connections.
    pub fn new() -> (r: Self)
        ensures
            r.pending@ == Map::<PeerId, PendingStateView>::empty(),
            r.established_conns@ == Set::<PeerId>::empty(),
    {
        Backend { pending: PendingConnections::new(), established_conns: std::collections::HashSet::new() }
    }

    /// Handles the establishing of a connection.
    pub fn on_connection_established(&mut self, peer_id: PeerId, endpoint: ConnectedPoint) -> (r:
        Result<(), P2pError>)
        ensures
            (final(self).pending@, r) == spec_connection_established(
                old(self).pending@,
                peer_id,
                endpoint@,
            ),
            final(self).established_conns == old(self).established_conns,
    {
        self.pending.on_connection_established(peer_id, endpoint)
    }

    /// Handles the failure of an outbound connection.
    pub fn on_outgoing_connection_error(&mut self, peer_id: Option<PeerId>) -> (r:
        ConnectionErrorAction)
        ensures
            (final(self).pending@, r@) == spec_outgoing_connection_error(old(self).pending@, peer_id),
            final(self).established_conns == old(self).established_conns,
    {
        self.pending.on_outgoing_connection_error(peer_id)
    }

    /// Notes that the connection to a peer stands.
    pub fn on_connected(&mut self, peer_id: PeerId)
        ensures
            final(self).established_conns@ == old(self).established_conns@.insert(peer_id),
            final(self).pending == old(self).pending,
    {
        self.established_conns.insert(peer_id);
    }

    /// Handles the closing of a connection: the peer is no longer among
    /// those whose connection stands. Returns whether it was.
    pub fn on_connection_closed(&mut self, peer_id: PeerId) -> (r: bool)
        ensures
            final(self).established_conns@ == old(self).established_conns@.remove(peer_id),
            r == old(self).established_conns@.contains(peer_id),
            final(self).pending == old(self).pending,
    {
        self.established_conns.remove(&peer_id)
    }
}

/// Whether a message may be published, and on which topic: its encoding
/// must not be larger than the largest frame, and it must be a block.
pub open spec fn spec_publish_check(message: Message, encoded_len: usize) -> Result<
    PubSubTopic,
    P2pError,
> {
    if encoded_len > PUBSUB_MAX_FRAME_SIZE {
        Err(
            P2pError::PublishError(
                PublishError::MessageTooLarge(encoded_len, PUBSUB_MAX_FRAME_SIZE),
            ),
        )
    } else {
        match message.spec_topic() {
            Some(t) => Ok(t),
            None => Err(P2pError::ProtocolError(ProtocolError::InvalidMessage)),
        }
    }
}

/// Decides whether a message of this encoded size may be published, and on
/// which topic.
pub fn publish_check(message: &Message, encoded_len: usize) -> (r: Result<PubSubTopic, P2pError>)
    ensures
        r == spec_publish_check(*message, encoded_len),
{
    if encoded_len > PUBSUB_MAX_FRAME_SIZE {
        return Err(
            P2pError::PublishError(
                PublishError::MessageTooLarge(encoded_len, PUBSUB_MAX_FRAME_SIZE),
            ),
        );
    }
    match message.topic() {
        Some(t) => Ok(t),
        None => Err(P2pError::ProtocolError(ProtocolError::InvalidMessage)),
    }
}

/// What is answered to the command to disconnect a peer: a peer that is not
/// connected does not exist; else the verdict of the transport decides.
pub fn disconnect_result(is_connected: bool, transport_ok: bool) -> (r: Result<(), P2pError>)
    ensures
        r == if !is_connected {
            Err::<(), P2pError>(P2pError::PeerError(PeerError::PeerDoesntExist))
        } else if transport_ok {
            Ok::<(), P2pError>(())
        } else {
            Err::<(), P2pError>(P2pError::ChannelClosed)
        },
{
    if !is_connected {
        Err(P2pError::PeerError(PeerError::PeerDoesntExist))
    } else if transport_ok {
        Ok(())
    } else {
        Err(P2pError::ChannelClosed)
    }
}

} // verus!
