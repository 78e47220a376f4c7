//! The state of the exchange with one peer.

use crate::error::ProtocolError;
use crate::primitives::BlockId;
use crate::sync::message::clone_ids;
use vstd::prelude::*;

verus! {

/// What the state of a peer is.
pub enum PeerSyncStateView {
    Unknown,
    UploadingHeaders(Seq<BlockId>),
    UploadingBlocks(BlockId),
    Idle,
}

/// Where the exchange with a peer stands.
#[derive(Debug, PartialEq, Eq)]
pub enum PeerSyncState {
    /// Nothing has been asked of the peer yet.
    Unknown,
    /// The peer has been sent this locator and owes headers.
    UploadingHeaders(Vec<BlockId>),
    /// The peer has been asked for this block and owes it.
    UploadingBlocks(BlockId),
    /// Nothing is owed; the peer had nothing new when last asked.
    Idle,
}

impl View for PeerSyncState {
    type V = PeerSyncStateView;

    open spec fn view(&self) -> PeerSyncStateView {
        match self {
            PeerSyncState::Unknown => PeerSyncStateView::Unknown,
            PeerSyncState::UploadingHeaders(l) => PeerSyncStateView::UploadingHeaders(l@),
            PeerSyncState::UploadingBlocks(id) => PeerSyncStateView::UploadingBlocks(*id),
            PeerSyncState::Idle => PeerSyncStateView::Idle,
        }
    }
}

impl Clone for PeerSyncState {
    fn clone(&self) -> (r: Self)
        ensures
            r@ == self@,
    {
        match self {
            PeerSyncState::Unknown => PeerSyncState::Unknown,
            PeerSyncState::UploadingHeaders(l) => PeerSyncState::UploadingHeaders(clone_ids(l)),
            PeerSyncState::UploadingBlocks(id) => PeerSyncState::UploadingBlocks(*id),
            PeerSyncState::Idle => PeerSyncState::Idle,
        }
    }
}

/// What is known of a peer.
pub struct PeerContextView {
    pub state: PeerSyncStateView,
    pub best_known: Option<BlockId>,
    pub pending: Seq<BlockId>,
    pub known: Seq<BlockId>,
}

/// What is known of a peer: where the exchange stands, the best header that
/// the peer has declared, the blocks still to be asked of it, in order, and
/// the index of the blocks that it is known to have.
#[derive(Debug, PartialEq, Eq)]
pub struct PeerContext {
    pub state: PeerSyncState,
    pub best_known: Option<BlockId>,
    pub pending: Vec<BlockId>,
    /// The ids of the headers of the peer's last answer; the id of the
    /// local best block, where that answer held nothing new.
    pub known: Vec<BlockId>,
}

impl View for PeerContext {
    type V = PeerContextView;

    open spec fn view(&self) -> PeerContextView {
        PeerContextView {
            state: self.state@,
            best_known: self.best_known,
            pending: self.pending@,
            known: self.known@,
        }
    }
}

impl Clone for PeerContext {
    fn clone(&self) -> (r: Self)
        ensures
            r@ == self@,
    {
        PeerContext {
            state: self.state.clone(),
            best_known: self.best_known,
            pending: clone_ids(&self.pending),
            known: clone_ids(&self.known),
        }
    }
}

impl PeerSyncStateView {
    /// The name of the state.
    pub open spec fn name(self) -> crate::error::StateName {
        match self {
            PeerSyncStateView::Unknown => crate::error::StateName::Unknown,
            PeerSyncStateView::UploadingHeaders(_) => crate::error::StateName::UploadingHeaders,
            PeerSyncStateView::UploadingBlocks(_) => crate::error::StateName::UploadingBlocks,
            PeerSyncStateView::Idle => crate::error::StateName::Idle,
        }
    }
}

impl PeerSyncState {
    /// The name of the state.
    pub fn name(&self) -> (r: crate::error::StateName)
        ensures
            r == self@.name(),
    {
        match self {
            PeerSyncState::Unknown => crate::error::StateName::Unknown,
            PeerSyncState::UploadingHeaders(_) => crate::error::StateName::UploadingHeaders,
            PeerSyncState::UploadingBlocks(_) => crate::error::StateName::UploadingBlocks,
            PeerSyncState::Idle => crate::error::StateName::Idle,
        }
    }
}

impl PeerContextView {
    /// The peer after it has been asked for a block.
    pub open spec fn after_block_request(self, id: BlockId) -> PeerContextView {
        PeerContextView { state: PeerSyncStateView::UploadingBlocks(id), ..self }
    }

    /// Whether a request is owed an answer by the peer.
    pub open spec fn is_busy(self) -> bool {
        self.state is UploadingHeaders || self.state is UploadingBlocks
    }

    /// The peer after it has been sent a locator.
    pub open spec fn after_header_request(self, locator: Seq<BlockId>) -> PeerContextView {
        PeerContextView { state: PeerSyncStateView::UploadingHeaders(locator), ..self }
    }

    /// The peer after its headers have been diffed against local storage:
    /// `last` is the id of the last header it sent, if it sent any,
    /// `unknown` the ids of those that are not stored, in order, and
    /// `known` the index of what it is known to have. With nothing unknown
    /// the peer is idle; otherwise the first unknown block is asked for and
    /// the others wait.
    pub open spec fn after_headers(
        self,
        last: Option<BlockId>,
        unknown: Seq<BlockId>,
        known: Seq<BlockId>,
    ) -> PeerContextView {
        let best = if last.is_some() {
            last
        } else {
            self.best_known
        };
        if unknown.len() == 0 {
            PeerContextView {
                state: PeerSyncStateView::Idle,
                best_known: best,
                pending: Seq::empty(),
                known,
            }
        } else {
            PeerContextView {
                state: PeerSyncStateView::UploadingBlocks(unknown[0]),
                best_known: best,
                pending: unknown.skip(1),
                known,
            }
        }
    }

    /// The peer after the block it owed has been accepted: the next block
    /// that waits is asked for; where none waits, the peer is idle.
    pub open spec fn after_block(self) -> PeerContextView {
        if self.pending.len() == 0 {
            PeerContextView { state: PeerSyncStateView::Idle, ..self }
        } else {
            PeerContextView {
                state: PeerSyncStateView::UploadingBlocks(self.pending[0]),
                pending: self.pending.skip(1),
                ..self
            }
        }
    }
}

impl PeerContext {
    /// A peer of which nothing has been asked yet.
    pub fn new() -> (r: PeerContext)
        ensures
            r@ == (PeerContextView {
                state: PeerSyncStateView::Unknown,
                best_known: None,
                pending: Seq::empty(),
                known: Seq::empty(),
            }),
    {
        PeerContext {
            state: PeerSyncState::Unknown,
            best_known: None,
            pending: Vec::new(),
            known: Vec::new(),
        }
    }

    /// Whether a request is owed an answer by the peer.
    pub fn is_busy(&self) -> (r: bool)
        ensures
            r == self@.is_busy(),
    {
        match self.state {
            PeerSyncState::UploadingHeaders(_) => true,
            PeerSyncState::UploadingBlocks(_) => true,
            _ => false,
        }
    }

    /// Whether nothing is owed and nothing new was offered.
    pub fn is_idle(&self) -> (r: bool)
        ensures
            r == (self@.state is Idle),
    {
        match self.state {
            PeerSyncState::Idle => true,
            _ => false,
        }
    }

    /// Notes that the peer has been asked for a block.
    pub fn set_block_request(&mut self, id: BlockId)
        ensures
            final(self)@ == old(self)@.after_block_request(id),
    {
        self.state = PeerSyncState::UploadingBlocks(id);
    }

    /// Notes that the peer has been sent a locator.
    pub fn set_header_request(&mut self, locator: Vec<BlockId>)
        ensures
            final(self)@ == old(self)@.after_header_request(locator@),
    {
        self.state = PeerSyncState::UploadingHeaders(locator);
    }

    /// Notes what the diffing of the peer's headers gave; returns the block
    /// to ask for next, if any.
    pub fn set_headers(&mut self, last: Option<BlockId>, unknown: Vec<BlockId>, known: Vec<BlockId>) -> (r:
        Option<BlockId>)
        ensures
            final(self)@ == old(self)@.after_headers(last, unknown@, known@),
            r == if unknown@.len() == 0 {
                None
            } else {
                Some(unknown@[0])
            },
    {
        if last.is_some() {
            self.best_known = last;
        }
        self.known = known;
        if unknown.len() == 0 {
            self.state = PeerSyncState::Idle;
            self.pending = Vec::new();
            None
        } else {
            let first = unknown[0];
            let mut rest: Vec<BlockId> = Vec::new();
            let mut i: usize = 1;
            while i < unknown.len()
                invariant
                    1 <= i <= unknown@.len(),
                    rest@ == unknown@.subrange(1, i as int),
                decreases unknown@.len() - i,
            {
                rest.push(unknown[i]);
                assert(unknown@.subrange(1, i as int + 1) =~= unknown@.subrange(1, i as int).push(
                    unknown@[i as int],
                ));
                i = i + 1;
            }
            assert(rest@ =~= unknown@.skip(1));
            self.state = PeerSyncState::UploadingBlocks(first);
            self.pending = rest;
            Some(first)
        }
    }

    /// Notes that the block owed has been accepted; returns the block to ask
    /// for next, if any waits.
    pub fn set_block_done(&mut self) -> (r: Option<BlockId>)
        ensures
            final(self)@ == old(self)@.after_block(),
            r == if old(self)@.pending.len() == 0 {
                None
            } else {
                Some(old(self)@.pending[0])
            },
    {
        if self.pending.len() == 0 {
            self.state = PeerSyncState::Idle;
            None
        } else {
            let next = self.pending.remove(0);
            assert(self.pending@ =~= old(self).pending@.skip(1));
            self.state = PeerSyncState::UploadingBlocks(next);
            Some(next)
        }
    }

    /// Whether the peer is known to have the block with this id.
    pub fn knows(&self, id: &BlockId) -> (r: bool)
        ensures
            r == self@.known.contains(*id),
    {
        let mut i: usize = 0;
        while i < self.known.len()
            invariant
                i <= self.known@.len(),
                forall|k: int| 0 <= k < i ==> self.known@[k] != *id,
            decreases self.known@.len() - i,
        {
            if self.known[i] == *id {
                assert(self.known@[i as int] == *id);
                return true;
            }
            i = i + 1;
        }
        false
    }

    /// Whether the peer owes exactly this block.
    pub fn expects_block(&self, id: &BlockId) -> (r: Result<(), ProtocolError>)
        ensures
            r.is_ok() == (self@.state == PeerSyncStateView::UploadingBlocks(*id)),
            r.is_err() ==> r == Err::<(), ProtocolError>(ProtocolError::UnexpectedBlock),
    {
        match &self.state {
            PeerSyncState::UploadingBlocks(expected) => {
                if *expected == *id {
                    Ok(())
                } else {
                    Err(ProtocolError::UnexpectedBlock)
                }
            },
            _ => Err(ProtocolError::UnexpectedBlock),
        }
    }
}

} // verus!
