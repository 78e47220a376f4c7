//! The errors of updating the state with a block, and how the errors of
//! the parts that it uses become its own.

use crate::primitives::{Amount, BlockId, TxId};
use crate::storage::traits::Error as StorageError;
use vstd::prelude::*;
use vstd::std_specs::convert::FromSpecImpl;

verus! {

/// Who has spent an output.
#[derive(Clone, Copy, Debug, PartialEq, Eq)]
pub enum Spender {
    RegularInput(TxId),
    StakeKernel(BlockId),
}

/// Why an output could not be marked as spent or unspent.
#[derive(Clone, Copy, Debug, PartialEq, Eq)]
pub enum SpendError {
    AlreadySpent(Spender),
    AlreadyUnspent,
    OutOfRange { tx_id: Option<Spender>, source_output_index: usize },
}

/// Where a transaction stands in the main chain.
#[derive(Clone, Copy, Debug, PartialEq, Eq)]
pub struct TxMainChainPosition {
    pub block_id: BlockId,
    pub byte_offset_in_block: u32,
    pub serialized_size: u32,
}

/// Why the index of a transaction could not be made.
#[derive(Clone, Copy, Debug, PartialEq, Eq)]
pub enum TxMainChainIndexError {
    InvalidOutputCount,
    SerializationInvariantError(BlockId),
    InvalidTxNumberForBlock(usize, BlockId),
}

/// Why a block could not be connected to or disconnected from the state.
#[derive(Clone, Copy, Debug, PartialEq, Eq)]
pub enum StateUpdateError {
    /// Blockchain storage error
    StorageError(StorageError),
    /// While connecting a block, the transaction number does not exist in the block
    TxNumWrongInBlockOnConnect(usize, BlockId),
    /// While disconnecting a block, the transaction number does not exist in the block
    TxNumWrongInBlockOnDisconnect(usize, BlockId),
    /// The transaction number does not exist in the block
    InvariantErrorTxNumWrongInBlock(usize, BlockId),
    /// Outputs already in the inputs cache
    OutputAlreadyPresentInInputsCache,
    /// Block reward spent immaturely
    ImmatureBlockRewardSpend,
    /// Input was cached, but could not be found
    PreviouslyCachedInputNotFound,
    /// Input was cached, but it is erased
    PreviouslyCachedInputWasErased,
    /// Block disconnect already-unspent
    InvariantBrokenAlreadyUnspent,
    /// Source block index for block reward output not found
    InvariantBrokenSourceBlockIndexNotFound,
    /// Output is not found in the cache or database
    MissingOutputOrSpent,
    /// While connecting a block, output was erased in a previous step
    MissingOutputOrSpentOutputErasedOnConnect,
    /// While disconnecting a block, output was erased in a previous step
    MissingOutputOrSpentOutputErasedOnDisconnect,
    /// Attempt to print money: total inputs and total outputs
    AttemptToPrintMoney(Amount, Amount),
    /// Fee calculation failed: total inputs and total outputs
    TxFeeTotalCalcFailed(Amount, Amount),
    /// Output addition error
    OutputAdditionError,
    /// Signature verification failed in transaction
    SignatureVerificationFailed,
    /// Invalid output count
    InvalidOutputCount,
    /// Block distance calculation for maturity failed
    BlockHeightArithmeticError,
    /// Input addition error
    InputAdditionError,
    /// Double-spend attempt
    DoubleSpendAttempt(Spender),
    /// Input of a transaction has an out-of-range output index
    OutputIndexOutOfRange { tx_id: Option<Spender>, source_output_index: usize },
    /// Transaction index found but transaction not found
    InvariantErrorTransactionCouldNotBeLoaded(TxMainChainPosition),
    /// Transaction index for header found but header not found
    InvariantErrorHeaderCouldNotBeLoaded(BlockId),
    /// Addition of all fees in the block failed
    FailedToAddAllFeesOfBlock(BlockId),
    /// Block reward addition error for the block
    RewardAdditionError(BlockId),
    /// Serialization invariant failed for the block
    SerializationInvariantError(BlockId),
}

impl From<StorageError> for StateUpdateError {
    fn from(err: StorageError) -> (r: Self) {
        StateUpdateError::StorageError(err)
    }
}

impl FromSpecImpl<StorageError> for StateUpdateError {
    open spec fn obeys_from_spec() -> bool {
        true
    }

    open spec fn from_spec(err: StorageError) -> Self {
        StateUpdateError::StorageError(err)
    }
}

impl From<SpendError> for StateUpdateError {
    fn from(err: SpendError) -> (r: Self) {
        match err {
            SpendError::AlreadySpent(spender) => StateUpdateError::DoubleSpendAttempt(spender),
            SpendError::AlreadyUnspent => StateUpdateError::InvariantBrokenAlreadyUnspent,
            SpendError::OutOfRange {
                tx_id,
                source_output_index,
            } => StateUpdateError::OutputIndexOutOfRange { tx_id, source_output_index },
        }
    }
}

impl FromSpecImpl<SpendError> for StateUpdateError {
    open spec fn obeys_from_spec() -> bool {
        true
    }

    open spec fn from_spec(err: SpendError) -> Self {
        match err {
            SpendError::AlreadySpent(spender) => StateUpdateError::DoubleSpendAttempt(spender),
            SpendError::AlreadyUnspent => StateUpdateError::InvariantBrokenAlreadyUnspent,
            SpendError::OutOfRange {
                tx_id,
                source_output_index,
            } => StateUpdateError::OutputIndexOutOfRange { tx_id, source_output_index },
        }
    }
}

impl From<TxMainChainIndexError> for StateUpdateError {
    fn from(err: TxMainChainIndexError) -> (r: Self) {
        match err {
            TxMainChainIndexError::InvalidOutputCount => StateUpdateError::InvalidOutputCount,
            TxMainChainIndexError::SerializationInvariantError(block_id) => {
                StateUpdateError::SerializationInvariantError(block_id)
            },
            TxMainChainIndexError::InvalidTxNumberForBlock(tx_num, block_id) => {
                StateUpdateError::InvariantErrorTxNumWrongInBlock(tx_num, block_id)
            },
        }
    }
}

impl FromSpecImpl<TxMainChainIndexError> for StateUpdateError {
    open spec fn obeys_from_spec() -> bool {
        true
    }

    open spec fn from_spec(err: TxMainChainIndexError) -> Self {
        match err {
            TxMainChainIndexError::InvalidOutputCount => StateUpdateError::InvalidOutputCount,
            TxMainChainIndexError::SerializationInvariantError(block_id) => {
                StateUpdateError::SerializationInvariantError(block_id)
            },
            TxMainChainIndexError::InvalidTxNumberForBlock(tx_num, block_id) => {
                StateUpdateError::InvariantErrorTxNumWrongInBlock(tx_num, block_id)
            },
        }
    }
}

impl StateUpdateError {
    /// Whether the error is rooted in the block and so in the peer that
    /// sent it, rather than in the local storage.
    pub open spec fn spec_is_validation_failure(self) -> bool {
        !(self is StorageError)
    }

    /// Whether the error is rooted in the block that was offered: then the
    /// peer that sent it is dropped. An error of the storage is not.
    pub fn is_validation_failure(&self) -> (r: bool)
        ensures
            r == self.spec_is_validation_failure(),
    {
        match self {
            StateUpdateError::StorageError(_) => false,
            _ => true,
        }
    }
}

} // verus!
