//! The parameters of proof of stake.

use crate::primitives::BlockHeight;
use vstd::prelude::*;

verus! {

/// The parameters of proof of stake.
#[derive(Debug, Clone, Copy, PartialEq, Eq, Structural)]
pub struct Config {
    pub max_num_of_validator_slots: u8,
    pub min_num_of_validators: u8,
    /// A period of time, measured in block height.
    pub epoch_length: BlockHeight,
}

impl Config {
    /// Whether the parameters fit each other: the slots are enough for the
    /// least number of validators, and an epoch is not empty.
    pub open spec fn spec_is_consistent(self) -> bool {
        self.min_num_of_validators <= self.max_num_of_validator_slots && self.epoch_length.height
            > 0
    }

    /// Whether the parameters fit each other.
    pub fn is_consistent(&self) -> (r: bool)
        ensures
            r == self.spec_is_consistent(),
    {
        self.min_num_of_validators <= self.max_num_of_validator_slots && self.epoch_length.get()
            > 0
    }
}

/// Who signs blocks.
#[derive(Debug, Clone, Copy, PartialEq, Eq, Structural)]
pub struct Signer;

/// Proof of stake.
#[derive(Debug, Clone, Copy, PartialEq, Eq, Structural)]
pub struct PoS {
    pub signer: Signer,
}

} // verus!
