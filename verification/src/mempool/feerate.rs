//! Fee rates: atoms per thousand bytes.

use crate::primitives::Amount;
use vstd::prelude::*;

verus! {

/// A fee rate, in atoms per thousand bytes of transaction.
#[derive(Debug, Clone, Copy, PartialEq, Eq, Structural)]
pub struct FeeRate {
    pub tokens_per_kb: u128,
}

/// The quotient of `fee` by `tx_size`, rounded up.
pub open spec fn spec_div_up(fee: int, tx_size: int) -> int
    recommends
        tx_size > 0,
{
    (fee + tx_size - 1) / tx_size
}

impl FeeRate {
    pub fn new(tokens_per_kb: u128) -> (r: Self)
        ensures
            r.tokens_per_kb == tokens_per_kb,
    {
        Self { tokens_per_kb }
    }

    /// The rate by which further relay fees rise.
    pub fn incremental_relay_fee_rate() -> (r: Self)
        ensures
            r.tokens_per_kb == 1000,
    {
        FeeRate::new(1000)
    }

    /// The threshold of the incremental relay fee.
    pub fn incremental_relay_threshold() -> (r: Self)
        ensures
            r.tokens_per_kb == 500,
    {
        FeeRate::new(500)
    }

    /// The rate that a transaction of this size pays with this fee: the fee
    /// per byte, rounded up, times a thousand.
    pub fn of_tx(fee: Amount, tx_size: usize) -> (r: Self)
        requires
            tx_size > 0,
            fee.atoms + tx_size <= u128::MAX,
            spec_div_up(fee.atoms as int, tx_size as int) * 1000 <= u128::MAX,
        ensures
            r.tokens_per_kb == spec_div_up(fee.atoms as int, tx_size as int) * 1000,
    {
        let tokens_per_byte = Self::div_up(fee.into_atoms(), tx_size);
        Self { tokens_per_kb: tokens_per_byte * 1000 }
    }

    /// The fee that a transaction of this size pays at this rate, rounded down.
    pub fn compute_fee(&self, size: usize) -> (r: Amount)
        requires
            self.tokens_per_kb * size <= u128::MAX,
        ensures
            r.atoms == self.tokens_per_kb * size / 1000,
    {
        Amount::from_atoms(self.tokens_per_kb * (size as u128) / 1000)
    }

    pub fn tokens_per_kb(&self) -> (r: u128)
        ensures
            r == self.tokens_per_kb,
    {
        self.tokens_per_kb
    }

    /// The quotient of `fee` by `tx_size`, rounded up.
    pub fn div_up(fee: u128, tx_size: usize) -> (r: u128)
        requires
            tx_size > 0,
            fee + tx_size <= u128::MAX,
        ensures
            r == spec_div_up(fee as int, tx_size as int),
    {
        let tx_size = tx_size as u128;
        (fee + tx_size - 1) / tx_size
    }

    /// The sum of two rates.
    pub fn plus(self, other: Self) -> (r: Self)
        requires
            self.tokens_per_kb + other.tokens_per_kb <= u128::MAX,
        ensures
            r.tokens_per_kb == self.tokens_per_kb + other.tokens_per_kb,
    {
        FeeRate { tokens_per_kb: self.tokens_per_kb + other.tokens_per_kb }
    }

    /// The rate divided by a number, rounded down.
    pub fn divided_by(self, rhs: u128) -> (r: Self)
        requires
            rhs > 0,
        ensures
            r.tokens_per_kb == self.tokens_per_kb / rhs,
    {
        FeeRate { tokens_per_kb: self.tokens_per_kb / rhs }
    }
}

/// Rounding up never gives less than the exact quotient and never a whole
/// unit more: the fee that the rounded rate asks for covers the fee paid.
pub proof fn lemma_div_up_bounds(fee: int, tx_size: int)
    requires
        fee >= 0,
        tx_size > 0,
    ensures
        spec_div_up(fee, tx_size) * tx_size >= fee,
        (spec_div_up(fee, tx_size) - 1) * tx_size < fee,
{
    let q = spec_div_up(fee, tx_size);
    vstd::arithmetic::div_mod::lemma_fundamental_div_mod(fee + tx_size - 1, tx_size);
    vstd::arithmetic::div_mod::lemma_mod_bound(fee + tx_size - 1, tx_size);
    assert(q * tx_size == tx_size * q) by (nonlinear_arith);
    assert((q - 1) * tx_size == q * tx_size - tx_size) by (nonlinear_arith);
}

} // verus!
