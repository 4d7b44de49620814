//! The reference price of a new slot.

use vstd::prelude::*;
use crate::outside::random_in;
use crate::MAX_BASE_FEE;

verus! {

/// Least multiplier of the base fee, in thousandths.
pub const MIN_FEE_ROLL: u64 = 1000;

/// Greatest multiplier of the base fee, in thousandths.
pub const MAX_FEE_ROLL: u64 = 9999;

/// The fee for a multiplier given in thousandths, rounded down.
pub open spec fn fee_for_roll(base_fee: u64, roll: u64) -> int {
    base_fee * roll / 1000
}

/// Whether `fee` is the base fee times a multiplier from 1 up to, but not
/// reaching, 10.
pub open spec fn is_fee_draw(base_fee: u64, fee: u64) -> bool {
    exists|roll: u64|
        MIN_FEE_ROLL <= roll <= MAX_FEE_ROLL && fee == #[trigger] fee_for_roll(base_fee, roll)
}

/// The fee for a multiplier given in thousandths.
pub fn scaled_fee(base_fee: u64, roll: u64) -> (fee: u64)
    requires
        base_fee <= MAX_BASE_FEE,
        roll <= MAX_FEE_ROLL,
    ensures
        fee == fee_for_roll(base_fee, roll),
{
    assert(base_fee * roll <= base_fee * 10000) by (nonlinear_arith)
        requires
            roll <= 10000,
            base_fee >= 0,
    ;
    let product: u128 = (base_fee as u128) * (roll as u128);
    let fee: u128 = product / 1000;
    fee as u64
}

/// Draws the reference price of a slot: the base fee times a random
/// multiplier from 1 up to, but not reaching, 10.
pub fn calculate_base_fee(base_fee: u64) -> (fee: u64)
    requires
        base_fee <= MAX_BASE_FEE,
    ensures
        is_fee_draw(base_fee, fee),
{
    let roll = random_in(MIN_FEE_ROLL, MAX_FEE_ROLL);
    scaled_fee(base_fee, roll)
}

} // verus!
