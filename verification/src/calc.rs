//! Numeric core: exact, overflow-free proportional arithmetic over unsigned
//! 64-bit amounts. Every multiplication is widened to 128 bits before the
//! division, and the quotient is range-checked before narrowing back, so a
//! result is either exact or reported as a `CalculationError`.

use vstd::prelude::*;

use crate::error::LiqPoolError;
use vstd::arithmetic::div_mod::lemma_div_is_ordered;
use vstd::arithmetic::div_mod::lemma_div_multiples_vanish;
use vstd::arithmetic::div_mod::lemma_div_pos_is_pos;
use vstd::arithmetic::mul::lemma_mul_inequality;
use vstd::arithmetic::mul::lemma_mul_is_commutative;
use vstd::arithmetic::mul::lemma_mul_nonnegative;

verus! {

/// How 1 token is represented in a u64 number.
/// Values less than UNIT are fractions. 1 is the smallest unit.
pub const UNIT: u64 = 1000000000;

/// The exact mathematical value of `propotion`: `floor(amount * nominator /
/// denominator)` (integer division on non-negative values is a floor).
pub open spec fn spec_propotion(amount: int, nominator: int, denominator: int) -> int {
    amount * nominator / denominator
}

/// The exact mathematical value of `shares`: a first mint exchanges value
/// for shares 1:1; afterwards shares are minted in proportion to the
/// deposit's fraction of the existing pool value.
pub open spec fn spec_shares(deposit_value: int, total_value: int, total_shares: int) -> int {
    if total_shares == 0 {
        deposit_value
    } else {
        spec_propotion(deposit_value, total_shares, total_value)
    }
}

/// A proportion whose nominator is no larger than its denominator cannot
/// exceed the amount it scales.
pub proof fn lemma_propotion_le_amount(amount: int, nominator: int, denominator: int)
    requires
        0 <= amount,
        0 <= nominator <= denominator,
        0 < denominator,
    ensures
        0 <= spec_propotion(amount, nominator, denominator) <= amount,
{
    lemma_mul_nonnegative(amount, nominator);
    lemma_div_pos_is_pos(amount * nominator, denominator);
    lemma_mul_inequality(nominator, denominator, amount);
    lemma_mul_is_commutative(nominator, amount);
    lemma_mul_is_commutative(denominator, amount);
    lemma_div_is_ordered(amount * nominator, denominator * amount, denominator);
    lemma_div_multiples_vanish(amount, denominator);
}

/// A proportion of an amount no larger than the denominator cannot exceed
/// the nominator: `floor(amount * nominator / denominator) <= nominator`
/// whenever `amount <= denominator`.
pub proof fn lemma_propotion_le_nominator(amount: int, nominator: int, denominator: int)
    requires
        0 <= amount <= denominator,
        0 <= nominator,
        0 < denominator,
    ensures
        0 <= spec_propotion(amount, nominator, denominator) <= nominator,
{
    lemma_mul_nonnegative(amount, nominator);
    lemma_div_pos_is_pos(amount * nominator, denominator);
    lemma_mul_inequality(amount, denominator, nominator);
    lemma_div_is_ordered(amount * nominator, denominator * nominator, denominator);
    lemma_div_multiples_vanish(nominator, denominator);
}

/// `shares` is monotonically non-decreasing in the deposited value, for a
/// fixed positive total value and total share supply.
pub proof fn lemma_shares_monotonic(
    deposit_value1: int,
    deposit_value2: int,
    total_value: int,
    total_shares: int,
)
    requires
        0 <= deposit_value1 <= deposit_value2,
        0 < total_value,
        0 < total_shares,
    ensures
        spec_shares(deposit_value1, total_value, total_shares) <= spec_shares(
            deposit_value2,
            total_value,
            total_shares,
        ),
{
    lemma_mul_inequality(deposit_value1, deposit_value2, total_shares);
    lemma_div_is_ordered(
        deposit_value1 * total_shares,
        deposit_value2 * total_shares,
        total_value,
    );
}

/// Calculate `amount * (nominator / denominator)`, exactly: the
/// multiplication is widened to 128 bits, so the only failure is a quotient
/// that does not fit back into 64 bits.
pub fn propotion(amount: u64, nominator: u64, denominator: u64) -> (r: Result<u64, LiqPoolError>)
    requires
        denominator > 0,
    ensures
        ({
            let q = spec_propotion(amount as int, nominator as int, denominator as int);
            match r {
                Ok(v) => q <= u64::MAX && v == q,
                Err(e) => q > u64::MAX && e == LiqPoolError::CalculationError,
            }
        }),
{
    proof {
        assert((amount as int) * (nominator as int) <= (u64::MAX as int) * (u64::MAX as int)
            && (u64::MAX as int) * (u64::MAX as int) <= u128::MAX as int) by (nonlinear_arith);
    }
    let wide: u128 = (amount as u128) * (nominator as u128) / (denominator as u128);
    if wide > u64::MAX as u128 {
        Err(LiqPoolError::CalculationError)
    } else {
        Ok(wide as u64)
    }
}

/// Apply a unit-scaled fraction `price` to an amount.
pub fn value(amount: u64, price: u64) -> (r: Result<u64, LiqPoolError>)
    ensures
        ({
            let q = spec_propotion(amount as int, price as int, UNIT as int);
            match r {
                Ok(v) => q <= u64::MAX && v == q,
                Err(e) => q > u64::MAX && e == LiqPoolError::CalculationError,
            }
        }),
{
    propotion(amount, price, UNIT)
}

/// Calculate someone's share after adding `deposit_value` to a pool holding
/// `total_value` of assets against `total_shares` outstanding shares. The
/// first mint returns the deposit unchanged, defining the 1:1 exchange rate.
pub fn shares(deposit_value: u64, total_value: u64, total_shares: u64) -> (r: Result<
    u64,
    LiqPoolError,
>)
    requires
        total_shares > 0 ==> total_value > 0,
    ensures
        ({
            let q = spec_shares(deposit_value as int, total_value as int, total_shares as int);
            match r {
                Ok(v) => q <= u64::MAX && v == q,
                Err(e) => q > u64::MAX && e == LiqPoolError::CalculationError,
            }
        }),
{
    // first mint
    if total_shares == 0 {
        Ok(deposit_value)
    } else {
        propotion(deposit_value, total_shares, total_value)
    }
}

/// Given an amount and a fee represented as a unit-scaled fraction,
/// calculate the amount with the fee subtracted. A fee fraction in
/// `[0, UNIT]` always succeeds; a larger fraction would make the fee exceed
/// the amount itself, which is reported as a `CalculationError`.
pub fn apply_fee(amount: u64, fee: u64) -> (r: Result<u64, LiqPoolError>)
    ensures
        ({
            let q = spec_propotion(amount as int, fee as int, UNIT as int);
            match r {
                Ok(v) => q <= amount && v == amount - q,
                Err(e) => q > amount && e == LiqPoolError::CalculationError,
            }
        }),
{
    let fee_value: u64 = match value(amount, fee) {
        Ok(v) => v,
        Err(e) => {
            return Err(e);
        },
    };
    if fee_value > amount {
        return Err(LiqPoolError::CalculationError);
    }
    Ok(amount - fee_value)
}

} // verus!
