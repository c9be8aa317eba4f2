//! Pool state: balances, fee parameters, and the deposit / withdraw / swap
//! transitions, each expressed over the numeric core. Every operation is
//! either fully applied or fully rejected: a failed operation never mutates
//! the pool.

use vstd::prelude::*;

use crate::calc::lemma_propotion_le_amount;
use crate::calc::lemma_propotion_le_nominator;
use crate::calc::spec_propotion;
use crate::calc::spec_shares;
use crate::calc::UNIT;
use crate::calc::apply_fee;
use crate::calc::propotion;
use crate::calc::shares;
use crate::error::LiqPoolError;
use vstd::arithmetic::div_mod::lemma_div_is_ordered;
use vstd::arithmetic::mul::lemma_mul_inequality;
use vstd::arithmetic::mul::lemma_mul_is_commutative;
use vstd::arithmetic::div_mod::lemma_div_multiples_vanish;
use vstd::arithmetic::div_mod::lemma_div_basics;

verus! {

/// Mathematical model of an unstake liquidity pool with a linear swap fee.
///
/// The fee parameters are fixed at construction; the three balances evolve
/// under `add_liquidity`, `remove_liquidity` and `swap`.
pub struct LiqPool {
    /// Fee fraction (scaled by `UNIT`) charged when post-swap liquidity is 0.
    pub max_fee: u64,
    /// Fee fraction (scaled by `UNIT`) charged when post-swap liquidity
    /// reaches `liq_target`.
    pub min_fee: u64,
    /// Base-token amount above which the minimum fee applies.
    pub liq_target: u64,
    /// Current base-token balance held by the pool.
    pub token: u64,
    /// Current staked-token balance held by the pool.
    pub st_token: u64,
    /// Total outstanding pool-share tokens.
    pub lp_token_supply: u64,
}

/// The linear fee curve at a given post-swap liquidity level: `max_fee` at
/// zero liquidity, `min_fee` at or above the target, a straight-line
/// interpolation between the two elsewhere.
pub open spec fn spec_fee_at(max_fee: int, min_fee: int, liq_target: int, liq_after: int) -> int {
    if liq_after >= liq_target {
        min_fee
    } else {
        max_fee - spec_propotion(max_fee - min_fee, liq_after, liq_target)
    }
}

/// The fee curve stays clamped to `[min_fee, max_fee]` at every liquidity
/// level.
pub proof fn lemma_fee_clamped(max_fee: int, min_fee: int, liq_target: int, liq_after: int)
    requires
        0 <= min_fee <= max_fee,
        0 <= liq_after,
        0 <= liq_target,
    ensures
        min_fee <= spec_fee_at(max_fee, min_fee, liq_target, liq_after) <= max_fee,
{
    if liq_after < liq_target {
        lemma_propotion_le_amount(max_fee - min_fee, liq_after, liq_target);
    }
}

/// The fee curve is monotonically non-increasing as post-swap liquidity
/// increases toward (and beyond) the target.
pub proof fn lemma_fee_monotonic(
    max_fee: int,
    min_fee: int,
    liq_target: int,
    liq_after1: int,
    liq_after2: int,
)
    requires
        0 <= min_fee <= max_fee,
        0 <= liq_after1 <= liq_after2,
        0 <= liq_target,
    ensures
        spec_fee_at(max_fee, min_fee, liq_target, liq_after1) >= spec_fee_at(
            max_fee,
            min_fee,
            liq_target,
            liq_after2,
        ),
{
    let diff = max_fee - min_fee;
    if liq_after1 < liq_target {
        if liq_after2 < liq_target {
            lemma_mul_inequality(liq_after1, liq_after2, diff);
            lemma_mul_is_commutative(liq_after1, diff);
            lemma_mul_is_commutative(liq_after2, diff);
            lemma_div_is_ordered(diff * liq_after1, diff * liq_after2, liq_target);
        } else {
            lemma_propotion_le_amount(diff, liq_after1, liq_target);
        }
    }
}

impl LiqPool {
    /// The pool's construction-time invariant: the fee range is coherent.
    pub open spec fn wf(self) -> bool {
        self.max_fee >= self.min_fee
    }

    /// Total pool value: both assets, valued 1:1.
    pub open spec fn spec_total_value(self) -> int {
        self.token + self.st_token
    }

    /// The exact fee charged for swapping `st_token_amount`, evaluated at
    /// the post-swap liquidity level. A swap larger than the held base-token
    /// balance has no sensible post-swap level and is charged the worst fee.
    pub open spec fn spec_linear_fee(self, st_token_amount: int) -> int {
        if st_token_amount > self.token {
            self.max_fee as int
        } else {
            spec_fee_at(
                self.max_fee as int,
                self.min_fee as int,
                self.liq_target as int,
                self.token - st_token_amount,
            )
        }
    }

    /// Construct a pool with the given fee parameters and zero balances.
    /// An incoherent fee range (`max_fee < min_fee`) is a configuration
    /// error, reported rather than applied.
    pub fn new(max_fee: u64, min_fee: u64, liq_target: u64) -> (r: Result<LiqPool, LiqPoolError>)
        ensures
            match r {
                Ok(pool) => max_fee >= min_fee && pool == (LiqPool {
                    max_fee,
                    min_fee,
                    liq_target,
                    token: 0,
                    st_token: 0,
                    lp_token_supply: 0,
                }),
                Err(e) => max_fee < min_fee && e == LiqPoolError::InvalidFeeRange,
            },
    {
        if max_fee < min_fee {
            return Err(LiqPoolError::InvalidFeeRange);
        }
        Ok(
            LiqPool {
                max_fee,
                min_fee,
                liq_target,
                token: 0,
                st_token: 0,
                lp_token_supply: 0,
            },
        )
    }

    /// Simulate putting tokens into the liquidity pool.
    ///
    /// How many lp tokens the caller gets in return depends on the ratio
    /// between the total pool value (`token + st_token`) and
    /// `lp_token_supply`; the first depositor receives exactly
    /// `token_amount` shares.
    pub fn add_liquidity(&mut self, token_amount: u64) -> (r: Result<u64, LiqPoolError>)
        requires
            old(self).token + old(self).st_token <= u64::MAX,
            old(self).lp_token_supply > 0 ==> old(self).token + old(self).st_token > 0,
            spec_shares(
                token_amount as int,
                old(self).spec_total_value(),
                old(self).lp_token_supply as int,
            ) <= u64::MAX ==> old(self).token + token_amount <= u64::MAX && old(
                self,
            ).lp_token_supply + spec_shares(
                token_amount as int,
                old(self).spec_total_value(),
                old(self).lp_token_supply as int,
            ) <= u64::MAX,
        ensures
            ({
                let minted = spec_shares(
                    token_amount as int,
                    old(self).spec_total_value(),
                    old(self).lp_token_supply as int,
                );
                match r {
                    Ok(v) => minted <= u64::MAX && v == minted && *final(self) == (LiqPool {
                        token: (old(self).token + token_amount) as u64,
                        lp_token_supply: (old(self).lp_token_supply + minted) as u64,
                        ..*old(self)
                    }),
                    Err(e) => minted > u64::MAX && e == LiqPoolError::CalculationError
                        && *final(self) == *old(self),
                }
            }),
    {
        let total_liq_pool_value: u64 = self.st_token + self.token;
        let lp_token_to_mint: u64 = match shares(
            token_amount,
            total_liq_pool_value,
            self.lp_token_supply,
        ) {
            Ok(v) => v,
            Err(e) => {
                return Err(e);
            },
        };
        self.token = self.token + token_amount;
        self.lp_token_supply = self.lp_token_supply + lp_token_to_mint;
        Ok(lp_token_to_mint)
    }

    /// Simulate removing liquidity from the pool.
    ///
    /// The caller gets base token and staked token in proportion to the
    /// share of the supply being redeemed, each floor-truncated
    /// independently; removing more shares than are outstanding is rejected.
    pub fn remove_liquidity(&mut self, lp_token_amount: u64) -> (r: Result<
        (u64, u64),
        LiqPoolError,
    >)
        requires
            old(self).lp_token_supply == 0 ==> lp_token_amount > 0,
        ensures
            ({
                let token_out = spec_propotion(
                    lp_token_amount as int,
                    old(self).token as int,
                    old(self).lp_token_supply as int,
                );
                let st_token_out = spec_propotion(
                    lp_token_amount as int,
                    old(self).st_token as int,
                    old(self).lp_token_supply as int,
                );
                match r {
                    Ok(pair) => lp_token_amount <= old(self).lp_token_supply && pair.0 == token_out
                        && pair.1 == st_token_out && *final(self) == (LiqPool {
                        token: (old(self).token - token_out) as u64,
                        st_token: (old(self).st_token - st_token_out) as u64,
                        lp_token_supply: (old(self).lp_token_supply - lp_token_amount) as u64,
                        ..*old(self)
                    }),
                    Err(e) => lp_token_amount > old(self).lp_token_supply && (
                    e matches LiqPoolError::InvalidInputData(_)) && *final(self) == *old(self),
                }
            }),
    {
        if lp_token_amount > self.lp_token_supply {
            return Err(
                LiqPoolError::InvalidInputData(
                    "tried to remove more liquidity than it was possible with currently minted tokens".to_string(),
                ),
            );
        }

        proof {
            lemma_propotion_le_nominator(
                lp_token_amount as int,
                self.token as int,
                self.lp_token_supply as int,
            );
            lemma_propotion_le_nominator(
                lp_token_amount as int,
                self.st_token as int,
                self.lp_token_supply as int,
            );
        }
        let token_amount: u64 = match propotion(lp_token_amount, self.token, self.lp_token_supply) {
            Ok(v) => v,
            Err(e) => {
                return Err(e);
            },
        };
        let st_token_amount: u64 = match propotion(
            lp_token_amount,
            self.st_token,
            self.lp_token_supply,
        ) {
            Ok(v) => v,
            Err(e) => {
                return Err(e);
            },
        };
        self.lp_token_supply = self.lp_token_supply - lp_token_amount;
        self.token = self.token - token_amount;
        self.st_token = self.st_token - st_token_amount;
        Ok((token_amount, st_token_amount))
    }

    /// Simulate an immediate unstake operation.
    ///
    /// The caller trades staked tokens for base tokens without delay, for a
    /// fee that depends linearly on the pool's post-swap liquidity. The
    /// staked tokens enter the pool at full face value while only the
    /// discounted amount leaves: the spread is the fee revenue, realized
    /// later by liquidity removers.
    pub fn swap(&mut self, st_token_amount: u64) -> (r: Result<u64, LiqPoolError>)
        requires
            old(self).wf(),
            old(self).st_token + st_token_amount <= u64::MAX,
        ensures
            ({
                let fee = old(self).spec_linear_fee(st_token_amount as int);
                let fee_value = spec_propotion(st_token_amount as int, fee, UNIT as int);
                match r {
                    Ok(out) => fee_value <= st_token_amount && out == st_token_amount - fee_value
                        && out <= old(self).token && *final(self) == (LiqPool {
                        token: (old(self).token - out) as u64,
                        st_token: (old(self).st_token + st_token_amount) as u64,
                        ..*old(self)
                    }),
                    Err(e) => *final(self) == *old(self) && match e {
                        LiqPoolError::CalculationError => fee_value > st_token_amount,
                        LiqPoolError::InsufficientLiquidity => fee_value <= st_token_amount
                            && st_token_amount - fee_value > old(self).token,
                        _ => false,
                    },
                }
            }),
    {
        let fee: u64 = match self.linear_fee(st_token_amount) {
            Ok(v) => v,
            Err(e) => {
                return Err(e);
            },
        };
        let out_token_amount: u64 = match apply_fee(st_token_amount, fee) {
            Ok(v) => v,
            Err(e) => {
                return Err(e);
            },
        };
        if out_token_amount > self.token {
            return Err(LiqPoolError::InsufficientLiquidity);
        }

        self.token = self.token - out_token_amount;
        self.st_token = self.st_token + st_token_amount;
        Ok(out_token_amount)
    }

    /// Compute the fee for swapping `st_token_amount` at the current pool
    /// state, evaluated at the liquidity level AFTER the hypothetical swap.
    /// The fee never leaves `[min_fee, max_fee]`, and the computation never
    /// fails.
    pub fn linear_fee(&self, st_token_amount: u64) -> (r: Result<u64, LiqPoolError>)
        requires
            self.wf(),
        ensures
            ({
                let fee = self.spec_linear_fee(st_token_amount as int);
                r matches Ok(v) && v == fee && self.min_fee <= fee <= self.max_fee
            }),
    {
        if st_token_amount > self.token {
            return Ok(self.max_fee);
        }
        // Fee is computed based on liquidity AFTER the swap operation.
        let liq_after: u64 = self.token - st_token_amount;
        if liq_after >= self.liq_target {
            Ok(self.min_fee)
        } else {
            proof {
                lemma_propotion_le_amount(
                    self.max_fee - self.min_fee,
                    liq_after as int,
                    self.liq_target as int,
                );
            }
            let discount: u64 = match propotion(
                self.max_fee - self.min_fee,
                liq_after,
                self.liq_target,
            ) {
                Ok(v) => v,
                Err(e) => {
                    return Err(e);
                },
            };
            Ok(self.max_fee - discount)
        }
    }
}

/// Zero-fee round trip: depositing `x` into an empty pool mints exactly `x`
/// shares (first-mint identity), and immediately redeeming those `x` shares
/// from the resulting pool (which then holds `x` base token, no staked
/// token, and an `x` share supply) returns exactly `(x, 0)`.
pub proof fn lemma_deposit_withdraw_round_trip(x: u64)
    requires
        x > 0,
    ensures
        spec_shares(x as int, 0, 0) == x as int,
        spec_propotion(x as int, x as int, x as int) == x as int,
        spec_propotion(x as int, 0, x as int) == 0,
{
    lemma_div_multiples_vanish(x as int, x as int);
    lemma_div_basics(x as int);
}

} // verus!
