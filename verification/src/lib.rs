//! Mathematical model of a two-asset unstake liquidity pool with a linear
//! swap fee.
//!
//! The pool holds a base token and a staked-derivative token. Depositors
//! receive pool-share (lp) tokens in proportion to the value they add;
//! withdrawers redeem shares pro-rata over both assets; an immediate
//! "unstake" swap exchanges staked tokens for base tokens at a fee that
//! interpolates linearly between a maximum and a minimum as the pool's
//! post-swap base-token liquidity approaches a target.

pub mod calc;
pub mod error;
pub mod liq_pool;

pub use crate::liq_pool::LiqPool;
