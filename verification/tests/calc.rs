use liq_pool::calc::apply_fee;
use liq_pool::calc::propotion;
use liq_pool::calc::shares;
use liq_pool::calc::value;
use liq_pool::calc::UNIT;
use liq_pool::error::LiqPoolError;

// propotion computes floor(amount * nominator / denominator) exactly, with
// the multiplication carried out in 128 bits.
#[test]
fn test_propotion_exact_floor() {
    assert_eq!(propotion(10, 3, 4).unwrap(), 7);
    assert_eq!(propotion(0, 123, 7).unwrap(), 0);
    assert_eq!(propotion(1000000007, 1000000009, 3).unwrap(), 333333338666666687);
    // The intermediate product here overflows 64 bits but not 128.
    assert_eq!(propotion(u64::MAX, u64::MAX, u64::MAX).unwrap(), u64::MAX);
    assert_eq!(propotion(1 << 63, 4, 8).unwrap(), 1 << 62);
}

#[test]
fn test_propotion_overflow_is_calculation_error() {
    let r = propotion(u64::MAX, 2, 1);
    assert!(matches!(r, Err(LiqPoolError::CalculationError)));
}

#[test]
fn test_value_applies_unit_fraction() {
    // 3% of 200 tokens is 6 tokens.
    assert_eq!(value(200 * UNIT, 3 * UNIT / 100).unwrap(), 6 * UNIT);
    assert_eq!(value(90 * UNIT, 3 * UNIT / 1000).unwrap(), 27 * UNIT / 100);
}

// First mint identity: with no outstanding shares the deposit is returned
// unchanged, whatever the recorded total value.
#[test]
fn test_shares_first_mint_identity() {
    assert_eq!(shares(123, 0, 0).unwrap(), 123);
    assert_eq!(shares(0, 0, 0).unwrap(), 0);
    assert_eq!(shares(u64::MAX, 0, 0).unwrap(), u64::MAX);
}

#[test]
fn test_shares_proportional_mint() {
    // 400 * (800 / 806.64542), the fourth depositor of the worked example.
    assert_eq!(shares(400 * UNIT, 806645420000, 800 * UNIT).unwrap(), 396704663617);
}

// Monotonicity spot check: a larger deposit never mints fewer shares.
#[test]
fn test_shares_monotonic_in_deposit() {
    let total_value: u64 = 806645420000;
    let total_shares: u64 = 800 * UNIT;
    let mut previous: u64 = 0;
    let deposits: [u64; 4] = [100, 400 * UNIT, 400 * UNIT + 1, 500 * UNIT];
    for deposit in deposits.iter() {
        let minted: u64 = shares(*deposit, total_value, total_shares).unwrap();
        assert!(minted >= previous);
        previous = minted;
    }
}

#[test]
fn test_apply_fee_exact() {
    // 300 tokens at 1.91514% leaves 294.25458.
    assert_eq!(apply_fee(300 * UNIT, 191514 * UNIT / 10000000).unwrap(), 29425458 * UNIT / 100000);
    assert_eq!(apply_fee(100, 0).unwrap(), 100);
    // A fee of exactly one unit consumes the whole amount.
    assert_eq!(apply_fee(100, UNIT).unwrap(), 0);
}

#[test]
fn test_apply_fee_above_unit_is_calculation_error() {
    let r = apply_fee(100, 2 * UNIT);
    assert!(matches!(r, Err(LiqPoolError::CalculationError)));
}
