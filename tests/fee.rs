use pump_curve::error::PumpFunError;
use pump_curve::fee::{calculate_total_amount, calculate_trading_fee, FEE_DENOMINATOR};

#[test]
fn one_percent_fee_on_a_million() {
    assert_eq!(calculate_trading_fee(100, 1_000_000), Ok(10_000));
}

#[test]
fn fee_floors() {
    // 999 * 30 / 10_000 = 2.997
    assert_eq!(calculate_trading_fee(30, 999), Ok(2));
    assert_eq!(calculate_trading_fee(0, 999), Ok(0));
    assert_eq!(calculate_trading_fee(FEE_DENOMINATOR, u64::MAX), Ok(u64::MAX));
}

#[test]
fn fee_above_full_scale_may_overflow() {
    assert_eq!(calculate_trading_fee(u64::MAX, u64::MAX), Err(PumpFunError::ArithmeticOverflow));
}

#[test]
fn gross_up_by_one_percent() {
    // 990_000 * 10_000 / 9_900 = 1_000_000
    assert_eq!(calculate_total_amount(100, 990_000), Ok(1_000_000));
    // 1_000 * 10_000 / 9_900 = 1010.1..
    assert_eq!(calculate_total_amount(100, 1_000), Ok(1010));
}

#[test]
fn gross_up_rejects_full_fee() {
    assert_eq!(calculate_total_amount(FEE_DENOMINATOR, 1), Err(PumpFunError::InvalidFeeRate));
    assert_eq!(calculate_total_amount(u64::MAX, 1), Err(PumpFunError::InvalidFeeRate));
}

#[test]
fn gross_up_overflow_is_reported() {
    assert_eq!(calculate_total_amount(5_000, u64::MAX), Err(PumpFunError::ArithmeticOverflow));
}

#[test]
fn fee_round_trip_within_one_unit() {
    for fee in [0u64, 1, 30, 100, 2_500, 5_000] {
        for amount in [0u64, 1, 2, 3, 99, 1_000, 1_000_001, 987_654_321] {
            let cut = calculate_trading_fee(fee, amount).unwrap();
            let back = calculate_total_amount(fee, amount - cut).unwrap();
            assert!(back >= amount && back <= amount + 1);
        }
    }
}
