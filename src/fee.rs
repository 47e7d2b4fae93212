use vstd::prelude::*;

use crate::error::PumpFunError;

verus! {

/// Fee rates are counted in basis points: a rate of `FEE_DENOMINATOR` is 100%.
pub const FEE_DENOMINATOR: u64 = 10_000;

/// Fee charged on `amount` at `fee_rate` basis points, floored.
pub open spec fn fee_of(fee_rate: int, amount: int) -> int {
    amount * fee_rate / (FEE_DENOMINATOR as int)
}

/// Amount that leaves `net_amount` once a fee of `fee_rate` basis points is
/// taken from it: `net_amount * 100% / (100% - fee_rate)`, floored.
pub open spec fn gross_of(fee_rate: int, net_amount: int) -> int {
    net_amount * (FEE_DENOMINATOR as int) / (FEE_DENOMINATOR - fee_rate)
}

/// Trading fee on `amount` at `fee` basis points, computed in double width and
/// floored. Fails only where the fee does not fit in 64 bits (a rate above 100%).
pub fn calculate_trading_fee(fee: u64, amount: u64) -> (r: Result<u64, PumpFunError>)
    ensures
        fee_of(fee as int, amount as int) <= u64::MAX
            ==> r == Ok::<u64, PumpFunError>(fee_of(fee as int, amount as int) as u64),
        fee_of(fee as int, amount as int) > u64::MAX
            ==> r == Err::<u64, PumpFunError>(PumpFunError::ArithmeticOverflow),
        fee <= FEE_DENOMINATOR ==> r is Ok,
{
    proof {
        assert((amount as u128) * (fee as u128) <= u128::MAX) by (nonlinear_arith)
            requires amount <= u64::MAX, fee <= u64::MAX;
        if fee <= FEE_DENOMINATOR {
            assert(fee_of(fee as int, amount as int) <= amount) by (nonlinear_arith)
                requires fee <= FEE_DENOMINATOR, amount >= 0, fee >= 0;
        }
    }
    let product: u128 = (amount as u128) * (fee as u128);
    let fee_amount: u128 = product / (FEE_DENOMINATOR as u128);
    if fee_amount > u64::MAX as u128 {
        return Err(PumpFunError::ArithmeticOverflow);
    }
    Ok(fee_amount as u64)
}

/// Total amount a payer must provide so that `input_amount` remains after a
/// fee of `fee` basis points, computed in double width and floored.
pub fn calculate_total_amount(fee: u64, input_amount: u64) -> (r: Result<u64, PumpFunError>)
    ensures
        fee >= FEE_DENOMINATOR ==> r == Err::<u64, PumpFunError>(PumpFunError::InvalidFeeRate),
        fee < FEE_DENOMINATOR && gross_of(fee as int, input_amount as int) > u64::MAX
            ==> r == Err::<u64, PumpFunError>(PumpFunError::ArithmeticOverflow),
        fee < FEE_DENOMINATOR && gross_of(fee as int, input_amount as int) <= u64::MAX
            ==> r == Ok::<u64, PumpFunError>(gross_of(fee as int, input_amount as int) as u64),
{
    if fee >= FEE_DENOMINATOR {
        return Err(PumpFunError::InvalidFeeRate);
    }
    assert((input_amount as u128) * (FEE_DENOMINATOR as u128) <= u128::MAX) by (nonlinear_arith)
        requires input_amount <= u64::MAX, FEE_DENOMINATOR == 10_000;
    let product: u128 = (input_amount as u128) * (FEE_DENOMINATOR as u128);
    let total: u128 = product / ((FEE_DENOMINATOR - fee) as u128);
    if total > u64::MAX as u128 {
        return Err(PumpFunError::ArithmeticOverflow);
    }
    Ok(total as u64)
}

/// Taking the fee off an amount and grossing the rest back up lands on the
/// amount or one unit above it, for every fee rate up to 50%. (Above 50% the
/// two floors can drift further apart.)
pub proof fn lemma_fee_round_trip(fee: u64, amount: u64)
    requires
        2 * fee <= FEE_DENOMINATOR,
    ensures
        0 <= fee_of(fee as int, amount as int) <= amount,
        amount <= gross_of(fee as int, amount - fee_of(fee as int, amount as int)) <= amount + 1,
{
    let s = FEE_DENOMINATOR as int;
    let f = fee as int;
    let a = amount as int;
    let fa = fee_of(f, a);
    assert(fa * s <= a * f < (fa + 1) * s) by (nonlinear_arith)
        requires s == 10_000, fa == a * f / s, a >= 0, f >= 0;
    assert(0 <= fa <= a) by (nonlinear_arith)
        requires fa * s <= a * f < (fa + 1) * s, s == 10_000, 2 * f <= s, a >= 0, f >= 0;
    let net = a - fa;
    let g = gross_of(f, net);
    let k = s - f;
    assert(a * k <= net * s < a * k + s) by (nonlinear_arith)
        requires fa * s <= a * f < (fa + 1) * s, net == a - fa, k == s - f;
    assert(g * k <= net * s < (g + 1) * k) by (nonlinear_arith)
        requires g == net * s / k, k > 0, net * s >= 0;
    assert(a <= g) by (nonlinear_arith)
        requires a * k <= net * s, net * s < (g + 1) * k, k > 0;
    assert(g <= a + 1) by (nonlinear_arith)
        requires g * k <= net * s, net * s < a * k + s, s <= 2 * k, k > 0;
}

} // verus!
