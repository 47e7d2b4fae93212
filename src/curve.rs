use vstd::prelude::*;

use crate::account::Address;
use crate::error::PumpFunError;

verus! {

/// State of one bonding curve. Only the reserves take part in pricing: the
/// price uses virtual plus real reserve of each side, while the split between
/// virtual and real is supply bookkeeping.
#[derive(Clone, Copy, Debug)]
pub struct PoolState {
    /// Creator of the curve.
    pub owner: Address,
    /// Mint of the base token.
    pub base_mint: Address,
    /// Virtual base reserve: fixed at creation, it shapes the initial price.
    pub virt_base_reserves: u64,
    /// Base tokens the curve actually holds.
    pub real_base_reserves: u64,
    /// Mint of the quote token.
    pub quote_mint: Address,
    /// Virtual quote reserve: fixed at creation, it shapes the initial price.
    pub virt_quote_reserves: u64,
    /// Quote tokens deposited in the curve so far.
    pub real_quote_reserves: u64,
    /// Real quote reserve at which the curve is fully funded.
    pub real_quote_threshold: u64,
    /// Set once the real quote reserve has reached the threshold.
    pub complete: bool,
}

impl PoolState {
    /// A curve is marked complete only once its real quote reserve has reached
    /// the threshold.
    pub open spec fn wf(self) -> bool {
        self.complete ==> self.real_quote_reserves >= self.real_quote_threshold
    }

    /// Base reserve the curve prices with: virtual plus real.
    pub open spec fn effective_base(self) -> int {
        self.virt_base_reserves + self.real_base_reserves
    }

    /// Quote reserve the curve prices with: virtual plus real.
    pub open spec fn effective_quote(self) -> int {
        self.virt_quote_reserves + self.real_quote_reserves
    }

    /// Both effective reserves fit in 64 bits.
    pub open spec fn reserves_fit(self) -> bool {
        self.effective_base() <= u64::MAX && self.effective_quote() <= u64::MAX
    }

    /// Base tokens a buyer receives for `quote_amount` quote tokens.
    pub open spec fn buy_receivable(self, quote_amount: u64) -> Result<u64, PumpFunError> {
        if quote_amount == 0 {
            Err(PumpFunError::InvalidTradeAmount)
        } else if !self.reserves_fit() {
            Err(PumpFunError::ArithmeticOverflow)
        } else {
            Ok(output_for_input(quote_amount as int, self.effective_quote(), self.effective_base()) as u64)
        }
    }

    /// Quote tokens a buyer must pay to receive exactly `base_amount` base tokens.
    pub open spec fn buy_required(self, base_amount: u64) -> Result<u64, PumpFunError> {
        if base_amount == 0 || base_amount >= self.effective_base() {
            Err(PumpFunError::InvalidTradeAmount)
        } else if !self.reserves_fit() || input_for_output(
            base_amount as int,
            self.effective_quote(),
            self.effective_base(),
        ) > u64::MAX {
            Err(PumpFunError::ArithmeticOverflow)
        } else {
            Ok(input_for_output(base_amount as int, self.effective_quote(), self.effective_base()) as u64)
        }
    }

    /// Quote tokens a seller receives for returning `base_amount` base tokens.
    pub open spec fn sell_receivable(self, base_amount: u64) -> Result<u64, PumpFunError> {
        if base_amount == 0 {
            Err(PumpFunError::InvalidTradeAmount)
        } else if !self.reserves_fit() {
            Err(PumpFunError::ArithmeticOverflow)
        } else {
            Ok(output_for_input(base_amount as int, self.effective_base(), self.effective_quote()) as u64)
        }
    }

    /// Effective base and quote reserves, or an overflow if either exceeds 64 bits.
    fn effective_reserves(&self) -> (r: Result<(u64, u64), PumpFunError>)
        ensures
            self.reserves_fit() ==> r == Ok::<(u64, u64), PumpFunError>(
                (self.effective_base() as u64, self.effective_quote() as u64),
            ),
            !self.reserves_fit() ==> r == Err::<(u64, u64), PumpFunError>(PumpFunError::ArithmeticOverflow),
    {
        let base = match self.virt_base_reserves.checked_add(self.real_base_reserves) {
            Some(v) => v,
            None => return Err(PumpFunError::ArithmeticOverflow),
        };
        let quote = match self.virt_quote_reserves.checked_add(self.real_quote_reserves) {
            Some(v) => v,
            None => return Err(PumpFunError::ArithmeticOverflow),
        };
        Ok((base, quote))
    }

    /// Base tokens received when buying with `quote_amount` quote tokens:
    /// `effective_base * quote_amount / (effective_quote + quote_amount)`, floored.
    pub fn compute_receivable_amount_on_buy(&mut self, quote_amount: u64) -> (r: Result<u64, PumpFunError>)
        ensures
            *final(self) == *old(self),
            r == old(self).buy_receivable(quote_amount),
            r matches Ok(v) ==> v == output_for_input(quote_amount as int, old(self).effective_quote(), old(self).effective_base()),
    {
        if quote_amount == 0 {
            return Err(PumpFunError::InvalidTradeAmount);
        }
        let (base, quote) = self.effective_reserves()?;
        calculate_output_amount(quote_amount, quote, base)
    }

    /// Quote tokens required to buy exactly `base_amount` base tokens:
    /// `effective_quote * base_amount / (effective_base - base_amount)`, floored.
    pub fn compute_required_amount_on_buy(&mut self, base_amount: u64) -> (r: Result<u64, PumpFunError>)
        ensures
            *final(self) == *old(self),
            r == old(self).buy_required(base_amount),
            r matches Ok(v) ==> v == input_for_output(base_amount as int, old(self).effective_quote(), old(self).effective_base()),
    {
        if base_amount == 0 || (base_amount as u128) >= (self.virt_base_reserves as u128) + (self.real_base_reserves as u128) {
            return Err(PumpFunError::InvalidTradeAmount);
        }
        let (base, quote) = self.effective_reserves()?;
        calculate_input_amount(base_amount, quote, base)
    }

    /// Quote tokens received when selling `base_amount` base tokens:
    /// `effective_quote * base_amount / (effective_base + base_amount)`, floored.
    pub fn compute_receivable_amount_on_sell(&mut self, base_amount: u64) -> (r: Result<u64, PumpFunError>)
        ensures
            *final(self) == *old(self),
            r == old(self).sell_receivable(base_amount),
            r matches Ok(v) ==> v == output_for_input(base_amount as int, old(self).effective_base(), old(self).effective_quote()),
    {
        if base_amount == 0 {
            return Err(PumpFunError::InvalidTradeAmount);
        }
        let (base, quote) = self.effective_reserves()?;
        calculate_output_amount(base_amount, base, quote)
    }

    /// Whether the curve has reached its quote threshold.
    pub fn is_complete(&self) -> (r: bool)
        ensures
            r == self.complete,
    {
        self.complete
    }

    /// Applies a buy: `quote_amount` quote tokens come in and `base_amount` base
    /// tokens go out. The curve completes when the new real quote reserve
    /// reaches the threshold (an overshoot still completes it). A complete
    /// curve takes no trade, and the curve cannot hand out more base tokens
    /// than it holds.
    pub fn apply_buy(&mut self, quote_amount: u64, base_amount: u64) -> (r: Result<(), PumpFunError>)
        ensures
            old(self).complete ==> r == Err::<(), PumpFunError>(PumpFunError::CurveComplete),
            !old(self).complete && base_amount > old(self).real_base_reserves
                ==> r == Err::<(), PumpFunError>(PumpFunError::InvalidTradeAmount),
            !old(self).complete && base_amount <= old(self).real_base_reserves
                && old(self).real_quote_reserves + quote_amount > u64::MAX
                ==> r == Err::<(), PumpFunError>(PumpFunError::ArithmeticOverflow),
            r is Err ==> *final(self) == *old(self),
            r is Ok ==> *final(self) == (PoolState {
                real_base_reserves: (old(self).real_base_reserves - base_amount) as u64,
                real_quote_reserves: (old(self).real_quote_reserves + quote_amount) as u64,
                complete: old(self).real_quote_reserves + quote_amount >= old(self).real_quote_threshold,
                ..*old(self)
            }),
            !old(self).complete && base_amount <= old(self).real_base_reserves
                && old(self).real_quote_reserves + quote_amount <= u64::MAX ==> r is Ok,
            old(self).wf() ==> final(self).wf(),
    {
        if self.complete {
            return Err(PumpFunError::CurveComplete);
        }
        if base_amount > self.real_base_reserves {
            return Err(PumpFunError::InvalidTradeAmount);
        }
        let quote = match self.real_quote_reserves.checked_add(quote_amount) {
            Some(v) => v,
            None => return Err(PumpFunError::ArithmeticOverflow),
        };
        self.real_base_reserves = self.real_base_reserves - base_amount;
        self.real_quote_reserves = quote;
        self.complete = quote >= self.real_quote_threshold;
        Ok(())
    }

    /// Applies a sell: `base_amount` base tokens come back and `quote_amount`
    /// quote tokens go out. A complete curve takes no trade, and the curve
    /// cannot pay out more quote tokens than it holds.
    pub fn apply_sell(&mut self, base_amount: u64, quote_amount: u64) -> (r: Result<(), PumpFunError>)
        ensures
            old(self).complete ==> r == Err::<(), PumpFunError>(PumpFunError::CurveComplete),
            !old(self).complete && quote_amount > old(self).real_quote_reserves
                ==> r == Err::<(), PumpFunError>(PumpFunError::InvalidTradeAmount),
            !old(self).complete && quote_amount <= old(self).real_quote_reserves
                && old(self).real_base_reserves + base_amount > u64::MAX
                ==> r == Err::<(), PumpFunError>(PumpFunError::ArithmeticOverflow),
            r is Err ==> *final(self) == *old(self),
            r is Ok ==> *final(self) == (PoolState {
                real_base_reserves: (old(self).real_base_reserves + base_amount) as u64,
                real_quote_reserves: (old(self).real_quote_reserves - quote_amount) as u64,
                ..*old(self)
            }),
            !old(self).complete && quote_amount <= old(self).real_quote_reserves
                && old(self).real_base_reserves + base_amount <= u64::MAX ==> r is Ok,
            old(self).wf() ==> final(self).wf(),
    {
        if self.complete {
            return Err(PumpFunError::CurveComplete);
        }
        if quote_amount > self.real_quote_reserves {
            return Err(PumpFunError::InvalidTradeAmount);
        }
        let base = match self.real_base_reserves.checked_add(base_amount) {
            Some(v) => v,
            None => return Err(PumpFunError::ArithmeticOverflow),
        };
        self.real_base_reserves = base;
        self.real_quote_reserves = self.real_quote_reserves - quote_amount;
        Ok(())
    }
}

/// Amount that leaves a constant-product pool when `input_amount` enters it:
/// `output_reserve * input_amount / (input_reserve + input_amount)`, floored.
pub open spec fn output_for_input(input_amount: int, input_reserve: int, output_reserve: int) -> int {
    output_reserve * input_amount / (input_reserve + input_amount)
}

/// Amount that must enter a constant-product pool for `output_amount` to leave it:
/// `input_reserve * output_amount / (output_reserve - output_amount)`, floored.
pub open spec fn input_for_output(output_amount: int, input_reserve: int, output_reserve: int) -> int {
    input_reserve * output_amount / (output_reserve - output_amount)
}

proof fn lemma_output_below_reserve(input_amount: int, input_reserve: int, output_reserve: int)
    requires
        input_amount > 0,
        input_reserve >= 0,
        output_reserve >= 0,
    ensures
        0 <= output_for_input(input_amount, input_reserve, output_reserve) <= output_reserve,
        input_reserve > 0 && output_reserve > 0 ==> output_for_input(input_amount, input_reserve, output_reserve) < output_reserve,
{
    let d = input_reserve + input_amount;
    let p = output_reserve * input_amount;
    assert(0 <= p) by (nonlinear_arith)
        requires input_amount > 0, output_reserve >= 0, p == output_reserve * input_amount;
    assert(p <= output_reserve * d) by (nonlinear_arith)
        requires input_amount > 0, input_reserve >= 0, output_reserve >= 0, d == input_reserve + input_amount, p == output_reserve * input_amount;
    assert(p / d <= output_reserve) by (nonlinear_arith)
        requires d > 0, 0 <= p <= output_reserve * d;
    assert(0 <= p / d) by (nonlinear_arith)
        requires d > 0, 0 <= p;
    if input_reserve > 0 && output_reserve > 0 {
        assert(p < output_reserve * d) by (nonlinear_arith)
            requires input_reserve > 0, output_reserve > 0, d == input_reserve + input_amount, p == output_reserve * input_amount;
        assert(p / d < output_reserve) by (nonlinear_arith)
            requires d > 0, 0 <= p < output_reserve * d;
    }
}

proof fn lemma_div_cross_le(a: int, c: int, b: int, d: int)
    requires
        a >= 0,
        b >= 0,
        c > 0,
        d > 0,
        a * d <= b * c,
    ensures
        a / c <= b / d,
{
    let x = a / c;
    assert(x * c <= a) by (nonlinear_arith)
        requires c > 0, a >= 0, x == a / c;
    assert(x * c * d <= a * d) by (nonlinear_arith)
        requires x * c <= a, d > 0;
    assert(x * d * c <= b * c) by (nonlinear_arith)
        requires x * c * d <= a * d, a * d <= b * c;
    assert(x * d <= b) by (nonlinear_arith)
        requires x * d * c <= b * c, c > 0;
    assert(x <= b / d) by (nonlinear_arith)
        requires x * d <= b, d > 0;
}

proof fn lemma_output_monotonic(q1: int, q2: int, input_reserve: int, output_reserve: int)
    requires
        0 < q1 <= q2,
        input_reserve >= 0,
        output_reserve >= 0,
    ensures
        output_for_input(q1, input_reserve, output_reserve) <= output_for_input(q2, input_reserve, output_reserve),
{
    let a = output_reserve * q1;
    let b = output_reserve * q2;
    let c = input_reserve + q1;
    let d = input_reserve + q2;
    assert(a * d <= b * c) by (nonlinear_arith)
        requires
            0 < q1 <= q2,
            input_reserve >= 0,
            output_reserve >= 0,
            a == output_reserve * q1,
            b == output_reserve * q2,
            c == input_reserve + q1,
            d == input_reserve + q2,
    ;
    assert(a >= 0 && b >= 0) by (nonlinear_arith)
        requires 0 < q1 <= q2, output_reserve >= 0, a == output_reserve * q1, b == output_reserve * q2;
    lemma_div_cross_le(a, c, b, d);
}

proof fn lemma_round_trip_bound(q: int, input_reserve: int, output_reserve: int)
    requires
        q > 0,
        input_reserve > 0,
        output_reserve > 0,
        output_for_input(q, input_reserve, output_reserve) > 0,
    ensures
        output_for_input(q, input_reserve, output_reserve) < output_reserve,
        input_for_output(output_for_input(q, input_reserve, output_reserve), input_reserve, output_reserve) <= q,
{
    lemma_output_below_reserve(q, input_reserve, output_reserve);
    let out = output_for_input(q, input_reserve, output_reserve);
    let p = output_reserve * q;
    let c = input_reserve + q;
    assert(out * c <= p) by (nonlinear_arith)
        requires c > 0, p >= 0, out == p / c;
    let rest = output_reserve - out;
    assert(input_reserve * out <= q * rest) by (nonlinear_arith)
        requires
            out * c <= p,
            c == input_reserve + q,
            p == output_reserve * q,
            rest == output_reserve - out,
    ;
    assert((input_reserve * out) / rest <= q) by (nonlinear_arith)
        requires rest > 0, input_reserve * out <= q * rest, input_reserve * out >= 0;
}

/// Constant-product output for a given input, in double width then floored.
pub fn calculate_output_amount(input_amount: u64, input_reserve: u64, output_reserve: u64) -> (r: Result<u64, PumpFunError>)
    ensures
        input_amount == 0 ==> r == Err::<u64, PumpFunError>(PumpFunError::InvalidTradeAmount),
        input_amount > 0 ==> r == Ok::<u64, PumpFunError>(
            output_for_input(input_amount as int, input_reserve as int, output_reserve as int) as u64,
        ),
        r matches Ok(v) ==> v == output_for_input(input_amount as int, input_reserve as int, output_reserve as int),
{
    if input_amount == 0 {
        return Err(PumpFunError::InvalidTradeAmount);
    }
    proof {
        lemma_output_below_reserve(input_amount as int, input_reserve as int, output_reserve as int);
        assert((output_reserve as u128) * (input_amount as u128) <= u128::MAX) by (nonlinear_arith)
            requires output_reserve <= u64::MAX, input_amount <= u64::MAX;
    }
    let product: u128 = (output_reserve as u128) * (input_amount as u128);
    let denominator: u128 = (input_reserve as u128) + (input_amount as u128);
    let output: u128 = product / denominator;
    Ok(output as u64)
}

/// Constant-product input required for a given output, in double width then floored.
/// The output must be positive and strictly below the output reserve, and the
/// required input must fit in 64 bits.
pub fn calculate_input_amount(output_amount: u64, input_reserve: u64, output_reserve: u64) -> (r: Result<u64, PumpFunError>)
    ensures
        output_amount == 0 || output_amount >= output_reserve
            ==> r == Err::<u64, PumpFunError>(PumpFunError::InvalidTradeAmount),
        0 < output_amount < output_reserve
            && input_for_output(output_amount as int, input_reserve as int, output_reserve as int) > u64::MAX
            ==> r == Err::<u64, PumpFunError>(PumpFunError::ArithmeticOverflow),
        0 < output_amount < output_reserve
            && input_for_output(output_amount as int, input_reserve as int, output_reserve as int) <= u64::MAX
            ==> r == Ok::<u64, PumpFunError>(
            input_for_output(output_amount as int, input_reserve as int, output_reserve as int) as u64,
        ),
{
    if output_amount == 0 || output_amount >= output_reserve {
        return Err(PumpFunError::InvalidTradeAmount);
    }
    proof {
        assert((input_reserve as u128) * (output_amount as u128) <= u128::MAX) by (nonlinear_arith)
            requires input_reserve <= u64::MAX, output_amount <= u64::MAX;
    }
    let product: u128 = (input_reserve as u128) * (output_amount as u128);
    let denominator: u128 = (output_reserve as u128) - (output_amount as u128);
    let input: u128 = product / denominator;
    if input > u64::MAX as u128 {
        return Err(PumpFunError::ArithmeticOverflow);
    }
    Ok(input as u64)
}

/// Buying for `quote_amount` and then asking what exactly the received base
/// amount costs never asks for more than was paid: rounding never favours the
/// trader. The second price exists whenever the first trade received a positive
/// amount from a pool with a positive quote reserve.
pub proof fn lemma_buy_round_trip_favours_pool(pool: PoolState, quote_amount: u64)
    ensures
        match pool.buy_receivable(quote_amount) {
            Ok(base_amount) => base_amount > 0 && pool.effective_quote() > 0 ==> match pool.buy_required(base_amount) {
                Ok(required) => required <= quote_amount,
                Err(_) => false,
            },
            Err(_) => true,
        },
{
    if quote_amount > 0 && pool.reserves_fit() && pool.effective_quote() > 0 {
        let out = output_for_input(quote_amount as int, pool.effective_quote(), pool.effective_base());
        lemma_output_below_reserve(quote_amount as int, pool.effective_quote(), pool.effective_base());
        if out > 0 {
            lemma_round_trip_bound(quote_amount as int, pool.effective_quote(), pool.effective_base());
        }
    }
}

/// For fixed reserves, the base amount a buy receives does not decrease as the
/// quote amount paid grows; and where the larger buy succeeds, so does every
/// smaller positive one.
pub proof fn lemma_buy_receivable_monotonic(pool: PoolState, quote_small: u64, quote_large: u64)
    requires
        quote_small <= quote_large,
    ensures
        0 < quote_small && pool.buy_receivable(quote_large) is Ok ==> pool.buy_receivable(quote_small) is Ok,
        match (pool.buy_receivable(quote_small), pool.buy_receivable(quote_large)) {
            (Ok(small), Ok(large)) => small <= large,
            _ => true,
        },
{
    if 0 < quote_small && pool.reserves_fit() {
        lemma_output_below_reserve(quote_small as int, pool.effective_quote(), pool.effective_base());
        lemma_output_below_reserve(quote_large as int, pool.effective_quote(), pool.effective_base());
        lemma_output_monotonic(quote_small as int, quote_large as int, pool.effective_quote(), pool.effective_base());
    }
}

/// Asking for as much base as the curve's effective base reserve, or more, is
/// refused as an invalid trade amount.
pub proof fn lemma_buy_required_rejects_whole_reserve(pool: PoolState, base_amount: u64)
    requires
        base_amount >= pool.effective_base(),
    ensures
        pool.buy_required(base_amount) == Err::<u64, PumpFunError>(PumpFunError::InvalidTradeAmount),
{
}

} // verus!
