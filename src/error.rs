use vstd::prelude::*;

verus! {

/// Every way a pricing or bookkeeping operation can refuse its input.
#[derive(Clone, Copy, Debug, PartialEq, Eq, Structural)]
pub enum PumpFunError {
    /// A zero amount where a positive one is needed, or an output that would
    /// take all (or more than all) of the available reserve.
    InvalidTradeAmount,
    /// A value that does not fit the fixed-width integer that holds it.
    ArithmeticOverflow,
    /// A fee rate of 100% or more, for which grossing up is undefined.
    InvalidFeeRate,
    /// The owner's native balance cannot cover a required top-up.
    InsufficientFund,
    /// The curve has reached its quote threshold and takes no more trades.
    CurveComplete,
}

} // verus!
