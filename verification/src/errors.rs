use vstd::prelude::*;

verus! {

/// Every way an instruction of the concentrated-liquidity pool can be refused.
#[derive(Clone, Copy, Debug, PartialEq, Eq, Structural)]
pub enum ConcentratedLiquidityError {
    /// Token mints must be different.
    IdenticalMints,
    /// Fee basis points must be at most 10_000.
    InvalidFeeBps,
    /// Tick lower must be strictly less than tick upper.
    InvalidTickRange,
    /// At least one deposit amount must be greater than zero.
    ZeroLiquidityDeposit,
    /// Deposit token amounts do not match the current price relative to the position range.
    InvalidPositionTokenAmounts,
    /// Tick index must align to pool tick spacing.
    TickNotAligned,
    /// Tick array start index is invalid for this pool spacing.
    InvalidTickArrayStart,
    /// Tick index is out of bounds for the provided tick array.
    TickIndexOutOfBounds,
    /// Tick math overflow.
    TickMathOverflow,
    /// Not enough active liquidity to complete the swap.
    NoActiveLiquidity,
    /// Not enough initialized ticks were supplied to finish the swap path.
    MissingTickArrayForSwap,
    /// Swap output is below the requested minimum amount.
    SlippageExceeded,
    /// Math conversion lost precision beyond supported bounds.
    MathConversionError,
    /// Position token account does not prove current ownership of the position NFT.
    InvalidPositionTokenAccount,
    /// Position does not belong to the supplied pool.
    PositionPoolMismatch,
    /// Liquidity amount must be greater than zero.
    ZeroLiquidity,
    /// Tick liquidity would become negative.
    NegativeLiquidity,
    /// Instruction amount must be greater than zero.
    ZeroAmountSpecified,
}

} // verus!
