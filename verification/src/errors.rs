//! The reasons for which a request is refused.

use vstd::prelude::*;

verus! {

/// Refusals of the market instructions.
#[derive(Clone, Copy, Debug, PartialEq, Eq, Structural)]
pub enum MarketError {
    /// Caller is not the market admin.
    NotAdmin,
    /// Mint account does not match the market config.
    MintMismatch,
    /// Max LTV must be between 1 and 9999 bps.
    BadLtv,
    /// Amount must be greater than zero.
    ZeroAmount,
    /// Borrow would exceed the user's total collateral at LTV.
    ExceedsLtv,
    /// Withdrawing this much would leave the user undercollateralized.
    WouldBeUnhealthy,
    /// Not enough supplied collateral in this market.
    InsufficientCollateral,
    /// Vault does not have enough liquidity for this borrow.
    InsufficientLiquidity,
    /// Position has no outstanding debt to repay.
    NothingToRepay,
    /// Arithmetic overflow.
    Overflow,
    /// The other accounts must be (position, price update) pairs.
    BadRemainingAccounts,
    /// Position account is not owned by this program or not this user's.
    BadPositionAccount,
    /// Price feed account is invalid or the feed id does not match.
    BadPriceFeed,
    /// Price update is older than the maximum accepted age.
    StalePrice,
    /// Cannot borrow from a market you've supplied to. Use cross-asset collateral.
    SameMintBorrow,
    /// Position is healthy (debt within LTV); not eligible for liquidation.
    PositionHealthy,
    /// Position has nothing of the relevant kind to liquidate.
    NothingToLiquidate,
    /// Liquidators cannot liquidate themselves.
    SelfLiquidation,
    /// Account owner check failed.
    Unauthorized,
}

/// Refusals of a faucet claim.
#[derive(Clone, Copy, Debug, PartialEq, Eq, Structural)]
pub enum ClaimError {
    /// The user has claimed from this market before: their receipt is open, and
    /// an account is opened only once.
    AlreadyClaimed,
    /// A refusal that the market instructions share.
    Market(MarketError),
}

/// Refusals of the statistics instructions.
#[derive(Clone, Copy, Debug, PartialEq, Eq, Structural)]
pub enum StatsError {
    /// Stats account does not belong to this signer.
    Unauthorized,
    /// Arithmetic overflow.
    Overflow,
}

} // verus!
