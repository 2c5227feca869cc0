//! What the program keeps on chain: markets, positions, faucet receipts and
//! per-user statistics, and the events that report changes to them.

use crate::keys::Pubkey;
use vstd::prelude::*;

verus! {

/// First seed of a market's address: the bytes of `market`.
pub const MARKET_SEED: [u8; 6] = [109, 97, 114, 107, 101, 116];

/// First seed of a market's mint and vault authority: the bytes of `auth`.
pub const AUTH_SEED: [u8; 4] = [97, 117, 116, 104];

/// First seed of a market's vault: the bytes of `vault`.
pub const VAULT_SEED: [u8; 5] = [118, 97, 117, 108, 116];

/// First seed of a faucet receipt: the bytes of `claim`.
pub const CLAIM_SEED: [u8; 5] = [99, 108, 97, 105, 109];

/// First seed of a position: the bytes of `position`.
pub const POSITION_SEED: [u8; 8] = [112, 111, 115, 105, 116, 105, 111, 110];

/// First seed of a user's statistics: the bytes of `stats`.
pub const STATS_SEED: [u8; 5] = [115, 116, 97, 116, 115];

/// Basis points in one whole.
pub const BPS_DENOMINATOR: u128 = 10_000;

/// Max age of a price update that is accepted, in seconds.
pub const MAX_PRICE_AGE_SEC: u64 = 300;

/// Liquidator bonus when seizing collateral from an underwater position.
/// 500 bps = 5%.
pub const LIQUIDATION_BONUS_BPS: u128 = 500;

/// Fixed-point scale for the per-market borrow index and per-slot rate.
pub const RATE_SCALE_E18: u128 = 1_000_000_000_000_000_000;

/// Decimals of every market's token.
pub const MINT_DECIMALS: u8 = 9;

/// The address of this program,
/// `5jqXbgExBEnKPahsQineFmMJHNcEvwnniiYvDy81bZCF`.
pub const ID: [u8; 32] = [
    70, 104, 3, 15, 236, 112, 32, 173, 153, 252, 20, 232, 163, 142, 171, 184, 19, 254, 61, 64, 159,
    106, 150, 199, 215, 198, 128, 159, 251, 98, 106, 188,
];

/// One asset: its faucet and price feed, its lending terms, and its totals.
#[derive(Clone, Copy, Debug, PartialEq, Eq)]
pub struct Market {
    pub admin: Pubkey,
    pub mint: Pubkey,
    pub amount_per_claim: u64,
    pub max_ltv_bps: u16,
    pub feed_id: [u8; 32],
    pub borrow_rate_per_slot_e18: u64,
    pub borrow_index_e18: u128,
    pub last_update_slot: u64,
    pub total_supplied: u64,
    pub total_borrowed: u64,
    pub claim_count: u64,
    pub bump: u8,
    pub authority_bump: u8,
}

impl Market {
    /// Bytes that a market takes in its account, after the discriminator.
    pub const SIZE: usize = 32 + 32 + 8 + 2 + 32 + 8 + 16 + 8 + 8 + 8 + 8 + 1 + 1;

    /// The terms of a market: a limit between 1 and 9999 basis points, and an
    /// index that has not fallen below where it started.
    pub open spec fn wf(self) -> bool {
        &&& 0 < self.max_ltv_bps < BPS_DENOMINATOR
        &&& self.borrow_index_e18 >= RATE_SCALE_E18
    }
}

/// One user's collateral and debt in one market.
#[derive(Clone, Copy, Debug, PartialEq, Eq)]
pub struct Position {
    pub user: Pubkey,
    pub market: Pubkey,
    pub supplied: u64,
    pub borrowed: u64,
    pub feed_id: [u8; 32],
    pub max_ltv_bps: u16,
    pub decimals: u8,
    pub bump: u8,
    /// The market's borrow index at the user's last interaction. The debt as of
    /// now is `borrowed * market.borrow_index_e18 / snapshot`.
    pub borrow_index_snapshot_e18: u128,
}

impl Position {
    /// Bytes that a position takes in its account, after the discriminator.
    pub const SIZE: usize = 32 + 32 + 8 + 8 + 32 + 2 + 1 + 1 + 16;
}

/// Proof that a user has claimed from a market's faucet.
#[derive(Clone, Copy, Debug, PartialEq, Eq)]
pub struct ClaimReceipt {
    pub user: Pubkey,
    pub mint: Pubkey,
    pub amount: u64,
    pub claimed_at: i64,
    pub bump: u8,
}

impl ClaimReceipt {
    /// Bytes that a receipt takes in its account, after the discriminator.
    pub const SIZE: usize = 32 + 32 + 8 + 8 + 1;
}

/// How often a user has acted, and how healthy they last were.
#[derive(Clone, Copy, Debug, PartialEq, Eq)]
pub struct UserStats {
    pub user: Pubkey,
    pub created_at: i64,
    pub last_action_at: i64,
    pub proofs_submitted: u64,
    pub supplies: u64,
    pub borrows: u64,
    pub repays: u64,
    pub liquidations: u64,
    pub last_health_bps: u16,
    pub bump: u8,
}

impl UserStats {
    /// Bytes that the statistics take in their account, after the discriminator.
    pub const SIZE: usize = 32 + 8 + 8 + 8 + 8 + 8 + 8 + 8 + 2 + 1;
}

/// What a recorded action did.
#[derive(Clone, Copy, Debug, PartialEq, Eq, Structural)]
pub enum ActionKind {
    Supply,
    Borrow,
    Repay,
    Liquidation,
}

/// What a market instruction did.
#[derive(Clone, Copy, Debug, PartialEq, Eq, Structural)]
pub enum MarketActionKind {
    Supply,
    Withdraw,
    Borrow,
    Repay,
}

/// A user drew test tokens from a market's faucet.
#[derive(Clone, Copy, Debug, PartialEq, Eq)]
pub struct FaucetClaimed {
    pub user: Pubkey,
    pub mint: Pubkey,
    pub amount: u64,
    pub claimed_at: i64,
}

/// A user's position changed; the amounts are those after the change.
#[derive(Clone, Copy, Debug, PartialEq, Eq)]
pub struct MarketAction {
    pub user: Pubkey,
    pub mint: Pubkey,
    pub kind: MarketActionKind,
    pub supplied: u64,
    pub borrowed: u64,
}

/// A user's statistics recorded an action.
#[derive(Clone, Copy, Debug, PartialEq, Eq)]
pub struct ActionRecorded {
    pub user: Pubkey,
    pub kind: ActionKind,
    pub health_bps: u16,
    pub at: i64,
}

/// A liquidator paid debt of a borrower and took collateral for it.
#[derive(Clone, Copy, Debug, PartialEq, Eq)]
pub struct Liquidation {
    pub liquidator: Pubkey,
    pub borrower: Pubkey,
    pub debt_mint: Pubkey,
    pub collateral_mint: Pubkey,
    pub repaid: u64,
    pub seized: u64,
}

} // verus!
