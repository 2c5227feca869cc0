//! Liquidating borrowers whose debt is no longer covered.

use crate::chain;
use crate::chain::{AccountInfo, Clock, TokenAccount, Transfer};
use crate::errors::MarketError;
use crate::health;
use crate::health::Totals;
use crate::interest;
use crate::keys::Pubkey;
use crate::math;
use crate::oracle;
use crate::oracle::PriceUpdateV2;
use crate::positions;
use crate::state::{Liquidation, Market, Position, BPS_DENOMINATOR, LIQUIDATION_BONUS_BPS};
use crate::valuation;
use crate::valuation::Price;
use vstd::prelude::*;

verus! {

/// What `liquidate` is called with. The liquidator and borrower are different
/// wallets.
#[derive(Clone, Copy, Debug, PartialEq, Eq)]
pub struct Liquidate {
    pub liquidator: Pubkey,
    pub borrower: Pubkey,
    pub debt_market: Market,
    pub debt_position_key: Pubkey,
    pub debt_position: Position,
    pub debt_vault: TokenAccount,
    pub debt_price_update: PriceUpdateV2,
    pub liquidator_debt_ata: TokenAccount,
    pub collateral_market: Market,
    pub collateral_position_key: Pubkey,
    pub collateral_position: Position,
    pub collateral_vault: TokenAccount,
    pub collateral_authority: Pubkey,
    pub collateral_price_update: PriceUpdateV2,
    pub liquidator_collateral_ata: TokenAccount,
}

/// A liquidation whose health check is outstanding: both markets and positions
/// with their interest, and both prices.
#[derive(Clone, Copy, Debug, PartialEq, Eq)]
pub struct Case {
    pub debt_market: Market,
    pub debt_position: Position,
    pub debt_price: Price,
    pub collateral_market: Market,
    pub collateral_position: Position,
    pub collateral_price: Price,
}

/// A liquidation that holds once its tokens have moved: first the repayment,
/// then the seized collateral; and what is then recorded.
#[derive(Clone, Copy, Debug, PartialEq, Eq)]
pub struct PendingLiquidation {
    pub repayment: Transfer,
    pub seizure: Transfer,
    pub debt_market: Market,
    pub debt_position: Position,
    pub collateral_market: Market,
    pub collateral_position: Position,
    pub event: Liquidation,
}

/// The liquidator's token accounts must be of the right mints, and theirs.
pub open spec fn accounts_refusal(ctx: Liquidate) -> Option<MarketError> {
    if ctx.liquidator_debt_ata.mint != ctx.debt_market.mint {
        Some(MarketError::MintMismatch)
    } else if ctx.liquidator_debt_ata.owner != ctx.liquidator {
        Some(MarketError::Unauthorized)
    } else if ctx.liquidator_collateral_ata.mint != ctx.collateral_market.mint {
        Some(MarketError::MintMismatch)
    } else if ctx.liquidator_collateral_ata.owner != ctx.liquidator {
        Some(MarketError::Unauthorized)
    } else {
        None
    }
}

/// Why a liquidation is refused before any price is looked at.
pub open spec fn request_refusal(
    ctx: Liquidate,
    repay_amount: u64,
    debt_position: Position,
    collateral_position: Position,
) -> Option<MarketError> {
    match accounts_refusal(ctx) {
        Some(refusal) => Some(refusal),
        None => if repay_amount == 0 {
            Some(MarketError::ZeroAmount)
        } else if ctx.liquidator == ctx.borrower {
            Some(MarketError::SelfLiquidation)
        } else if debt_position.user != ctx.borrower || collateral_position.user != ctx.borrower {
            Some(MarketError::BadPositionAccount)
        } else if debt_position.borrowed == 0 || collateral_position.supplied == 0 {
            Some(MarketError::NothingToLiquidate)
        } else {
            None
        },
    }
}

/// The case that a liquidation opens, or why it is refused before the health
/// check.
pub open spec fn opened_case(ctx: Liquidate, repay_amount: u64, clock: Clock) -> Result<
    Case,
    MarketError,
> {
    let (debt_market, debt_position) = positions::with_interest(
        ctx.debt_market,
        ctx.debt_position,
        clock,
    );
    let (collateral_market, collateral_position) = positions::with_interest(
        ctx.collateral_market,
        ctx.collateral_position,
        clock,
    );
    let now = clock.unix_timestamp;
    match request_refusal(ctx, repay_amount, debt_position, collateral_position) {
        Some(refusal) => Err(refusal),
        None => match oracle::price_or_refusal(ctx.debt_price_update, now, debt_market.feed_id) {
            Err(refusal) => Err(refusal),
            Ok(debt_price) => match oracle::price_or_refusal(
                ctx.collateral_price_update,
                now,
                collateral_market.feed_id,
            ) {
                Err(refusal) => Err(refusal),
                Ok(collateral_price) => Ok(
                    Case {
                        debt_market,
                        debt_position,
                        debt_price,
                        collateral_market,
                        collateral_position,
                        collateral_price,
                    },
                ),
            },
        },
    }
}

/// The borrower's totals over both positions of the case and the others, and
/// the refusal that the others meet.
pub open spec fn case_totals(
    ctx: Liquidate,
    case: Case,
    others: Seq<AccountInfo>,
    updates: Seq<Option<PriceUpdateV2>>,
    now: i64,
) -> (Totals, Result<(), MarketError>) {
    let debt_side = health::with_position(
        Totals::none(),
        case.debt_position.supplied,
        case.debt_position.borrowed,
        case.debt_price,
        case.debt_position.decimals,
        case.debt_position.max_ltv_bps,
    );
    let both_sides = health::with_position(
        debt_side,
        case.collateral_position.supplied,
        case.collateral_position.borrowed,
        case.collateral_price,
        case.collateral_position.decimals,
        case.collateral_position.max_ltv_bps,
    );
    health::with_others(
        both_sides,
        others,
        updates,
        ctx.borrower,
        seq![ctx.debt_position_key, ctx.collateral_position_key],
        now,
    )
}

/// What is repaid: no more than is owed.
pub open spec fn repaid(case: Case, repay_amount: u64) -> u64 {
    positions::paid(repay_amount, case.debt_position.borrowed)
}

/// The dollars that are repaid.
pub open spec fn repaid_value(case: Case, repay_amount: u64) -> int {
    valuation::usd_8dp(
        repaid(case, repay_amount) as int,
        case.debt_price,
        case.debt_position.decimals,
    )
}

/// The dollars of collateral that a repayment is good for: its own, and the
/// bonus.
pub open spec fn seizable_value(case: Case, repay_amount: u64) -> int {
    math::sat(
        repaid_value(case, repay_amount) * (BPS_DENOMINATOR + LIQUIDATION_BONUS_BPS),
    ) / (BPS_DENOMINATOR as int)
}

/// What is seized: no more than is supplied.
pub open spec fn seized(case: Case, repay_amount: u64) -> u64 {
    let units = valuation::token_units(
        seizable_value(case, repay_amount),
        case.collateral_price,
        case.collateral_position.decimals,
    );
    if units > case.collateral_position.supplied {
        case.collateral_position.supplied
    } else {
        units as u64
    }
}

/// A liquidation whose health check came out at `totals`.
pub open spec fn liquidation(
    ctx: Liquidate,
    repay_amount: u64,
    case: Case,
    totals: Totals,
) -> Result<PendingLiquidation, MarketError> {
    let repay = repaid(case, repay_amount);
    let seize = seized(case, repay_amount);
    if totals.healthy() {
        Err(MarketError::PositionHealthy)
    } else if seize == 0 {
        Err(MarketError::NothingToLiquidate)
    } else if ctx.collateral_vault.amount < seize {
        Err(MarketError::InsufficientLiquidity)
    } else {
        Ok(
            PendingLiquidation {
                repayment: Transfer {
                    from: ctx.liquidator_debt_ata.key,
                    to: ctx.debt_vault.key,
                    authority: ctx.liquidator,
                    amount: repay,
                    signer: None,
                },
                seizure: Transfer {
                    from: ctx.collateral_vault.key,
                    to: ctx.liquidator_collateral_ata.key,
                    authority: ctx.collateral_authority,
                    amount: seize,
                    signer: Some(chain::authority_of(ctx.collateral_market)),
                },
                debt_market: Market {
                    total_borrowed: positions::less(case.debt_market.total_borrowed, repay),
                    ..case.debt_market
                },
                debt_position: Position {
                    borrowed: (case.debt_position.borrowed - repay) as u64,
                    ..case.debt_position
                },
                collateral_market: Market {
                    total_supplied: positions::less(case.collateral_market.total_supplied, seize),
                    ..case.collateral_market
                },
                collateral_position: Position {
                    supplied: (case.collateral_position.supplied - seize) as u64,
                    ..case.collateral_position
                },
                event: Liquidation {
                    liquidator: ctx.liquidator,
                    borrower: ctx.borrower,
                    debt_mint: case.debt_market.mint,
                    collateral_mint: case.collateral_market.mint,
                    repaid: repay,
                    seized: seize,
                },
            },
        )
    }
}

fn check_accounts(ctx: &Liquidate) -> (checked: Result<(), MarketError>)
    ensures
        checked == match accounts_refusal(*ctx) {
            Some(refusal) => Err(refusal),
            None => Ok(()),
        },
{
    if ctx.liquidator_debt_ata.mint != ctx.debt_market.mint {
        return Err(MarketError::MintMismatch);
    }
    if ctx.liquidator_debt_ata.owner != ctx.liquidator {
        return Err(MarketError::Unauthorized);
    }
    if ctx.liquidator_collateral_ata.mint != ctx.collateral_market.mint {
        return Err(MarketError::MintMismatch);
    }
    if ctx.liquidator_collateral_ata.owner != ctx.liquidator {
        return Err(MarketError::Unauthorized);
    }
    Ok(())
}

/// Checks a liquidation up to its health check. Brings both markets' indices
/// and the borrower's positions up to date, so that the health check and the
/// seizure operate on real current debt.
pub fn open_case(ctx: &Liquidate, repay_amount: u64, clock: &Clock) -> (case: Result<
    Case,
    MarketError,
>)
    ensures
        case == opened_case(*ctx, repay_amount, *clock),
{
    match check_accounts(ctx) {
        Err(refusal) => {
            return Err(refusal);
        },
        Ok(_) => {},
    }
    if repay_amount == 0 {
        return Err(MarketError::ZeroAmount);
    }
    let mut debt_market = ctx.debt_market;
    let mut collateral_market = ctx.collateral_market;
    let mut debt_position = ctx.debt_position;
    let mut collateral_position = ctx.collateral_position;
    interest::accrue_market(&mut debt_market, clock);
    interest::accrue_market(&mut collateral_market, clock);
    interest::accrue_position(&mut debt_position, &debt_market);
    interest::accrue_position(&mut collateral_position, &collateral_market);
    if ctx.liquidator == ctx.borrower {
        return Err(MarketError::SelfLiquidation);
    }
    if debt_position.user != ctx.borrower {
        return Err(MarketError::BadPositionAccount);
    }
    if collateral_position.user != ctx.borrower {
        return Err(MarketError::BadPositionAccount);
    }
    if debt_position.borrowed == 0 {
        return Err(MarketError::NothingToLiquidate);
    }
    if collateral_position.supplied == 0 {
        return Err(MarketError::NothingToLiquidate);
    }
    let debt_price = match oracle::fresh_price(
        &ctx.debt_price_update,
        clock,
        &debt_market.feed_id,
    ) {
        Err(refusal) => {
            return Err(refusal);
        },
        Ok(price) => price,
    };
    let collateral_price = match oracle::fresh_price(
        &ctx.collateral_price_update,
        clock,
        &collateral_market.feed_id,
    ) {
        Err(refusal) => {
            return Err(refusal);
        },
        Ok(price) => price,
    };
    Ok(
        Case {
            debt_market,
            debt_position,
            debt_price,
            collateral_market,
            collateral_position,
            collateral_price,
        },
    )
}

/// Sums the borrower's totals.
fn sum_case(ctx: &Liquidate, case: &Case, others: &[AccountInfo], clock: &Clock) -> (summed: Result<
    (u128, u128),
    MarketError,
>)
    ensures
        match case_totals(
            *ctx,
            *case,
            others@,
            oracle::updates_in(others@),
            clock.unix_timestamp,
        ) {
            (_, Err(refusal)) => summed == Err::<(u128, u128), _>(refusal),
            (totals, Ok(_)) => summed matches Ok(sums) && Totals::of(sums.0, sums.1) == totals,
        },
{
    let mut total_collat_at_ltv: u128 = 0;
    let mut total_debt: u128 = 0;
    health::accumulate_position(
        case.debt_position.supplied,
        case.debt_position.borrowed,
        &case.debt_price,
        case.debt_position.decimals,
        case.debt_position.max_ltv_bps,
        &mut total_collat_at_ltv,
        &mut total_debt,
    );
    health::accumulate_position(
        case.collateral_position.supplied,
        case.collateral_position.borrowed,
        &case.collateral_price,
        case.collateral_position.decimals,
        case.collateral_position.max_ltv_bps,
        &mut total_collat_at_ltv,
        &mut total_debt,
    );
    let skip_keys: [Pubkey; 2] = [ctx.debt_position_key, ctx.collateral_position_key];
    assert(skip_keys@ =~= seq![ctx.debt_position_key, ctx.collateral_position_key]);
    match health::accumulate_remaining_skip(
        others,
        &ctx.borrower,
        &skip_keys,
        clock,
        &mut total_collat_at_ltv,
        &mut total_debt,
    ) {
        Err(refusal) => Err(refusal),
        Ok(_) => Ok((total_collat_at_ltv, total_debt)),
    }
}

/// Decides a liquidation whose health check came out at the given totals.
pub fn decide_liquidation(
    ctx: &Liquidate,
    repay_amount: u64,
    case: &Case,
    total_collat_at_ltv: u128,
    total_debt: u128,
) -> (pending: Result<PendingLiquidation, MarketError>)
    ensures
        pending == liquidation(
            *ctx,
            repay_amount,
            *case,
            Totals::of(total_collat_at_ltv, total_debt),
        ),
{
    if total_debt <= total_collat_at_ltv {
        return Err(MarketError::PositionHealthy);
    }
    // Floor the actual repay to what the borrower actually owes.
    let actual_repay: u64 = if repay_amount <= case.debt_position.borrowed {
        repay_amount
    } else {
        case.debt_position.borrowed
    };
    let repay_value_usd: u128 = valuation::token_usd_8dp(
        actual_repay,
        &case.debt_price,
        case.debt_position.decimals,
    );
    let seize_value_usd: u128 = math::saturating_mul(
        repay_value_usd,
        BPS_DENOMINATOR + LIQUIDATION_BONUS_BPS,
    ) / BPS_DENOMINATOR;
    let mut seize_amount: u64 = valuation::usd_8dp_to_token(
        seize_value_usd,
        &case.collateral_price,
        case.collateral_position.decimals,
    );
    // Cap to the borrower's actual supplied collateral.
    if seize_amount > case.collateral_position.supplied {
        seize_amount = case.collateral_position.supplied;
    }
    if seize_amount == 0 {
        return Err(MarketError::NothingToLiquidate);
    }
    if ctx.collateral_vault.amount < seize_amount {
        return Err(MarketError::InsufficientLiquidity);
    }
    let repayment = Transfer {
        from: ctx.liquidator_debt_ata.key,
        to: ctx.debt_vault.key,
        authority: ctx.liquidator,
        amount: actual_repay,
        signer: None,
    };
    let seizure = Transfer {
        from: ctx.collateral_vault.key,
        to: ctx.liquidator_collateral_ata.key,
        authority: ctx.collateral_authority,
        amount: seize_amount,
        signer: Some(chain::authority_seeds(&ctx.collateral_market)),
    };
    let mut debt_position = case.debt_position;
    debt_position.borrowed = debt_position.borrowed.saturating_sub(actual_repay);
    let mut collateral_position = case.collateral_position;
    collateral_position.supplied = collateral_position.supplied.saturating_sub(seize_amount);
    let mut debt_market = case.debt_market;
    debt_market.total_borrowed = debt_market.total_borrowed.saturating_sub(actual_repay);
    let mut collateral_market = case.collateral_market;
    collateral_market.total_supplied = collateral_market.total_supplied.saturating_sub(
        seize_amount,
    );
    let event = Liquidation {
        liquidator: ctx.liquidator,
        borrower: ctx.borrower,
        debt_mint: debt_market.mint,
        collateral_mint: collateral_market.mint,
        repaid: actual_repay,
        seized: seize_amount,
    };
    Ok(
        PendingLiquidation {
            repayment,
            seizure,
            debt_market,
            debt_position,
            collateral_market,
            collateral_position,
            event,
        },
    )
}

/// What a liquidation comes to, against the other accounts and the price updates
/// that they hold.
pub open spec fn liquidate_outcome(
    ctx: Liquidate,
    repay_amount: u64,
    clock: Clock,
    others: Seq<AccountInfo>,
    updates: Seq<Option<PriceUpdateV2>>,
) -> Result<PendingLiquidation, MarketError> {
    match opened_case(ctx, repay_amount, clock) {
        Err(refusal) => Err(refusal),
        Ok(case) => match case_totals(ctx, case, others, updates, clock.unix_timestamp) {
            (_, Err(refusal)) => Err(refusal),
            (totals, Ok(_)) => liquidation(ctx, repay_amount, case, totals),
        },
    }
}

/// Liquidates an undercollateralised borrower. The liquidator repays some
/// of the borrower's debt and seizes a USD-equivalent amount of collateral plus
/// a 5% bonus, drawn from the borrower's supplied collateral position.
/// `others`: pairs of (other position, other price update) for *every other*
/// market the borrower has activity in, so that global health can be checked. The
/// totals are those of both positions and of the pairs as listed: see
/// `health::accumulate_decoded`.
pub fn liquidate(
    ctx: &Liquidate,
    repay_amount: u64,
    clock: &Clock,
    others: &[AccountInfo],
) -> (pending: Result<PendingLiquidation, MarketError>)
    ensures
        pending == match opened_case(*ctx, repay_amount, *clock) {
            Err(refusal) => Err(refusal),
            Ok(case) => match case_totals(
                *ctx,
                case,
                others@,
                oracle::updates_in(others@),
                clock.unix_timestamp,
            ) {
                (_, Err(refusal)) => Err(refusal),
                (totals, Ok(_)) => liquidation(*ctx, repay_amount, case, totals),
            },
        },
        pending == liquidate_outcome(
            *ctx,
            repay_amount,
            *clock,
            others@,
            oracle::updates_in(others@),
        ),
{
    match open_case(ctx, repay_amount, clock) {
        Err(refusal) => Err(refusal),
        Ok(case) => match sum_case(ctx, &case, others, clock) {
            Err(refusal) => Err(refusal),
            Ok((collateral, debt)) => decide_liquidation(
                ctx,
                repay_amount,
                &case,
                collateral,
                debt,
            ),
        },
    }
}

} // verus!
