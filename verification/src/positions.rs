//! Supplying, withdrawing, borrowing and repaying.

use crate::chain;
use crate::chain::{AccountInfo, Clock, TokenAccount, Transfer};
use crate::errors::MarketError;
use crate::health;
use crate::health::Totals;
use crate::interest;
use crate::keys::Pubkey;
use crate::oracle;
use crate::oracle::PriceUpdateV2;
use crate::state::{Market, MarketAction, MarketActionKind, Position, MINT_DECIMALS};
use crate::valuation::Price;
use vstd::prelude::*;

verus! {

/// What `supply` and `repay` are called with.
#[derive(Clone, Copy, Debug, PartialEq, Eq)]
pub struct ModifyPosition {
    pub user: Pubkey,
    pub market_key: Pubkey,
    pub market: Market,
    pub mint: Pubkey,
    /// All zero where the user has no position in this market yet.
    pub position: Position,
    pub position_bump: u8,
    pub vault: TokenAccount,
    pub user_ata: Pubkey,
}

/// What `withdraw` and `borrow` are called with.
#[derive(Clone, Copy, Debug, PartialEq, Eq)]
pub struct ModifyPositionWithPrice {
    pub user: Pubkey,
    pub market: Market,
    pub mint: Pubkey,
    pub position_key: Pubkey,
    pub position: Position,
    pub vault: TokenAccount,
    pub authority: Pubkey,
    pub user_ata: Pubkey,
    /// Update of the price of this market's token.
    pub price_update: PriceUpdateV2,
}

/// A change that holds once its tokens have moved: the tokens to move, and what
/// is then recorded or why the change is refused after all.
#[derive(Clone, Copy, Debug, PartialEq, Eq)]
pub struct Pending {
    pub transfer: Transfer,
    pub settled: Result<PositionUpdate, MarketError>,
}

/// What a change of a position records.
#[derive(Clone, Copy, Debug, PartialEq, Eq)]
pub struct PositionUpdate {
    pub market: Market,
    pub position: Position,
    pub event: MarketAction,
}

/// A change whose health is to be checked: the market and the position, with
/// interest, as they would be after it, and the price of the market's token.
#[derive(Clone, Copy, Debug, PartialEq, Eq)]
pub struct Proposed {
    pub market: Market,
    pub position: Position,
    pub price: Price,
}

/// A request to move `amount` from the user into the vault.
pub open spec fn deposit(ctx: ModifyPosition, amount: u64) -> Transfer {
    Transfer {
        from: ctx.user_ata,
        to: ctx.vault.key,
        authority: ctx.user,
        amount,
        signer: None,
    }
}

/// A request to move `amount` from the vault to the user.
pub open spec fn release(ctx: ModifyPositionWithPrice, amount: u64) -> Transfer {
    Transfer {
        from: ctx.vault.key,
        to: ctx.user_ata,
        authority: ctx.authority,
        amount,
        signer: Some(chain::authority_of(ctx.market)),
    }
}

/// What a change to `market` and `position` records.
pub open spec fn recorded(
    user: Pubkey,
    market: Market,
    position: Position,
    kind: MarketActionKind,
) -> PositionUpdate {
    PositionUpdate {
        market,
        position,
        event: MarketAction {
            user,
            mint: market.mint,
            kind,
            supplied: position.supplied,
            borrowed: position.borrowed,
        },
    }
}

fn record(user: Pubkey, market: Market, position: Position, kind: MarketActionKind) -> (update:
    PositionUpdate)
    ensures
        update == recorded(user, market, position, kind),
{
    let event = MarketAction {
        user,
        mint: market.mint,
        kind,
        supplied: position.supplied,
        borrowed: position.borrowed,
    };
    PositionUpdate { market, position, event }
}

// Supply.

/// The user's position before a supply: opened in `market` if there was none,
/// and else with its interest.
pub open spec fn opened_position(ctx: ModifyPosition, market: Market) -> Position {
    if ctx.position.user.is_zero() {
        Position {
            user: ctx.user,
            market: ctx.market_key,
            bump: ctx.position_bump,
            feed_id: market.feed_id,
            max_ltv_bps: market.max_ltv_bps,
            decimals: MINT_DECIMALS,
            borrow_index_snapshot_e18: market.borrow_index_e18,
            ..ctx.position
        }
    } else {
        interest::position_at(ctx.position, market.borrow_index_e18)
    }
}

/// Why a supply is refused before its tokens move.
pub open spec fn supply_refusal(ctx: ModifyPosition, amount: u64) -> Option<MarketError> {
    if ctx.mint != ctx.market.mint {
        Some(MarketError::MintMismatch)
    } else if amount == 0 {
        Some(MarketError::ZeroAmount)
    } else {
        None
    }
}

/// What a supply records once its tokens have moved.
pub open spec fn settled_supply(ctx: ModifyPosition, amount: u64, clock: Clock) -> Result<
    PositionUpdate,
    MarketError,
> {
    let market = interest::market_at(ctx.market, clock.slot);
    let position = opened_position(ctx, market);
    if position.supplied + amount > u64::MAX || market.total_supplied + amount > u64::MAX {
        Err(MarketError::Overflow)
    } else {
        Ok(
            recorded(
                ctx.user,
                Market { total_supplied: (market.total_supplied + amount) as u64, ..market },
                Position { supplied: (position.supplied + amount) as u64, ..position },
                MarketActionKind::Supply,
            ),
        )
    }
}

/// What a supply comes to: refused, or the tokens to move and what is then
/// recorded.
pub open spec fn supply_outcome(ctx: ModifyPosition, amount: u64, clock: Clock) -> Result<
    Pending,
    MarketError,
> {
    match supply_refusal(ctx, amount) {
        Some(refusal) => Err(refusal),
        None => Ok(
            Pending {
                transfer: deposit(ctx, amount),
                settled: settled_supply(ctx, amount, clock),
            },
        ),
    }
}

/// Deposits `amount` of the market token into the vault. No global check
/// needed: adding collateral can only improve a position's health.
pub fn supply(ctx: &ModifyPosition, amount: u64, clock: &Clock) -> (pending: Result<
    Pending,
    MarketError,
>)
    ensures
        pending == match supply_refusal(*ctx, amount) {
            Some(refusal) => Err(refusal),
            None => Ok(
                Pending {
                    transfer: deposit(*ctx, amount),
                    settled: settled_supply(*ctx, amount, *clock),
                },
            ),
        },
        pending == supply_outcome(*ctx, amount, *clock),
{
    if ctx.mint != ctx.market.mint {
        return Err(MarketError::MintMismatch);
    }
    if amount == 0 {
        return Err(MarketError::ZeroAmount);
    }
    let mut market = ctx.market;
    interest::accrue_market(&mut market, clock);
    let mut position = ctx.position;
    if position.user == Pubkey::default() {
        position.user = ctx.user;
        position.market = ctx.market_key;
        position.bump = ctx.position_bump;
        position.feed_id = market.feed_id;
        position.max_ltv_bps = market.max_ltv_bps;
        position.decimals = MINT_DECIMALS;
        position.borrow_index_snapshot_e18 = market.borrow_index_e18;
    } else {
        interest::accrue_position(&mut position, &market);
    }
    let transfer = Transfer {
        from: ctx.user_ata,
        to: ctx.vault.key,
        authority: ctx.user,
        amount,
        signer: None,
    };
    let settled = match position.supplied.checked_add(amount) {
        None => Err(MarketError::Overflow),
        Some(supplied) => match market.total_supplied.checked_add(amount) {
            None => Err(MarketError::Overflow),
            Some(total_supplied) => {
                position.supplied = supplied;
                market.total_supplied = total_supplied;
                Ok(record(ctx.user, market, position, MarketActionKind::Supply))
            },
        },
    };
    Ok(Pending { transfer, settled })
}

// Repay.

/// `market` and `position` with their interest up to `clock`.
pub open spec fn with_interest(market: Market, position: Position, clock: Clock) -> (
    Market,
    Position,
) {
    let accrued = interest::market_at(market, clock.slot);
    (accrued, interest::position_at(position, accrued.borrow_index_e18))
}

/// What a repayment of `amount` pays: the debt at most.
pub open spec fn paid(amount: u64, debt: u64) -> u64 {
    if amount <= debt {
        amount
    } else {
        debt
    }
}

/// Why a repayment is refused before its tokens move.
pub open spec fn repay_refusal(ctx: ModifyPosition, amount: u64, clock: Clock) -> Option<
    MarketError,
> {
    let position = with_interest(ctx.market, ctx.position, clock).1;
    if ctx.mint != ctx.market.mint {
        Some(MarketError::MintMismatch)
    } else if amount == 0 {
        Some(MarketError::ZeroAmount)
    } else if position.borrowed == 0 {
        Some(MarketError::NothingToRepay)
    } else {
        None
    }
}

/// What a repayment records once its tokens have moved. The market's total is
/// of what was lent, so interest can exceed it; it does not fall below zero.
pub open spec fn settled_repay(ctx: ModifyPosition, amount: u64, clock: Clock) -> PositionUpdate {
    let (market, position) = with_interest(ctx.market, ctx.position, clock);
    let pay = paid(amount, position.borrowed);
    recorded(
        ctx.user,
        Market { total_borrowed: less(market.total_borrowed, pay), ..market },
        Position { borrowed: (position.borrowed - pay) as u64, ..position },
        MarketActionKind::Repay,
    )
}

/// `total` less `part`, and zero where `part` is more.
pub open spec fn less(total: u64, part: u64) -> u64 {
    if part <= total {
        (total - part) as u64
    } else {
        0
    }
}

/// What a repayment comes to: refused, or the tokens to move and what is then
/// recorded.
pub open spec fn repay_outcome(ctx: ModifyPosition, amount: u64, clock: Clock) -> Result<
    Pending,
    MarketError,
> {
    match repay_refusal(ctx, amount, clock) {
        Some(refusal) => Err(refusal),
        None => Ok(
            Pending {
                transfer: deposit(
                    ctx,
                    paid(amount, with_interest(ctx.market, ctx.position, clock).1.borrowed),
                ),
                settled: Ok(settled_repay(ctx, amount, clock)),
            },
        ),
    }
}

/// Repays debt in this market's token. No global check needed: paying down
/// debt can only improve health.
pub fn repay(ctx: &ModifyPosition, amount: u64, clock: &Clock) -> (pending: Result<
    Pending,
    MarketError,
>)
    ensures
        pending == match repay_refusal(*ctx, amount, *clock) {
            Some(refusal) => Err(refusal),
            None => Ok(
                Pending {
                    transfer: deposit(
                        *ctx,
                        paid(
                            amount,
                            with_interest(ctx.market, ctx.position, *clock).1.borrowed,
                        ),
                    ),
                    settled: Ok(settled_repay(*ctx, amount, *clock)),
                },
            ),
        },
        pending == repay_outcome(*ctx, amount, *clock),
{
    if ctx.mint != ctx.market.mint {
        return Err(MarketError::MintMismatch);
    }
    if amount == 0 {
        return Err(MarketError::ZeroAmount);
    }
    let mut market = ctx.market;
    interest::accrue_market(&mut market, clock);
    let mut position = ctx.position;
    interest::accrue_position(&mut position, &market);
    let pay: u64 = if amount <= position.borrowed {
        amount
    } else {
        position.borrowed
    };
    if pay == 0 {
        return Err(MarketError::NothingToRepay);
    }
    let transfer = Transfer {
        from: ctx.user_ata,
        to: ctx.vault.key,
        authority: ctx.user,
        amount: pay,
        signer: None,
    };
    position.borrowed = position.borrowed.saturating_sub(pay);
    market.total_borrowed = market.total_borrowed.saturating_sub(pay);
    Ok(
        Pending {
            transfer,
            settled: Ok(record(ctx.user, market, position, MarketActionKind::Repay)),
        },
    )
}

// Health of a proposed change.

/// The user's totals after the proposed change, over this position and the
/// others, and the refusal that the others meet.
pub open spec fn proposed_totals(
    ctx: ModifyPositionWithPrice,
    proposed: Proposed,
    others: Seq<AccountInfo>,
    updates: Seq<Option<PriceUpdateV2>>,
    now: i64,
) -> (Totals, Result<(), MarketError>) {
    health::with_others(
        health::with_position(
            Totals::none(),
            proposed.position.supplied,
            proposed.position.borrowed,
            proposed.price,
            proposed.position.decimals,
            proposed.position.max_ltv_bps,
        ),
        others,
        updates,
        ctx.user,
        seq![ctx.position_key],
        now,
    )
}

/// Sums the user's totals after the proposed change.
fn sum_proposed(
    ctx: &ModifyPositionWithPrice,
    proposed: &Proposed,
    others: &[AccountInfo],
    clock: &Clock,
) -> (summed: Result<(u128, u128), MarketError>)
    ensures
        match proposed_totals(
            *ctx,
            *proposed,
            others@,
            oracle::updates_in(others@),
            clock.unix_timestamp,
        ) {
            (_, Err(refusal)) => summed == Err::<(u128, u128), _>(refusal),
            (totals, Ok(_)) => summed matches Ok(sums) && Totals::of(sums.0, sums.1) == totals,
        },
{
    let mut total_collat_at_ltv: u128 = 0;
    let mut total_debt: u128 = 0;
    health::accumulate_position(
        proposed.position.supplied,
        proposed.position.borrowed,
        &proposed.price,
        proposed.position.decimals,
        proposed.position.max_ltv_bps,
        &mut total_collat_at_ltv,
        &mut total_debt,
    );
    match health::accumulate_remaining(
        others,
        &ctx.user,
        ctx.position_key,
        clock,
        &mut total_collat_at_ltv,
        &mut total_debt,
    ) {
        Err(refusal) => Err(refusal),
        Ok(_) => Ok((total_collat_at_ltv, total_debt)),
    }
}

/// The accounts that a change with a price is made on must belong together.
pub open spec fn accounts_refusal(ctx: ModifyPositionWithPrice) -> Option<MarketError> {
    if ctx.mint != ctx.market.mint {
        Some(MarketError::MintMismatch)
    } else if ctx.position.user != ctx.user {
        Some(MarketError::BadPositionAccount)
    } else {
        None
    }
}

fn check_accounts(ctx: &ModifyPositionWithPrice) -> (checked: Result<(), MarketError>)
    ensures
        checked == match accounts_refusal(*ctx) {
            Some(refusal) => Err(refusal),
            None => Ok(()),
        },
{
    if ctx.mint != ctx.market.mint {
        return Err(MarketError::MintMismatch);
    }
    if ctx.position.user != ctx.user {
        return Err(MarketError::BadPositionAccount);
    }
    Ok(())
}

// Withdraw.

/// What withdrawing `amount` proposes, or why it is refused before the health
/// check.
pub open spec fn proposed_withdrawal(
    ctx: ModifyPositionWithPrice,
    amount: u64,
    clock: Clock,
) -> Result<Proposed, MarketError> {
    let (market, position) = with_interest(ctx.market, ctx.position, clock);
    match accounts_refusal(ctx) {
        Some(refusal) => Err(refusal),
        None => if amount == 0 {
            Err(MarketError::ZeroAmount)
        } else if position.supplied < amount {
            Err(MarketError::InsufficientCollateral)
        } else {
            match oracle::price_or_refusal(ctx.price_update, clock.unix_timestamp, market.feed_id) {
                Err(refusal) => Err(refusal),
                Ok(price) => Ok(
                    Proposed {
                        market,
                        position: Position {
                            supplied: (position.supplied - amount) as u64,
                            ..position
                        },
                        price,
                    },
                ),
            }
        },
    }
}

/// A withdrawal of `amount` whose health check came out at `totals`.
pub open spec fn withdrawal(
    ctx: ModifyPositionWithPrice,
    amount: u64,
    proposed: Proposed,
    totals: Totals,
) -> Result<Pending, MarketError> {
    let market = proposed.market;
    if !totals.healthy() {
        Err(MarketError::WouldBeUnhealthy)
    } else {
        Ok(
            Pending {
                transfer: release(ctx, amount),
                settled: if market.total_supplied < amount {
                    Err(MarketError::Overflow)
                } else {
                    Ok(
                        recorded(
                            ctx.user,
                            Market {
                                total_supplied: (market.total_supplied - amount) as u64,
                                ..market
                            },
                            proposed.position,
                            MarketActionKind::Withdraw,
                        ),
                    )
                },
            },
        )
    }
}

/// Checks a withdrawal up to its health check.
pub fn propose_withdrawal(ctx: &ModifyPositionWithPrice, amount: u64, clock: &Clock) -> (proposed:
    Result<Proposed, MarketError>)
    ensures
        proposed == proposed_withdrawal(*ctx, amount, *clock),
{
    match check_accounts(ctx) {
        Err(refusal) => {
            return Err(refusal);
        },
        Ok(_) => {},
    }
    if amount == 0 {
        return Err(MarketError::ZeroAmount);
    }
    let mut market = ctx.market;
    interest::accrue_market(&mut market, clock);
    let mut position = ctx.position;
    interest::accrue_position(&mut position, &market);
    match position.supplied.checked_sub(amount) {
        None => Err(MarketError::InsufficientCollateral),
        Some(supplied) => match oracle::fresh_price(&ctx.price_update, clock, &market.feed_id) {
            Err(refusal) => Err(refusal),
            Ok(price) => {
                position.supplied = supplied;
                Ok(Proposed { market, position, price })
            },
        },
    }
}

/// Decides a withdrawal whose health check came out at the given totals.
pub fn decide_withdrawal(
    ctx: &ModifyPositionWithPrice,
    amount: u64,
    proposed: &Proposed,
    total_collat_at_ltv: u128,
    total_debt: u128,
) -> (pending: Result<Pending, MarketError>)
    ensures
        pending == withdrawal(
            *ctx,
            amount,
            *proposed,
            Totals::of(total_collat_at_ltv, total_debt),
        ),
{
    if total_debt > total_collat_at_ltv {
        return Err(MarketError::WouldBeUnhealthy);
    }
    let transfer = Transfer {
        from: ctx.vault.key,
        to: ctx.user_ata,
        authority: ctx.authority,
        amount,
        signer: Some(chain::authority_seeds(&ctx.market)),
    };
    let settled = match proposed.market.total_supplied.checked_sub(amount) {
        None => Err(MarketError::Overflow),
        Some(total_supplied) => {
            let mut market = proposed.market;
            market.total_supplied = total_supplied;
            Ok(record(ctx.user, market, proposed.position, MarketActionKind::Withdraw))
        },
    };
    Ok(Pending { transfer, settled })
}

/// What a withdrawal comes to, against the other accounts and the price updates
/// that they hold.
pub open spec fn withdraw_outcome(
    ctx: ModifyPositionWithPrice,
    amount: u64,
    clock: Clock,
    others: Seq<AccountInfo>,
    updates: Seq<Option<PriceUpdateV2>>,
) -> Result<Pending, MarketError> {
    match proposed_withdrawal(ctx, amount, clock) {
        Err(refusal) => Err(refusal),
        Ok(proposed) => match proposed_totals(
            ctx,
            proposed,
            others,
            updates,
            clock.unix_timestamp,
        ) {
            (_, Err(refusal)) => Err(refusal),
            (totals, Ok(_)) => withdrawal(ctx, amount, proposed, totals),
        },
    }
}

/// Withdraws collateral. Requires the user's total debt (across markets)
/// still fits inside their post-withdraw collateral at LTV. `others`: pairs of
/// (other position, other price update), one for every other market in which
/// the user has activity. The totals are those of this position and of the pairs
/// as listed: see `health::accumulate_decoded`.
pub fn withdraw(
    ctx: &ModifyPositionWithPrice,
    amount: u64,
    clock: &Clock,
    others: &[AccountInfo],
) -> (pending: Result<Pending, MarketError>)
    ensures
        pending == match proposed_withdrawal(*ctx, amount, *clock) {
            Err(refusal) => Err(refusal),
            Ok(proposed) => match proposed_totals(
                *ctx,
                proposed,
                others@,
                oracle::updates_in(others@),
                clock.unix_timestamp,
            ) {
                (_, Err(refusal)) => Err(refusal),
                (totals, Ok(_)) => withdrawal(*ctx, amount, proposed, totals),
            },
        },
        pending == withdraw_outcome(
            *ctx,
            amount,
            *clock,
            others@,
            oracle::updates_in(others@),
        ),
{
    match propose_withdrawal(ctx, amount, clock) {
        Err(refusal) => Err(refusal),
        Ok(proposed) => match sum_proposed(ctx, &proposed, others, clock) {
            Err(refusal) => Err(refusal),
            Ok((collateral, debt)) => decide_withdrawal(ctx, amount, &proposed, collateral, debt),
        },
    }
}

// Borrow.

/// What borrowing `amount` proposes, or why it is refused before the health
/// check.
pub open spec fn proposed_borrow(ctx: ModifyPositionWithPrice, amount: u64, clock: Clock) -> Result<
    Proposed,
    MarketError,
> {
    let (market, position) = with_interest(ctx.market, ctx.position, clock);
    match accounts_refusal(ctx) {
        Some(refusal) => Err(refusal),
        None => if amount == 0 {
            Err(MarketError::ZeroAmount)
        } else if position.supplied != 0 {
            Err(MarketError::SameMintBorrow)
        } else if position.borrowed + amount > u64::MAX {
            Err(MarketError::Overflow)
        } else if ctx.vault.amount < amount {
            Err(MarketError::InsufficientLiquidity)
        } else {
            match oracle::price_or_refusal(ctx.price_update, clock.unix_timestamp, market.feed_id) {
                Err(refusal) => Err(refusal),
                Ok(price) => Ok(
                    Proposed {
                        market,
                        position: Position {
                            borrowed: (position.borrowed + amount) as u64,
                            ..position
                        },
                        price,
                    },
                ),
            }
        },
    }
}

/// A borrow of `amount` whose health check came out at `totals`.
pub open spec fn loan(
    ctx: ModifyPositionWithPrice,
    amount: u64,
    proposed: Proposed,
    totals: Totals,
) -> Result<Pending, MarketError> {
    let market = proposed.market;
    if !totals.healthy() {
        Err(MarketError::ExceedsLtv)
    } else {
        Ok(
            Pending {
                transfer: release(ctx, amount),
                settled: if market.total_borrowed + amount > u64::MAX {
                    Err(MarketError::Overflow)
                } else {
                    Ok(
                        recorded(
                            ctx.user,
                            Market {
                                total_borrowed: (market.total_borrowed + amount) as u64,
                                ..market
                            },
                            proposed.position,
                            MarketActionKind::Borrow,
                        ),
                    )
                },
            },
        )
    }
}

/// Checks a borrow up to its health check. Borrowing from a market you're
/// already supplying to is flash-loan shaped: the user's own collateral is the
/// source of their debt. Forces cross-asset collateralisation.
pub fn propose_borrow(ctx: &ModifyPositionWithPrice, amount: u64, clock: &Clock) -> (proposed:
    Result<Proposed, MarketError>)
    ensures
        proposed == proposed_borrow(*ctx, amount, *clock),
{
    match check_accounts(ctx) {
        Err(refusal) => {
            return Err(refusal);
        },
        Ok(_) => {},
    }
    if amount == 0 {
        return Err(MarketError::ZeroAmount);
    }
    let mut market = ctx.market;
    interest::accrue_market(&mut market, clock);
    let mut position = ctx.position;
    interest::accrue_position(&mut position, &market);
    if position.supplied != 0 {
        return Err(MarketError::SameMintBorrow);
    }
    match position.borrowed.checked_add(amount) {
        None => Err(MarketError::Overflow),
        Some(borrowed) => {
            if ctx.vault.amount < amount {
                return Err(MarketError::InsufficientLiquidity);
            }
            match oracle::fresh_price(&ctx.price_update, clock, &market.feed_id) {
                Err(refusal) => Err(refusal),
                Ok(price) => {
                    position.borrowed = borrowed;
                    Ok(Proposed { market, position, price })
                },
            }
        },
    }
}

/// Decides a borrow whose health check came out at the given totals.
pub fn decide_borrow(
    ctx: &ModifyPositionWithPrice,
    amount: u64,
    proposed: &Proposed,
    total_collat_at_ltv: u128,
    total_debt: u128,
) -> (pending: Result<Pending, MarketError>)
    ensures
        pending == loan(*ctx, amount, *proposed, Totals::of(total_collat_at_ltv, total_debt)),
{
    if total_debt > total_collat_at_ltv {
        return Err(MarketError::ExceedsLtv);
    }
    let transfer = Transfer {
        from: ctx.vault.key,
        to: ctx.user_ata,
        authority: ctx.authority,
        amount,
        signer: Some(chain::authority_seeds(&ctx.market)),
    };
    let settled = match proposed.market.total_borrowed.checked_add(amount) {
        None => Err(MarketError::Overflow),
        Some(total_borrowed) => {
            let mut market = proposed.market;
            market.total_borrowed = total_borrowed;
            Ok(record(ctx.user, market, proposed.position, MarketActionKind::Borrow))
        },
    };
    Ok(Pending { transfer, settled })
}

/// What a borrow comes to, against the other accounts and the price updates that
/// they hold.
pub open spec fn borrow_outcome(
    ctx: ModifyPositionWithPrice,
    amount: u64,
    clock: Clock,
    others: Seq<AccountInfo>,
    updates: Seq<Option<PriceUpdateV2>>,
) -> Result<Pending, MarketError> {
    match proposed_borrow(ctx, amount, clock) {
        Err(refusal) => Err(refusal),
        Ok(proposed) => match proposed_totals(
            ctx,
            proposed,
            others,
            updates,
            clock.unix_timestamp,
        ) {
            (_, Err(refusal)) => Err(refusal),
            (totals, Ok(_)) => loan(ctx, amount, proposed, totals),
        },
    }
}

/// Borrows `amount` of this market's token against the user's total
/// collateral across all markets. `others`: pairs of (other position, other
/// price update), one for every other market in which the user has activity. The
/// totals are those of this position and of the pairs as listed: see
/// `health::accumulate_decoded`.
pub fn borrow(
    ctx: &ModifyPositionWithPrice,
    amount: u64,
    clock: &Clock,
    others: &[AccountInfo],
) -> (pending: Result<Pending, MarketError>)
    ensures
        pending == match proposed_borrow(*ctx, amount, *clock) {
            Err(refusal) => Err(refusal),
            Ok(proposed) => match proposed_totals(
                *ctx,
                proposed,
                others@,
                oracle::updates_in(others@),
                clock.unix_timestamp,
            ) {
                (_, Err(refusal)) => Err(refusal),
                (totals, Ok(_)) => loan(*ctx, amount, proposed, totals),
            },
        },
        pending == borrow_outcome(*ctx, amount, *clock, others@, oracle::updates_in(others@)),
{
    match propose_borrow(ctx, amount, clock) {
        Err(refusal) => Err(refusal),
        Ok(proposed) => match sum_proposed(ctx, &proposed, others, clock) {
            Err(refusal) => Err(refusal),
            Ok((collateral, debt)) => decide_borrow(ctx, amount, &proposed, collateral, debt),
        },
    }
}

} // verus!
