//! What holds across the instructions.

use crate::chain::{AccountInfo, Clock};
use crate::errors::MarketError;
use crate::health;
use crate::health::Totals;
use crate::interest;
use crate::keys::Pubkey;
use crate::liquidation;
use crate::liquidation::{Case, Liquidate, PendingLiquidation};
use crate::math;
use crate::oracle;
use crate::oracle::PriceUpdateV2;
use crate::positions;
use crate::positions::{
    ModifyPosition, ModifyPositionWithPrice, Pending, PositionUpdate, Proposed,
};
use crate::state::{Market, Position, BPS_DENOMINATOR, LIQUIDATION_BONUS_BPS};
use crate::valuation;
use crate::valuation::Price;
use vstd::prelude::*;

verus! {

// Health.

/// `totals` with `position` counted in at `price`.
pub open spec fn counted_in(totals: Totals, position: Position, price: Price) -> Totals {
    health::with_position(
        totals,
        position.supplied,
        position.borrowed,
        price,
        position.decimals,
        position.max_ltv_bps,
    )
}

/// A user's totals over one position at `price` and the other accounts, and the
/// refusal that the others meet.
pub open spec fn totals_with(
    position: Position,
    price: Price,
    others: Seq<AccountInfo>,
    updates: Seq<Option<PriceUpdateV2>>,
    user: Pubkey,
    skip: Seq<Pubkey>,
    now: i64,
) -> (Totals, Result<(), MarketError>) {
    health::with_others(
        counted_in(Totals::none(), position, price),
        others,
        updates,
        user,
        skip,
        now,
    )
}

proof fn lemma_position_no_worse(
    better: Position,
    worse: Position,
    price: Price,
    others: Seq<AccountInfo>,
    updates: Seq<Option<PriceUpdateV2>>,
    user: Pubkey,
    skip: Seq<Pubkey>,
    now: i64,
)
    requires
        worse.supplied <= better.supplied,
        better.borrowed <= worse.borrowed,
        better.decimals == worse.decimals,
        better.max_ltv_bps == worse.max_ltv_bps,
    ensures
        ({
            let after = totals_with(better, price, others, updates, user, skip, now);
            let before = totals_with(worse, price, others, updates, user, skip, now);
            &&& after.1 == before.1
            &&& health::no_worse(after.0, before.0)
            &&& before.0.healthy() ==> after.0.healthy()
        }),
{
    let d = better.decimals;
    let ltv = better.max_ltv_bps;
    health::law_position_counts_monotonically(
        Totals::none(),
        Totals::none(),
        better.supplied,
        worse.supplied,
        better.borrowed,
        worse.borrowed,
        price,
        d,
        ltv,
    );
    health::law_others_count_monotonically(
        health::with_position(Totals::none(), better.supplied, better.borrowed, price, d, ltv),
        health::with_position(Totals::none(), worse.supplied, worse.borrowed, price, d, ltv),
        others,
        updates,
        user,
        skip,
        now,
    );
}

/// Adding collateral can only improve a user's health, at any price and with
/// any other accounts: from the position as it stood with its interest.
pub proof fn law_supply_improves_health(
    ctx: ModifyPosition,
    amount: u64,
    clock: Clock,
    price: Price,
    others: Seq<AccountInfo>,
    updates: Seq<Option<PriceUpdateV2>>,
    user: Pubkey,
    skip: Seq<Pubkey>,
    now: i64,
)
    requires
        positions::settled_supply(ctx, amount, clock) is Ok,
    ensures
        ({
            let market = interest::market_at(ctx.market, clock.slot);
            let before = totals_with(
                positions::opened_position(ctx, market),
                price,
                others,
                updates,
                user,
                skip,
                now,
            );
            let after = totals_with(
                positions::settled_supply(ctx, amount, clock)->Ok_0.position,
                price,
                others,
                updates,
                user,
                skip,
                now,
            );
            &&& after.1 == before.1
            &&& health::no_worse(after.0, before.0)
            &&& before.0.healthy() ==> after.0.healthy()
        }),
{
    let market = interest::market_at(ctx.market, clock.slot);
    lemma_position_no_worse(
        positions::settled_supply(ctx, amount, clock)->Ok_0.position,
        positions::opened_position(ctx, market),
        price,
        others,
        updates,
        user,
        skip,
        now,
    );
}

/// Paying down debt can only improve a user's health, at any price and with any
/// other accounts: from the position as it stood with its interest.
pub proof fn law_repay_improves_health(
    ctx: ModifyPosition,
    amount: u64,
    clock: Clock,
    price: Price,
    others: Seq<AccountInfo>,
    updates: Seq<Option<PriceUpdateV2>>,
    user: Pubkey,
    skip: Seq<Pubkey>,
    now: i64,
)
    ensures
        ({
            let before = totals_with(
                positions::with_interest(ctx.market, ctx.position, clock).1,
                price,
                others,
                updates,
                user,
                skip,
                now,
            );
            let after = totals_with(
                positions::settled_repay(ctx, amount, clock).position,
                price,
                others,
                updates,
                user,
                skip,
                now,
            );
            &&& after.1 == before.1
            &&& health::no_worse(after.0, before.0)
            &&& before.0.healthy() ==> after.0.healthy()
        }),
{
    lemma_position_no_worse(
        positions::settled_repay(ctx, amount, clock).position,
        positions::with_interest(ctx.market, ctx.position, clock).1,
        price,
        others,
        updates,
        user,
        skip,
        now,
    );
}

/// Tokens leave a vault for a user only where the totals of that user, taken
/// with the position as it is then recorded, are healthy; otherwise the request
/// is answered with its own refusal.
pub proof fn law_release_needs_health(
    ctx: ModifyPositionWithPrice,
    amount: u64,
    proposed: Proposed,
    others: Seq<AccountInfo>,
    updates: Seq<Option<PriceUpdateV2>>,
    now: i64,
)
    ensures
        ({
            let totals = positions::proposed_totals(ctx, proposed, others, updates, now).0;
            let withdrawal = positions::withdrawal(ctx, amount, proposed, totals);
            let loan = positions::loan(ctx, amount, proposed, totals);
            &&& positions::proposed_totals(ctx, proposed, others, updates, now) == totals_with(
                proposed.position,
                proposed.price,
                others,
                updates,
                ctx.user,
                seq![ctx.position_key],
                now,
            )
            &&& withdrawal is Ok <==> totals.healthy()
            &&& loan is Ok <==> totals.healthy()
            &&& !totals.healthy() ==> withdrawal == Err::<Pending, _>(MarketError::WouldBeUnhealthy)
            &&& !totals.healthy() ==> loan == Err::<Pending, _>(MarketError::ExceedsLtv)
            &&& withdrawal matches Ok(pending) ==> (pending.settled matches Ok(update)
                ==> update.position == proposed.position)
            &&& loan matches Ok(pending) ==> (pending.settled matches Ok(update)
                ==> update.position == proposed.position)
        }),
{
}

/// Nobody borrows from a market that they supply to.
pub proof fn law_no_borrow_against_same_market(
    ctx: ModifyPositionWithPrice,
    amount: u64,
    clock: Clock,
)
    ensures
        positions::proposed_borrow(ctx, amount, clock) matches Ok(proposed)
            ==> ctx.position.supplied == 0 && proposed.position.supplied == 0,
{
}

/// Neither a loan nor a seizure takes more than the vault holds.
pub proof fn law_vaults_are_not_overdrawn(
    ctx: ModifyPositionWithPrice,
    amount: u64,
    clock: Clock,
    attempt: Liquidate,
    repay_amount: u64,
    case: Case,
    totals: Totals,
)
    ensures
        positions::proposed_borrow(ctx, amount, clock) is Ok ==> amount <= ctx.vault.amount,
        liquidation::liquidation(attempt, repay_amount, case, totals) matches Ok(pending)
            ==> pending.seizure.amount <= attempt.collateral_vault.amount,
{
}

// What one call undoes.

/// `ctx` with the market and the position as `update` left them.
pub open spec fn after_supply(
    ctx: ModifyPositionWithPrice,
    update: PositionUpdate,
) -> ModifyPositionWithPrice {
    ModifyPositionWithPrice { market: update.market, position: update.position, ..ctx }
}

/// Withdrawing in the same slot what was just supplied proposes the market and
/// the position as they stood, with their interest, before the supply.
pub proof fn law_withdraw_undoes_supply(
    ctx: ModifyPosition,
    amount: u64,
    clock: Clock,
    later: ModifyPositionWithPrice,
    totals: Totals,
)
    requires
        positions::settled_supply(ctx, amount, clock) is Ok,
        ({
            let update = positions::settled_supply(ctx, amount, clock)->Ok_0;
            let again = after_supply(later, update);
            let proposed = positions::proposed_withdrawal(again, amount, clock);
            &&& proposed is Ok
            &&& positions::withdrawal(again, amount, proposed->Ok_0, totals) is Ok
        }),
    ensures
        ({
            let update = positions::settled_supply(ctx, amount, clock)->Ok_0;
            let again = after_supply(later, update);
            let proposed = positions::proposed_withdrawal(again, amount, clock)->Ok_0;
            let settled = positions::withdrawal(again, amount, proposed, totals)->Ok_0.settled;
            let market = interest::market_at(ctx.market, clock.slot);
            &&& settled is Ok
            &&& settled->Ok_0.market == market
            &&& settled->Ok_0.position == positions::opened_position(ctx, market)
        }),
{
}

/// Repaying in the same slot what was just borrowed restores the market and the
/// position as they stood, with their interest, before the borrow.
pub proof fn law_repay_undoes_borrow(
    ctx: ModifyPositionWithPrice,
    amount: u64,
    clock: Clock,
    totals: Totals,
    later: ModifyPosition,
)
    requires
        positions::proposed_borrow(ctx, amount, clock) is Ok,
        positions::loan(
            ctx,
            amount,
            positions::proposed_borrow(ctx, amount, clock)->Ok_0,
            totals,
        ) is Ok,
        positions::loan(
            ctx,
            amount,
            positions::proposed_borrow(ctx, amount, clock)->Ok_0,
            totals,
        )->Ok_0.settled is Ok,
    ensures
        ({
            let proposed = positions::proposed_borrow(ctx, amount, clock)->Ok_0;
            let update = positions::loan(ctx, amount, proposed, totals)->Ok_0.settled->Ok_0;
            let again = ModifyPosition {
                market: update.market,
                position: update.position,
                ..later
            };
            let restored = positions::settled_repay(again, amount, clock);
            let (market, position) = positions::with_interest(ctx.market, ctx.position, clock);
            &&& again.mint == again.market.mint ==> positions::repay_refusal(
                again,
                amount,
                clock,
            ) is None
            &&& restored.market == market
            &&& restored.position == position
        }),
{
}

// The books.

/// The collateral of all of a market's positions together.
pub open spec fn sum_supplied(positions: Seq<Position>) -> int
    decreases positions.len(),
{
    if positions.len() == 0 {
        0
    } else {
        sum_supplied(positions.drop_last()) + positions.last().supplied
    }
}

/// The market's total is the collateral of its positions.
pub open spec fn supplied_adds_up(market: Market, positions: Seq<Position>) -> bool {
    market.total_supplied == sum_supplied(positions)
}

proof fn lemma_sum_update(positions: Seq<Position>, i: int, position: Position)
    requires
        0 <= i < positions.len(),
    ensures
        sum_supplied(positions.update(i, position)) == sum_supplied(positions)
            - positions[i].supplied + position.supplied,
        positions[i].supplied <= sum_supplied(positions),
    decreases positions.len(),
{
    let updated = positions.update(i, position);
    lemma_sum_nonnegative(positions.drop_last());
    if i == positions.len() - 1 {
        assert(updated.drop_last() =~= positions.drop_last());
    } else {
        assert(updated.drop_last() =~= positions.drop_last().update(i, position));
        lemma_sum_update(positions.drop_last(), i, position);
    }
}

proof fn lemma_sum_nonnegative(positions: Seq<Position>)
    ensures
        sum_supplied(positions) >= 0,
    decreases positions.len(),
{
    if positions.len() > 0 {
        lemma_sum_nonnegative(positions.drop_last());
    }
}

/// A market's total stays the collateral of its positions through a supply.
pub proof fn law_supply_keeps_sum(
    ctx: ModifyPosition,
    amount: u64,
    clock: Clock,
    positions: Seq<Position>,
    i: int,
)
    requires
        0 <= i < positions.len(),
        positions[i] == ctx.position,
        supplied_adds_up(ctx.market, positions),
    ensures
        positions::settled_supply(ctx, amount, clock) matches Ok(update) ==> supplied_adds_up(
            update.market,
            positions.update(i, update.position),
        ),
{
    if let Ok(update) = positions::settled_supply(ctx, amount, clock) {
        lemma_sum_update(positions, i, update.position);
    }
}

/// A market's total stays the collateral of its positions through a repayment.
pub proof fn law_repay_keeps_sum(
    ctx: ModifyPosition,
    amount: u64,
    clock: Clock,
    positions: Seq<Position>,
    i: int,
)
    requires
        0 <= i < positions.len(),
        positions[i] == ctx.position,
        supplied_adds_up(ctx.market, positions),
    ensures
        supplied_adds_up(
            positions::settled_repay(ctx, amount, clock).market,
            positions.update(i, positions::settled_repay(ctx, amount, clock).position),
        ),
{
    lemma_sum_update(positions, i, positions::settled_repay(ctx, amount, clock).position);
}

/// A market's total stays the collateral of its positions through a withdrawal,
/// which then never runs out of it.
pub proof fn law_withdraw_keeps_sum(
    ctx: ModifyPositionWithPrice,
    amount: u64,
    clock: Clock,
    totals: Totals,
    positions: Seq<Position>,
    i: int,
)
    requires
        0 <= i < positions.len(),
        positions[i] == ctx.position,
        supplied_adds_up(ctx.market, positions),
    ensures
        positions::proposed_withdrawal(ctx, amount, clock) matches Ok(proposed) ==> (
        positions::withdrawal(ctx, amount, proposed, totals) matches Ok(pending) ==> (
        pending.settled matches Ok(update) && supplied_adds_up(
            update.market,
            positions.update(i, update.position),
        ))),
{
    if let Ok(proposed) = positions::proposed_withdrawal(ctx, amount, clock) {
        lemma_sum_update(positions, i, proposed.position);
    }
}

/// A market's total stays the collateral of its positions through a borrow.
pub proof fn law_borrow_keeps_sum(
    ctx: ModifyPositionWithPrice,
    amount: u64,
    clock: Clock,
    totals: Totals,
    positions: Seq<Position>,
    i: int,
)
    requires
        0 <= i < positions.len(),
        positions[i] == ctx.position,
        supplied_adds_up(ctx.market, positions),
    ensures
        positions::proposed_borrow(ctx, amount, clock) matches Ok(proposed) ==> (positions::loan(
            ctx,
            amount,
            proposed,
            totals,
        ) matches Ok(pending) ==> (pending.settled matches Ok(update) ==> supplied_adds_up(
            update.market,
            positions.update(i, update.position),
        ))),
{
    if let Ok(proposed) = positions::proposed_borrow(ctx, amount, clock) {
        lemma_sum_update(positions, i, proposed.position);
    }
}

/// Both markets' totals stay the collateral of their positions through a
/// liquidation.
pub proof fn law_liquidation_keeps_sums(
    ctx: Liquidate,
    repay_amount: u64,
    clock: Clock,
    totals: Totals,
    debtors: Seq<Position>,
    d: int,
    holders: Seq<Position>,
    c: int,
)
    requires
        0 <= d < debtors.len(),
        debtors[d] == ctx.debt_position,
        supplied_adds_up(ctx.debt_market, debtors),
        0 <= c < holders.len(),
        holders[c] == ctx.collateral_position,
        supplied_adds_up(ctx.collateral_market, holders),
    ensures
        liquidation::opened_case(ctx, repay_amount, clock) matches Ok(case) ==> (
        liquidation::liquidation(ctx, repay_amount, case, totals) matches Ok(pending) ==> {
            &&& supplied_adds_up(pending.debt_market, debtors.update(d, pending.debt_position))
            &&& supplied_adds_up(
                pending.collateral_market,
                holders.update(c, pending.collateral_position),
            )
        }),
{
    if let Ok(case) = liquidation::opened_case(ctx, repay_amount, clock) {
        law_seizure_is_bounded(case, repay_amount);
        if let Ok(pending) = liquidation::liquidation(ctx, repay_amount, case, totals) {
            lemma_sum_update(debtors, d, pending.debt_position);
            lemma_sum_update(holders, c, pending.collateral_position);
        }
    }
}

/// What a vault holds and what its market has lent out together cover what was
/// supplied.
pub open spec fn covered(vault: int, market: Market) -> bool {
    vault + market.total_borrowed >= market.total_supplied
}

/// A vault that covers its market's supply covers it after a supply or a
/// repayment, once the tokens have moved.
pub proof fn law_deposits_keep_cover(ctx: ModifyPosition, amount: u64, clock: Clock, vault: int)
    requires
        covered(vault, ctx.market),
    ensures
        positions::settled_supply(ctx, amount, clock) matches Ok(update) ==> covered(
            vault + positions::deposit(ctx, amount).amount,
            update.market,
        ),
        ({
            let debt = positions::with_interest(ctx.market, ctx.position, clock).1.borrowed;
            let transfer = positions::deposit(ctx, positions::paid(amount, debt));
            covered(
                vault + transfer.amount,
                positions::settled_repay(ctx, amount, clock).market,
            )
        }),
{
}

/// A vault that covers its market's supply covers it after a withdrawal or a
/// borrow, once the tokens have moved.
pub proof fn law_releases_keep_cover(
    ctx: ModifyPositionWithPrice,
    amount: u64,
    clock: Clock,
    totals: Totals,
    vault: int,
)
    requires
        covered(vault, ctx.market),
    ensures
        positions::proposed_withdrawal(ctx, amount, clock) matches Ok(proposed) ==> (
        positions::withdrawal(ctx, amount, proposed, totals) matches Ok(pending) ==> (
        pending.settled matches Ok(update) ==> covered(
            vault - pending.transfer.amount,
            update.market,
        ))),
        positions::proposed_borrow(ctx, amount, clock) matches Ok(proposed) ==> (positions::loan(
            ctx,
            amount,
            proposed,
            totals,
        ) matches Ok(pending) ==> (pending.settled matches Ok(update) ==> covered(
            vault - pending.transfer.amount,
            update.market,
        ))),
{
}

/// Vaults that cover their markets' supply cover it after a liquidation, once
/// the tokens have moved. The seizure must not exceed the collateral market's
/// total, as it never does where that total is the collateral of its positions.
pub proof fn law_liquidation_keeps_cover(
    ctx: Liquidate,
    repay_amount: u64,
    clock: Clock,
    totals: Totals,
    debt_vault: int,
    collateral_vault: int,
)
    requires
        covered(debt_vault, ctx.debt_market),
        covered(collateral_vault, ctx.collateral_market),
        ctx.collateral_position.supplied <= ctx.collateral_market.total_supplied,
    ensures
        liquidation::opened_case(ctx, repay_amount, clock) matches Ok(case) ==> (
        liquidation::liquidation(ctx, repay_amount, case, totals) matches Ok(pending) ==> {
            &&& covered(debt_vault + pending.repayment.amount, pending.debt_market)
            &&& covered(collateral_vault - pending.seizure.amount, pending.collateral_market)
        }),
{
    if let Ok(case) = liquidation::opened_case(ctx, repay_amount, clock) {
        law_seizure_is_bounded(case, repay_amount);
    }
}

// Soundness.

/// The market is sound, and the position's debt is stated at its index.
pub open spec fn sound(market: Market, position: Position) -> bool {
    &&& market.wf()
    &&& position.borrow_index_snapshot_e18 == market.borrow_index_e18
}

/// A sound market stays sound through every change of a position, whose debt is
/// then stated at the market's index: a supply, a repayment, a withdrawal, a
/// borrow, and both sides of a liquidation.
pub proof fn law_changes_stay_sound(
    ctx: ModifyPosition,
    priced: ModifyPositionWithPrice,
    attempt: Liquidate,
    amount: u64,
    clock: Clock,
    totals: Totals,
)
    requires
        ctx.market.wf(),
        priced.market.wf(),
        attempt.debt_market.wf(),
        attempt.collateral_market.wf(),
    ensures
        positions::settled_supply(ctx, amount, clock) matches Ok(update) ==> sound(
            update.market,
            update.position,
        ),
        sound(
            positions::settled_repay(ctx, amount, clock).market,
            positions::settled_repay(ctx, amount, clock).position,
        ),
        positions::proposed_withdrawal(priced, amount, clock) matches Ok(proposed) ==> (
        positions::withdrawal(priced, amount, proposed, totals) matches Ok(pending) ==> (
        pending.settled matches Ok(update) ==> sound(update.market, update.position))),
        positions::proposed_borrow(priced, amount, clock) matches Ok(proposed) ==> (
        positions::loan(priced, amount, proposed, totals) matches Ok(pending) ==> (
        pending.settled matches Ok(update) ==> sound(update.market, update.position))),
        liquidation::opened_case(attempt, amount, clock) matches Ok(case) ==> (
        liquidation::liquidation(attempt, amount, case, totals) matches Ok(pending) ==> {
            &&& sound(pending.debt_market, pending.debt_position)
            &&& sound(pending.collateral_market, pending.collateral_position)
        }),
{
    interest::law_index_never_falls(ctx.market, clock.slot);
    interest::law_index_never_falls(priced.market, clock.slot);
    interest::law_index_never_falls(attempt.debt_market, clock.slot);
    interest::law_index_never_falls(attempt.collateral_market, clock.slot);
}

// Liquidation.

/// A healthy borrower is not liquidated: the request is answered so.
pub proof fn law_healthy_borrower_is_safe(
    ctx: Liquidate,
    repay_amount: u64,
    case: Case,
    totals: Totals,
)
    requires
        totals.healthy(),
    ensures
        liquidation::liquidation(ctx, repay_amount, case, totals) == Err::<PendingLiquidation, _>(
            MarketError::PositionHealthy,
        ),
{
}

/// `a` and `b` are counted alike: they hold the same collateral and debt, in the
/// same decimals and under the same limit.
pub open spec fn counts_as(a: Position, b: Position) -> bool {
    &&& a.supplied == b.supplied
    &&& a.borrowed == b.borrowed
    &&& a.decimals == b.decimals
    &&& a.max_ltv_bps == b.max_ltv_bps
}

/// Among the (position, price update) pairs of `accounts`, only the one at index
/// `k` has its position at `key`.
pub open spec fn only_pair_at(accounts: Seq<AccountInfo>, key: Pubkey, k: int) -> bool {
    forall|i: int|
        0 <= i < accounts.len() && i % 2 == 0 ==> ((#[trigger] accounts[i]).key == key <==> i == k)
}

/// `keys` are `first` and `second`, in some order.
spec fn are_both(keys: Seq<Pubkey>, first: Pubkey, second: Pubkey) -> bool {
    forall|key: Pubkey| #[trigger] keys.contains(key) <==> key == first || key == second
}

/// Two positions count alike in either order.
proof fn lemma_positions_commute(
    totals: Totals,
    p: Position,
    p_price: Price,
    q: Position,
    q_price: Price,
)
    requires
        totals.wf(),
    ensures
        counted_in(totals, p, p_price).wf(),
        counted_in(counted_in(totals, p, p_price), q, q_price) == counted_in(
            counted_in(totals, q, q_price),
            p,
            p_price,
        ),
{
    lemma_counts_nonnegative(p, p_price);
    lemma_counts_nonnegative(q, q_price);
}

/// What a position counts for is not negative.
proof fn lemma_counts_nonnegative(p: Position, price: Price)
    ensures
        0 <= health::collateral_at_ltv(p.supplied, price, p.decimals, p.max_ltv_bps),
        0 <= valuation::usd_8dp(p.borrowed as int, price, p.decimals),
{
    let value = valuation::usd_8dp(p.supplied as int, price, p.decimals);
    valuation::law_value_grows_with_amount(p.supplied, p.supplied, price, p.decimals);
    valuation::law_value_grows_with_amount(p.borrowed, p.borrowed, price, p.decimals);
    math::lemma_mul_mono(0, 0, value, p.max_ltv_bps as int);
}

/// Skipping one key more, which only the pair at `k` has, and counting that
/// pair's position `p` beforehand instead makes no difference to a walk that
/// meets no refusal. There may be no such pair left: `k` is then negative, and
/// nothing is counted beforehand.
proof fn lemma_pair_counted_first(
    totals: Totals,
    accounts: Seq<AccountInfo>,
    updates: Seq<Option<PriceUpdateV2>>,
    user: Pubkey,
    first: Pubkey,
    second: Pubkey,
    both: Seq<Pubkey>,
    now: i64,
    k: int,
    p: Position,
    price: Price,
)
    requires
        totals.wf(),
        are_both(both, first, second),
        only_pair_at(accounts, second, k),
        k < 0 || k % 2 == 0 && k + 1 < accounts.len(),
        k >= 0 ==> {
            &&& updates.len() == accounts.len()
            &&& health::counted_position(accounts[k], user, seq![first]) == Ok::<_, MarketError>(
                Some(p),
            )
            &&& oracle::price_in_account(accounts[k + 1].owner, updates[k + 1], now, p.feed_id)
                == Ok::<_, MarketError>(price)
        },
        health::with_pairs(totals, accounts, updates, user, seq![first], now).1 is Ok,
    ensures
        ({
            let start = if k >= 0 {
                counted_in(totals, p, price)
            } else {
                totals
            };
            health::with_pairs(start, accounts, updates, user, both, now) == health::with_pairs(
                totals,
                accounts,
                updates,
                user,
                seq![first],
                now,
            )
        }),
    decreases accounts.len(),
{
    let one = seq![first];
    assert(one[0] == first);
    if accounts.len() >= 2 {
        let key = accounts[0].key;
        let rest = accounts.skip(2);
        let later = updates.skip(2);
        assert(only_pair_at(rest, second, k - 2)) by {
            assert forall|i: int| 0 <= i < rest.len() && i % 2 == 0 implies ((
            #[trigger] rest[i]).key == second <==> i == k - 2) by {
                assert(rest[i] == accounts[i + 2]);
            }
        }
        assert(both.contains(key) <==> one.contains(key) || k == 0);
        match health::counted_position(accounts[0], user, one) {
            Err(_) => {},
            Ok(None) => {
                lemma_pair_counted_first(
                    totals,
                    rest,
                    later,
                    user,
                    first,
                    second,
                    both,
                    now,
                    k - 2,
                    p,
                    price,
                );
            },
            Ok(Some(q)) => {
                if let Ok(q_price) = oracle::price_in_account(
                    accounts[1].owner,
                    updates[1],
                    now,
                    q.feed_id,
                ) {
                    let next = counted_in(totals, q, q_price);
                    lemma_positions_commute(totals, q, q_price, p, price);
                    lemma_pair_counted_first(
                        next,
                    rest,
                    later,
                    user,
                    first,
                    second,
                    both,
                    now,
                    k - 2,
                    p,
                    price,
                    );
                }
            },
        }
    }
}

/// A loan that the health check granted cannot be liquidated against the same
/// prices: the liquidation of the position that was recorded, against any of the
/// positions that the check counted, sums the same totals and is refused.
pub proof fn law_granted_loan_is_safe(
    granted: ModifyPositionWithPrice,
    amount: u64,
    proposed: Proposed,
    attempt: Liquidate,
    repay_amount: u64,
    case: Case,
    others: Seq<AccountInfo>,
    updates: Seq<Option<PriceUpdateV2>>,
    now: i64,
    k: int,
    counted: Position,
)
    requires
        updates.len() == others.len(),
        ({
            let (totals, walked) = positions::proposed_totals(
                granted,
                proposed,
                others,
                updates,
                now,
            );
            walked is Ok && positions::loan(granted, amount, proposed, totals) is Ok
        }),
        attempt.borrower == granted.user,
        attempt.debt_position_key == granted.position_key,
        counts_as(case.debt_position, proposed.position),
        case.debt_price == proposed.price,
        0 <= k < others.len() && k % 2 == 0,
        attempt.collateral_position_key == others[k].key,
        only_pair_at(others, others[k].key, k),
        health::counted_position(others[k], granted.user, seq![granted.position_key]) == Ok::<
            _,
            MarketError,
        >(Some(counted)),
        counts_as(case.collateral_position, counted),
        oracle::price_in_account(others[k + 1].owner, updates[k + 1], now, counted.feed_id)
            == Ok::<_, MarketError>(case.collateral_price),
    ensures
        ({
            let (totals, walked) = liquidation::case_totals(attempt, case, others, updates, now);
            &&& (totals, walked) == positions::proposed_totals(
                granted,
                proposed,
                others,
                updates,
                now,
            )
            &&& liquidation::liquidation(attempt, repay_amount, case, totals) == Err::<
                PendingLiquidation,
                _,
            >(MarketError::PositionHealthy)
        }),
{
    let both = seq![granted.position_key, others[k].key];
    assert(both[0] == granted.position_key && both[1] == others[k].key);
    let start = counted_in(Totals::none(), proposed.position, proposed.price);
    lemma_positions_commute(
        Totals::none(),
        proposed.position,
        proposed.price,
        counted,
        case.collateral_price,
    );
    lemma_pair_counted_first(
        start,
        others,
        updates,
        granted.user,
        granted.position_key,
        others[k].key,
        both,
        now,
        k,
        counted,
        case.collateral_price,
    );
}

/// A withdrawal that the health check granted does not open the user to
/// liquidation against the same prices: the liquidation of any debt that the
/// check counted, against the position that was recorded, sums the same totals
/// and is refused.
pub proof fn law_granted_withdrawal_is_safe(
    granted: ModifyPositionWithPrice,
    amount: u64,
    proposed: Proposed,
    attempt: Liquidate,
    repay_amount: u64,
    case: Case,
    others: Seq<AccountInfo>,
    updates: Seq<Option<PriceUpdateV2>>,
    now: i64,
    k: int,
    counted: Position,
)
    requires
        updates.len() == others.len(),
        ({
            let (totals, walked) = positions::proposed_totals(
                granted,
                proposed,
                others,
                updates,
                now,
            );
            walked is Ok && positions::withdrawal(granted, amount, proposed, totals) is Ok
        }),
        attempt.borrower == granted.user,
        attempt.collateral_position_key == granted.position_key,
        counts_as(case.collateral_position, proposed.position),
        case.collateral_price == proposed.price,
        0 <= k < others.len() && k % 2 == 0,
        attempt.debt_position_key == others[k].key,
        only_pair_at(others, others[k].key, k),
        health::counted_position(others[k], granted.user, seq![granted.position_key]) == Ok::<
            _,
            MarketError,
        >(Some(counted)),
        counts_as(case.debt_position, counted),
        oracle::price_in_account(others[k + 1].owner, updates[k + 1], now, counted.feed_id)
            == Ok::<_, MarketError>(case.debt_price),
    ensures
        ({
            let (totals, walked) = liquidation::case_totals(attempt, case, others, updates, now);
            &&& (totals, walked) == positions::proposed_totals(
                granted,
                proposed,
                others,
                updates,
                now,
            )
            &&& liquidation::liquidation(attempt, repay_amount, case, totals) == Err::<
                PendingLiquidation,
                _,
            >(MarketError::PositionHealthy)
        }),
{
    let both = seq![others[k].key, granted.position_key];
    assert(both[0] == others[k].key && both[1] == granted.position_key);
    let start = counted_in(Totals::none(), proposed.position, proposed.price);
    lemma_positions_commute(
        Totals::none(),
        proposed.position,
        proposed.price,
        counted,
        case.debt_price,
    );
    lemma_pair_counted_first(
        start,
        others,
        updates,
        granted.user,
        granted.position_key,
        others[k].key,
        both,
        now,
        k,
        counted,
        case.debt_price,
    );
}

/// A price that is not positive, of the debt or of the collateral, lets nobody
/// seize anything: an unhealthy borrower's liquidation is then answered as one
/// of nothing.
pub proof fn law_no_price_no_seizure(
    ctx: Liquidate,
    repay_amount: u64,
    case: Case,
    totals: Totals,
)
    requires
        case.debt_price.price <= 0 || case.collateral_price.price <= 0,
        !totals.healthy(),
    ensures
        liquidation::seized(case, repay_amount) == 0,
        liquidation::liquidation(ctx, repay_amount, case, totals) == Err::<PendingLiquidation, _>(
            MarketError::NothingToLiquidate,
        ),
{
    if case.collateral_price.price > 0 {
        valuation::law_no_positive_price_no_value(
            liquidation::repaid(case, repay_amount),
            0,
            case.debt_price,
            case.debt_position.decimals,
        );
        let decimals = case.collateral_position.decimals;
        valuation::law_units_never_exceed_value(0, case.collateral_price, decimals);
    }
}

/// A liquidation repays no more than is owed and asked, and seizes no more than
/// is supplied; what it seizes is worth at most what it repays plus the bonus.
pub proof fn law_seizure_is_bounded(case: Case, repay_amount: u64)
    ensures
        liquidation::repaid(case, repay_amount) <= case.debt_position.borrowed,
        liquidation::repaid(case, repay_amount) <= repay_amount,
        liquidation::seized(case, repay_amount) <= case.collateral_position.supplied,
        valuation::usd_8dp(
            liquidation::seized(case, repay_amount) as int,
            case.collateral_price,
            case.collateral_position.decimals,
        ) * BPS_DENOMINATOR <= liquidation::repaid_value(case, repay_amount) * (BPS_DENOMINATOR
            + LIQUIDATION_BONUS_BPS),
{
    let price = case.collateral_price;
    let decimals = case.collateral_position.decimals;
    let repay = liquidation::repaid(case, repay_amount);
    valuation::law_value_grows_with_amount(
        repay,
        repay,
        case.debt_price,
        case.debt_position.decimals,
    );
    let value = liquidation::seizable_value(case, repay_amount);
    let repaid_value = liquidation::repaid_value(case, repay_amount);
    assert(0 <= value <= u128::MAX);
    valuation::law_units_never_exceed_value(value as u128, price, decimals);
    let units = valuation::token_units(value, price, decimals);
    valuation::law_value_grows_with_amount(
        liquidation::seized(case, repay_amount),
        units as u64,
        price,
        decimals,
    );
}

} // verus!
