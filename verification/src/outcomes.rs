//! What the instructions on positions are for: when each is granted, which
//! tokens it moves, and what it leaves recorded.

use crate::chain::{AccountInfo, AuthoritySeeds, Clock};
use crate::errors::MarketError;
use crate::health;
use crate::health::Totals;
use crate::interest;
use crate::liquidation;
use crate::liquidation::{Case, Liquidate, PendingLiquidation};
use crate::math;
use crate::oracle;
use crate::oracle::PriceUpdateV2;
use crate::positions;
use crate::positions::{ModifyPosition, ModifyPositionWithPrice, Pending, Proposed};
use crate::state::{Market, MarketActionKind, Position};
use crate::valuation;
use vstd::arithmetic::power::*;
use vstd::prelude::*;

verus! {

// Supply.

/// A supply is refused where the mint is not the market's, and else where the
/// amount is zero; no other is. It moves exactly the amount from the user's
/// account into the vault, on the user's own authority. Once moved, the position
/// and the market's total have exactly that much more, unless either does not
/// fit; the debt is stated with its interest, and nothing else changes. A
/// position that was nobody's is opened for the user on the market's terms.
pub proof fn law_supply_adds_what_it_moves(ctx: ModifyPosition, amount: u64, clock: Clock)
    ensures
        ({
            let outcome = positions::supply_outcome(ctx, amount, clock);
            let market = interest::market_at(ctx.market, clock.slot);
            let stated = interest::position_at(ctx.position, market.borrow_index_e18);
            let nobodys = forall|i: int| 0 <= i < 32 ==> #[trigger] ctx.position.user.bytes@[i] == 0;
            &&& outcome == Err::<Pending, _>(MarketError::MintMismatch) <==> ctx.mint
                != ctx.market.mint
            &&& outcome == Err::<Pending, _>(MarketError::ZeroAmount) <==> ctx.mint
                == ctx.market.mint && amount == 0
            &&& outcome is Ok <==> ctx.mint == ctx.market.mint && amount > 0
            &&& outcome matches Ok(pending) ==> {
                &&& pending.transfer.amount == amount
                &&& pending.transfer.from == ctx.user_ata
                &&& pending.transfer.to == ctx.vault.key
                &&& pending.transfer.authority == ctx.user
                &&& pending.transfer.signer is None
                &&& pending.settled is Ok <==> ctx.position.supplied + amount <= u64::MAX
                    && ctx.market.total_supplied + amount <= u64::MAX
                &&& pending.settled is Err ==> pending.settled->Err_0 == MarketError::Overflow
                &&& pending.settled matches Ok(update) ==> {
                    let after = update.position;
                    &&& after.supplied == ctx.position.supplied + amount
                    &&& update.market.total_supplied == ctx.market.total_supplied + amount
                    &&& update.market == (Market {
                        total_supplied: update.market.total_supplied,
                        ..market
                    })
                    &&& !nobodys ==> after == (Position { supplied: after.supplied, ..stated })
                    &&& nobodys ==> {
                        &&& after.user == ctx.user
                        &&& after.market == ctx.market_key
                        &&& after.borrowed == ctx.position.borrowed
                        &&& after.feed_id == ctx.market.feed_id
                        &&& after.max_ltv_bps == ctx.market.max_ltv_bps
                        &&& after.decimals == 9
                        &&& after.bump == ctx.position_bump
                        &&& after.borrow_index_snapshot_e18 == market.borrow_index_e18
                    }
                    &&& update.event.user == ctx.user
                    &&& update.event.mint == ctx.market.mint
                    &&& update.event.kind == MarketActionKind::Supply
                    &&& update.event.supplied == after.supplied
                    &&& update.event.borrowed == after.borrowed
                }
            }
        }),
{
    let user = ctx.position.user;
    assert(user.is_zero() <==> forall|i: int|
        0 <= i < 32 ==> #[trigger] ctx.position.user.bytes@[i] == 0) by {
        if forall|i: int| 0 <= i < 32 ==> #[trigger] user.bytes@[i] == 0 {
            assert(user.bytes@ =~= Seq::new(32, |i: int| 0u8));
        }
    }
}

// Repay.

/// A repayment is refused where the mint is not the market's, else where the
/// amount is zero, else where nothing is owed; no other is. It lowers the debt by
/// exactly the tokens that move: what is then recorded and what moved are
/// together the debt with its interest. It moves the amount asked for, or all
/// that is owed where that is less, from the user's account into the vault. The
/// market's total falls by as much, or to zero.
pub proof fn law_repayment_lowers_the_debt_by_what_it_moves(
    ctx: ModifyPosition,
    amount: u64,
    clock: Clock,
)
    ensures
        ({
            let outcome = positions::repay_outcome(ctx, amount, clock);
            let market = interest::market_at(ctx.market, clock.slot);
            let stated = interest::position_at(ctx.position, market.borrow_index_e18);
            &&& outcome == Err::<Pending, _>(MarketError::MintMismatch) <==> ctx.mint
                != ctx.market.mint
            &&& outcome == Err::<Pending, _>(MarketError::ZeroAmount) <==> ctx.mint
                == ctx.market.mint && amount == 0
            &&& outcome == Err::<Pending, _>(MarketError::NothingToRepay) <==> ctx.mint
                == ctx.market.mint && amount > 0 && stated.borrowed == 0
            &&& outcome is Ok <==> ctx.mint == ctx.market.mint && amount > 0 && stated.borrowed > 0
            &&& outcome matches Ok(pending) ==> {
                let moved = pending.transfer.amount;
                let update = pending.settled->Ok_0;
                &&& pending.settled is Ok
                &&& update.position.borrowed + moved == stated.borrowed
                &&& moved <= amount
                &&& moved == amount || update.position.borrowed == 0
                &&& pending.transfer.from == ctx.user_ata
                &&& pending.transfer.to == ctx.vault.key
                &&& pending.transfer.authority == ctx.user
                &&& pending.transfer.signer is None
                &&& update.position == (Position { borrowed: update.position.borrowed, ..stated })
                &&& moved <= ctx.market.total_borrowed ==> update.market.total_borrowed + moved
                    == ctx.market.total_borrowed
                &&& moved > ctx.market.total_borrowed ==> update.market.total_borrowed == 0
                &&& update.market == (Market {
                    total_borrowed: update.market.total_borrowed,
                    ..market
                })
                &&& update.event.user == ctx.user
                &&& update.event.mint == ctx.market.mint
                &&& update.event.kind == MarketActionKind::Repay
                &&& update.event.supplied == update.position.supplied
                &&& update.event.borrowed == update.position.borrowed
            }
        }),
{
}

/// Repaying in two parts within one slot comes to the same debt as repaying
/// both at once, and the parts move together what the whole moves.
pub proof fn law_repayments_add_up(
    ctx: ModifyPosition,
    first: u64,
    second: u64,
    clock: Clock,
    later: ModifyPosition,
)
    requires
        first + second <= u64::MAX,
        positions::repay_outcome(ctx, first, clock) is Ok,
        later.market == positions::repay_outcome(ctx, first, clock)->Ok_0.settled->Ok_0.market,
        later.position == positions::repay_outcome(ctx, first, clock)->Ok_0.settled->Ok_0.position,
        positions::repay_outcome(later, second, clock) is Ok,
    ensures
        ({
            let one = positions::repay_outcome(ctx, first, clock)->Ok_0;
            let other = positions::repay_outcome(later, second, clock)->Ok_0;
            let whole = positions::repay_outcome(ctx, (first + second) as u64, clock);
            &&& whole is Ok
            &&& whole->Ok_0.transfer.amount == one.transfer.amount + other.transfer.amount
            &&& whole->Ok_0.settled->Ok_0.position == other.settled->Ok_0.position
            &&& whole->Ok_0.settled->Ok_0.market == other.settled->Ok_0.market
        }),
{
}

// Withdraw.

/// A withdrawal goes to its health check exactly where the mint is the market's,
/// the position is the user's, the amount is not zero and no more than was
/// supplied, and the price may be used; the first of these that fails is what it
/// is refused for. It proposes the position with exactly the amount less, its
/// debt stated with its interest, and nothing else changed.
pub proof fn law_proposed_withdrawal_takes_the_amount(
    ctx: ModifyPositionWithPrice,
    amount: u64,
    clock: Clock,
)
    ensures
        ({
            let proposal = positions::proposed_withdrawal(ctx, amount, clock);
            let market = interest::market_at(ctx.market, clock.slot);
            let stated = interest::position_at(ctx.position, market.borrow_index_e18);
            let price = oracle::price_or_refusal(
                ctx.price_update,
                clock.unix_timestamp,
                ctx.market.feed_id,
            );
            let together = ctx.mint == ctx.market.mint && ctx.position.user == ctx.user;
            &&& ctx.mint != ctx.market.mint ==> proposal == Err::<Proposed, _>(
                MarketError::MintMismatch,
            )
            &&& ctx.mint == ctx.market.mint && ctx.position.user != ctx.user ==> proposal == Err::<
                Proposed,
                _,
            >(MarketError::BadPositionAccount)
            &&& together && amount == 0 ==> proposal == Err::<Proposed, _>(MarketError::ZeroAmount)
            &&& together && amount > ctx.position.supplied ==> proposal == Err::<Proposed, _>(
                MarketError::InsufficientCollateral,
            )
            &&& together && 0 < amount <= ctx.position.supplied ==> {
                &&& price matches Err(refusal) ==> proposal == Err::<Proposed, _>(refusal)
                &&& price matches Ok(quoted) ==> {
                    let proposed = proposal->Ok_0;
                    &&& proposal is Ok
                    &&& proposed.price == quoted
                    &&& proposed.market == market
                    &&& proposed.position.supplied + amount == ctx.position.supplied
                    &&& proposed.position == (Position {
                        supplied: proposed.position.supplied,
                        ..stated
                    })
                }
            }
        }),
{
}

/// A proposed withdrawal is granted exactly where the debt is no more than the
/// collateral at its limits. It moves exactly the amount from the vault to the
/// user's account, signed for by the market's authority; once moved, the market's
/// total has exactly that much less, unless it does not hold as much.
pub proof fn law_withdrawal_is_granted_where_healthy(
    ctx: ModifyPositionWithPrice,
    amount: u64,
    proposed: Proposed,
    totals: Totals,
)
    ensures
        ({
            let decision = positions::withdrawal(ctx, amount, proposed, totals);
            &&& decision is Ok <==> totals.debt <= totals.collateral_at_ltv
            &&& decision is Err ==> decision->Err_0 == MarketError::WouldBeUnhealthy
            &&& decision matches Ok(pending) ==> {
                &&& pending.transfer.amount == amount
                &&& pending.transfer.from == ctx.vault.key
                &&& pending.transfer.to == ctx.user_ata
                &&& pending.transfer.authority == ctx.authority
                &&& pending.transfer.signer == Some(
                    AuthoritySeeds { mint: ctx.market.mint, bump: ctx.market.authority_bump },
                )
                &&& pending.settled is Ok <==> amount <= proposed.market.total_supplied
                &&& pending.settled is Err ==> pending.settled->Err_0 == MarketError::Overflow
                &&& pending.settled matches Ok(update) ==> {
                    &&& update.position == proposed.position
                    &&& update.market.total_supplied + amount == proposed.market.total_supplied
                    &&& update.market == (Market {
                        total_supplied: update.market.total_supplied,
                        ..proposed.market
                    })
                    &&& update.event.user == ctx.user
                    &&& update.event.mint == proposed.market.mint
                    &&& update.event.kind == MarketActionKind::Withdraw
                    &&& update.event.supplied == proposed.position.supplied
                    &&& update.event.borrowed == proposed.position.borrowed
                }
            }
        }),
{
}

/// A withdrawal is granted exactly where nothing stands against it: the accounts
/// belong together, the amount is not zero and no more than was supplied, the
/// price may be used, no listed account is refused, and what the user owes in
/// all, with interest here, is no more than the collateral that is left supports.
/// It then moves the amount and leaves exactly that much less.
pub proof fn law_withdrawal_is_granted_where_nothing_stands_against_it(
    ctx: ModifyPositionWithPrice,
    amount: u64,
    clock: Clock,
    others: Seq<AccountInfo>,
    updates: Seq<Option<PriceUpdateV2>>,
)
    ensures
        ({
            let outcome = positions::withdraw_outcome(ctx, amount, clock, others, updates);
            let index = interest::market_at(ctx.market, clock.slot).borrow_index_e18;
            let owed = interest::position_at(ctx.position, index).borrowed;
            let price = oracle::price_or_refusal(
                ctx.price_update,
                clock.unix_timestamp,
                ctx.market.feed_id,
            );
            let asked = {
                &&& ctx.mint == ctx.market.mint
                &&& ctx.position.user == ctx.user
                &&& 0 < amount <= ctx.position.supplied
                &&& price is Ok
            };
            let (totals, walked) = health::with_others(
                health::with_position(
                    Totals { collateral_at_ltv: 0, debt: 0 },
                    (ctx.position.supplied - amount) as u64,
                    owed,
                    price->Ok_0,
                    ctx.position.decimals,
                    ctx.position.max_ltv_bps,
                ),
                others,
                updates,
                ctx.user,
                seq![ctx.position_key],
                clock.unix_timestamp,
            );
            &&& outcome is Ok <==> asked && walked is Ok && totals.debt <= totals.collateral_at_ltv
            &&& asked && walked is Err ==> outcome == Err::<Pending, _>(walked->Err_0)
            &&& asked && walked is Ok && totals.debt > totals.collateral_at_ltv ==> outcome
                == Err::<Pending, _>(MarketError::WouldBeUnhealthy)
            &&& !asked ==> outcome is Err && positions::proposed_withdrawal(
                ctx,
                amount,
                clock,
            ) is Err && outcome->Err_0 == positions::proposed_withdrawal(ctx, amount, clock)->Err_0
            &&& outcome matches Ok(pending) ==> {
                &&& pending.transfer.amount == amount
                &&& pending.settled is Ok <==> amount <= ctx.market.total_supplied
                &&& pending.settled matches Ok(update) ==> {
                    &&& update.position.supplied + amount == ctx.position.supplied
                    &&& update.position.borrowed == owed
                    &&& update.market.total_supplied + amount == ctx.market.total_supplied
                    &&& update.market.total_borrowed == ctx.market.total_borrowed
                }
            }
        }),
{
}

// Borrow.

/// A borrow goes to its health check exactly where the mint is the market's, the
/// position is the user's, the amount is not zero, nothing is supplied here, the
/// debt with its interest and the amount fit in a `u64`, the vault holds the
/// amount, and the price may be used; the first of these that fails is what it is
/// refused for. It proposes the position with exactly the amount more debt, on
/// top of its interest, and nothing else changed.
pub proof fn law_proposed_borrow_adds_the_amount(
    ctx: ModifyPositionWithPrice,
    amount: u64,
    clock: Clock,
)
    ensures
        ({
            let proposal = positions::proposed_borrow(ctx, amount, clock);
            let market = interest::market_at(ctx.market, clock.slot);
            let stated = interest::position_at(ctx.position, market.borrow_index_e18);
            let price = oracle::price_or_refusal(
                ctx.price_update,
                clock.unix_timestamp,
                ctx.market.feed_id,
            );
            let together = ctx.mint == ctx.market.mint && ctx.position.user == ctx.user;
            let cross = together && amount > 0 && ctx.position.supplied == 0;
            let fits = stated.borrowed + amount <= u64::MAX;
            &&& ctx.mint != ctx.market.mint ==> proposal == Err::<Proposed, _>(
                MarketError::MintMismatch,
            )
            &&& ctx.mint == ctx.market.mint && ctx.position.user != ctx.user ==> proposal == Err::<
                Proposed,
                _,
            >(MarketError::BadPositionAccount)
            &&& together && amount == 0 ==> proposal == Err::<Proposed, _>(MarketError::ZeroAmount)
            &&& together && amount > 0 && ctx.position.supplied > 0 ==> proposal == Err::<
                Proposed,
                _,
            >(MarketError::SameMintBorrow)
            &&& cross && !fits ==> proposal == Err::<Proposed, _>(MarketError::Overflow)
            &&& cross && fits && amount > ctx.vault.amount ==> proposal == Err::<Proposed, _>(
                MarketError::InsufficientLiquidity,
            )
            &&& cross && fits && amount <= ctx.vault.amount ==> {
                &&& price matches Err(refusal) ==> proposal == Err::<Proposed, _>(refusal)
                &&& price matches Ok(quoted) ==> {
                    let proposed = proposal->Ok_0;
                    &&& proposal is Ok
                    &&& proposed.price == quoted
                    &&& proposed.market == market
                    &&& proposed.position.borrowed == stated.borrowed + amount
                    &&& proposed.position == (Position {
                        borrowed: proposed.position.borrowed,
                        ..stated
                    })
                }
            }
        }),
{
}

/// A proposed borrow is granted exactly where the debt is no more than the
/// collateral at its limits. It moves exactly the amount from the vault to the
/// user's account, signed for by the market's authority; once moved, the market
/// has lent exactly that much more, unless that does not fit.
pub proof fn law_loan_is_granted_where_healthy(
    ctx: ModifyPositionWithPrice,
    amount: u64,
    proposed: Proposed,
    totals: Totals,
)
    ensures
        ({
            let decision = positions::loan(ctx, amount, proposed, totals);
            &&& decision is Ok <==> totals.debt <= totals.collateral_at_ltv
            &&& decision is Err ==> decision->Err_0 == MarketError::ExceedsLtv
            &&& decision matches Ok(pending) ==> {
                &&& pending.transfer.amount == amount
                &&& pending.transfer.from == ctx.vault.key
                &&& pending.transfer.to == ctx.user_ata
                &&& pending.transfer.authority == ctx.authority
                &&& pending.transfer.signer == Some(
                    AuthoritySeeds { mint: ctx.market.mint, bump: ctx.market.authority_bump },
                )
                &&& pending.settled is Ok <==> proposed.market.total_borrowed + amount <= u64::MAX
                &&& pending.settled is Err ==> pending.settled->Err_0 == MarketError::Overflow
                &&& pending.settled matches Ok(update) ==> {
                    &&& update.position == proposed.position
                    &&& update.market.total_borrowed == proposed.market.total_borrowed + amount
                    &&& update.market == (Market {
                        total_borrowed: update.market.total_borrowed,
                        ..proposed.market
                    })
                    &&& update.event.user == ctx.user
                    &&& update.event.mint == proposed.market.mint
                    &&& update.event.kind == MarketActionKind::Borrow
                    &&& update.event.supplied == proposed.position.supplied
                    &&& update.event.borrowed == proposed.position.borrowed
                }
            }
        }),
{
}

/// A borrow is granted exactly where nothing stands against it: the accounts
/// belong together, the amount is not zero, nothing is supplied here, the debt
/// with its interest and the amount fit in a `u64`, the vault holds the amount,
/// the price may be used, no listed account is refused, and what the user then
/// owes in all is no more than their collateral supports. It then moves the
/// amount and leaves exactly that much more owed.
pub proof fn law_borrow_is_granted_where_nothing_stands_against_it(
    ctx: ModifyPositionWithPrice,
    amount: u64,
    clock: Clock,
    others: Seq<AccountInfo>,
    updates: Seq<Option<PriceUpdateV2>>,
)
    ensures
        ({
            let outcome = positions::borrow_outcome(ctx, amount, clock, others, updates);
            let index = interest::market_at(ctx.market, clock.slot).borrow_index_e18;
            let owed = interest::position_at(ctx.position, index).borrowed;
            let price = oracle::price_or_refusal(
                ctx.price_update,
                clock.unix_timestamp,
                ctx.market.feed_id,
            );
            let asked = {
                &&& ctx.mint == ctx.market.mint
                &&& ctx.position.user == ctx.user
                &&& amount > 0
                &&& ctx.position.supplied == 0
                &&& owed + amount <= u64::MAX
                &&& amount <= ctx.vault.amount
                &&& price is Ok
            };
            let (totals, walked) = health::with_others(
                health::with_position(
                    Totals { collateral_at_ltv: 0, debt: 0 },
                    0,
                    (owed + amount) as u64,
                    price->Ok_0,
                    ctx.position.decimals,
                    ctx.position.max_ltv_bps,
                ),
                others,
                updates,
                ctx.user,
                seq![ctx.position_key],
                clock.unix_timestamp,
            );
            &&& outcome is Ok <==> asked && walked is Ok && totals.debt <= totals.collateral_at_ltv
            &&& asked && walked is Err ==> outcome == Err::<Pending, _>(walked->Err_0)
            &&& asked && walked is Ok && totals.debt > totals.collateral_at_ltv ==> outcome
                == Err::<Pending, _>(MarketError::ExceedsLtv)
            &&& !asked ==> outcome is Err && positions::proposed_borrow(
                ctx,
                amount,
                clock,
            ) is Err && outcome->Err_0 == positions::proposed_borrow(ctx, amount, clock)->Err_0
            &&& outcome matches Ok(pending) ==> {
                &&& pending.transfer.amount == amount
                &&& pending.settled is Ok <==> ctx.market.total_borrowed + amount <= u64::MAX
                &&& pending.settled matches Ok(update) ==> {
                    &&& update.position.borrowed == owed + amount
                    &&& update.position.supplied == 0
                    &&& update.market.total_borrowed == ctx.market.total_borrowed + amount
                    &&& update.market.total_supplied == ctx.market.total_supplied
                }
            }
        }),
{
}

// Liquidate.

/// A liquidation goes to its health check exactly where the liquidator's token
/// accounts are of the right mints and theirs, something is repaid, nobody
/// liquidates themselves, both positions are the borrower's, there is debt on the
/// one and collateral on the other, and both prices may be used; the first of
/// these that fails is what it is refused for. Both sides are then stated with
/// their interest, and nothing else is changed.
pub proof fn law_case_is_opened_on_debt_and_collateral(
    ctx: Liquidate,
    repay_amount: u64,
    clock: Clock,
)
    ensures
        ({
            let opened = liquidation::opened_case(ctx, repay_amount, clock);
            let debt_market = interest::market_at(ctx.debt_market, clock.slot);
            let debt = interest::position_at(ctx.debt_position, debt_market.borrow_index_e18);
            let collateral_market = interest::market_at(ctx.collateral_market, clock.slot);
            let collateral = interest::position_at(
                ctx.collateral_position,
                collateral_market.borrow_index_e18,
            );
            let debt_price = oracle::price_or_refusal(
                ctx.debt_price_update,
                clock.unix_timestamp,
                ctx.debt_market.feed_id,
            );
            let collateral_price = oracle::price_or_refusal(
                ctx.collateral_price_update,
                clock.unix_timestamp,
                ctx.collateral_market.feed_id,
            );
            let pays = ctx.liquidator_debt_ata;
            let takes = ctx.liquidator_collateral_ata;
            let a = pays.mint == ctx.debt_market.mint;
            let b = a && pays.owner == ctx.liquidator;
            let c = b && takes.mint == ctx.collateral_market.mint;
            let d = c && takes.owner == ctx.liquidator;
            let e = d && repay_amount > 0;
            let f = e && ctx.liquidator != ctx.borrower;
            let g = f && ctx.debt_position.user == ctx.borrower && ctx.collateral_position.user
                == ctx.borrower;
            let h = g && debt.borrowed > 0 && ctx.collateral_position.supplied > 0;
            &&& !a ==> opened == Err::<Case, _>(MarketError::MintMismatch)
            &&& a && !b ==> opened == Err::<Case, _>(MarketError::Unauthorized)
            &&& b && !c ==> opened == Err::<Case, _>(MarketError::MintMismatch)
            &&& c && !d ==> opened == Err::<Case, _>(MarketError::Unauthorized)
            &&& d && !e ==> opened == Err::<Case, _>(MarketError::ZeroAmount)
            &&& e && !f ==> opened == Err::<Case, _>(MarketError::SelfLiquidation)
            &&& f && !g ==> opened == Err::<Case, _>(MarketError::BadPositionAccount)
            &&& g && !h ==> opened == Err::<Case, _>(MarketError::NothingToLiquidate)
            &&& h && debt_price is Err ==> opened == Err::<Case, _>(debt_price->Err_0)
            &&& h && debt_price is Ok && collateral_price is Err ==> opened == Err::<Case, _>(
                collateral_price->Err_0,
            )
            &&& h && debt_price is Ok && collateral_price is Ok ==> {
                let case = opened->Ok_0;
                &&& opened is Ok
                &&& case.debt_market == debt_market
                &&& case.debt_position == debt
                &&& case.debt_price == debt_price->Ok_0
                &&& case.collateral_market == collateral_market
                &&& case.collateral_position == collateral
                &&& case.collateral_price == collateral_price->Ok_0
            }
        }),
{
}

/// A borrower's totals count both sides of the case, in full and once each, and
/// then the other accounts without them.
pub proof fn law_case_counts_both_sides_once(
    ctx: Liquidate,
    case: Case,
    others: Seq<AccountInfo>,
    updates: Seq<Option<PriceUpdateV2>>,
    now: i64,
)
    ensures
        ({
            let debt_side = health::with_position(
                Totals { collateral_at_ltv: 0, debt: 0 },
                case.debt_position.supplied,
                case.debt_position.borrowed,
                case.debt_price,
                case.debt_position.decimals,
                case.debt_position.max_ltv_bps,
            );
            let both_sides = health::with_position(
                debt_side,
                case.collateral_position.supplied,
                case.collateral_position.borrowed,
                case.collateral_price,
                case.collateral_position.decimals,
                case.collateral_position.max_ltv_bps,
            );
            liquidation::case_totals(ctx, case, others, updates, now) == health::with_others(
                both_sides,
                others,
                updates,
                ctx.borrower,
                seq![ctx.debt_position_key, ctx.collateral_position_key],
                now,
            )
        }),
{
}

/// What is seized is the greatest number of units, up to all that is supplied,
/// whose amount times price does not exceed `seizable`: the greatest whole value
/// that is no more than the repaid value and five per cent of it (a product
/// beyond the largest `u128` counts as that). What is repaid is the amount asked
/// for, or all that is owed where that is less.
pub proof fn law_seizure_is_the_most_that_the_repayment_is_worth(
    case: Case,
    repay_amount: u64,
    seizable: int,
)
    requires
        ({
            let value = valuation::usd_8dp(
                (if repay_amount <= case.debt_position.borrowed {
                    repay_amount
                } else {
                    case.debt_position.borrowed
                }) as int,
                case.debt_price,
                case.debt_position.decimals,
            );
            &&& seizable * 10_000 <= value * 10_500
            &&& seizable * 10_000 <= u128::MAX
            &&& (seizable + 1) * 10_000 > value * 10_500 || (seizable + 1) * 10_000 > u128::MAX
        }),
    ensures
        ({
            let repaid = liquidation::repaid(case, repay_amount);
            let seized = liquidation::seized(case, repay_amount);
            let supplied = case.collateral_position.supplied;
            let price = case.collateral_price;
            let decimals = case.collateral_position.decimals;
            let up = pow(10, (8 + price.exponent - decimals) as nat);
            let down = pow(10, (decimals - price.exponent - 8) as nat);
            &&& repaid <= repay_amount && repaid <= case.debt_position.borrowed
            &&& repaid == repay_amount || repaid == case.debt_position.borrowed
            &&& seized <= supplied
            &&& price.price <= 0 ==> seized == 0
            &&& price.price > 0 && 8 + price.exponent >= decimals ==> {
                &&& seized * (price.price * up) <= seizable
                &&& seized == supplied || (seized + 1) * (price.price * up) > seizable
            }
            &&& price.price > 0 && 8 + price.exponent < decimals ==> {
                &&& seized * price.price <= seizable * down
                &&& seized == supplied || (seized + 1) * price.price > seizable * down
            }
        }),
{
    let price = case.collateral_price;
    let decimals = case.collateral_position.decimals;
    let repaid = liquidation::repaid(case, repay_amount);
    let p = price.price as int;
    valuation::law_value_grows_with_amount(
        repaid,
        repaid,
        case.debt_price,
        case.debt_position.decimals,
    );
    let value = liquidation::seizable_value(case, repay_amount);
    assert(value == seizable);
    valuation::law_units_are_the_most_that_a_value_buys(value as u128, price, decimals);
    let units = valuation::token_units(value, price, decimals);
    let seized = liquidation::seized(case, repay_amount) as int;
    if p > 0 && 8 + price.exponent >= decimals {
        let up = pow(10, (8 + price.exponent - decimals) as nat);
        lemma_pow_positive(10, (8 + price.exponent - decimals) as nat);
        math::lemma_mul_mono(1, 1, p, up);
        math::lemma_mul_mono(seized, p * up, units, p * up);
        assert(0 * (p * up) == 0 && (0 + 1) * (p * up) == p * up) by (nonlinear_arith);
    } else if p > 0 {
        math::lemma_mul_mono(seized, p, units, p);
    }
}

/// A liquidation goes through exactly where the borrower owes more than their
/// collateral supports, something can be seized, and the vault holds it; the
/// first of these that fails is what it is refused for. The repayment moves from
/// the liquidator into the debt's vault and the seizure from the collateral's
/// vault to the liquidator, who pays on their own authority and receives on the
/// market's. The borrower then owes exactly as much less and has supplied exactly
/// as much less; the markets' totals fall by as much, or to zero.
pub proof fn law_liquidation_moves_what_it_records(
    ctx: Liquidate,
    repay_amount: u64,
    case: Case,
    totals: Totals,
)
    ensures
        ({
            let decision = liquidation::liquidation(ctx, repay_amount, case, totals);
            let repaid = liquidation::repaid(case, repay_amount);
            let seized = liquidation::seized(case, repay_amount);
            let underwater = totals.debt > totals.collateral_at_ltv;
            &&& !underwater ==> decision == Err::<PendingLiquidation, _>(
                MarketError::PositionHealthy,
            )
            &&& underwater && seized == 0 ==> decision == Err::<PendingLiquidation, _>(
                MarketError::NothingToLiquidate,
            )
            &&& underwater && seized > ctx.collateral_vault.amount ==> decision == Err::<
                PendingLiquidation,
                _,
            >(MarketError::InsufficientLiquidity)
            &&& decision is Ok <==> underwater && 0 < seized <= ctx.collateral_vault.amount
            &&& decision matches Ok(done) ==> {
                &&& done.repayment.amount == repaid
                &&& done.repayment.from == ctx.liquidator_debt_ata.key
                &&& done.repayment.to == ctx.debt_vault.key
                &&& done.repayment.authority == ctx.liquidator
                &&& done.repayment.signer is None
                &&& done.seizure.amount == seized
                &&& done.seizure.from == ctx.collateral_vault.key
                &&& done.seizure.to == ctx.liquidator_collateral_ata.key
                &&& done.seizure.authority == ctx.collateral_authority
                &&& done.seizure.signer == Some(
                    AuthoritySeeds {
                        mint: ctx.collateral_market.mint,
                        bump: ctx.collateral_market.authority_bump,
                    },
                )
                &&& done.debt_position.borrowed + repaid == case.debt_position.borrowed
                &&& done.debt_position == (Position {
                    borrowed: done.debt_position.borrowed,
                    ..case.debt_position
                })
                &&& done.collateral_position.supplied + seized == case.collateral_position.supplied
                &&& done.collateral_position == (Position {
                    supplied: done.collateral_position.supplied,
                    ..case.collateral_position
                })
                &&& repaid <= case.debt_market.total_borrowed ==> done.debt_market.total_borrowed
                    + repaid == case.debt_market.total_borrowed
                &&& repaid > case.debt_market.total_borrowed ==> done.debt_market.total_borrowed
                    == 0
                &&& done.debt_market == (Market {
                    total_borrowed: done.debt_market.total_borrowed,
                    ..case.debt_market
                })
                &&& seized <= case.collateral_market.total_supplied
                    ==> done.collateral_market.total_supplied + seized
                    == case.collateral_market.total_supplied
                &&& seized > case.collateral_market.total_supplied
                    ==> done.collateral_market.total_supplied == 0
                &&& done.collateral_market == (Market {
                    total_supplied: done.collateral_market.total_supplied,
                    ..case.collateral_market
                })
                &&& done.event.liquidator == ctx.liquidator
                &&& done.event.borrower == ctx.borrower
                &&& done.event.debt_mint == case.debt_market.mint
                &&& done.event.collateral_mint == case.collateral_market.mint
                &&& done.event.repaid == repaid
                &&& done.event.seized == seized
            }
        }),
{
    lemma_seized_is_supplied(case, repay_amount);
}

proof fn lemma_seized_is_supplied(case: Case, repay_amount: u64)
    ensures
        liquidation::repaid(case, repay_amount) <= case.debt_position.borrowed,
        liquidation::seized(case, repay_amount) <= case.collateral_position.supplied,
{
    crate::laws::law_seizure_is_bounded(case, repay_amount);
}

/// A liquidation is refused for what keeps its case from being opened, else for
/// what the other accounts are refused for, and is else decided by the totals.
pub proof fn law_liquidation_is_decided_by_the_borrowers_totals(
    ctx: Liquidate,
    repay_amount: u64,
    clock: Clock,
    others: Seq<AccountInfo>,
    updates: Seq<Option<PriceUpdateV2>>,
)
    ensures
        ({
            let outcome = liquidation::liquidate_outcome(
                ctx,
                repay_amount,
                clock,
                others,
                updates,
            );
            let opened = liquidation::opened_case(ctx, repay_amount, clock);
            let (totals, walked) = liquidation::case_totals(
                ctx,
                opened->Ok_0,
                others,
                updates,
                clock.unix_timestamp,
            );
            let seized = liquidation::seized(opened->Ok_0, repay_amount);
            &&& opened is Err ==> outcome == Err::<PendingLiquidation, _>(opened->Err_0)
            &&& opened is Ok && walked is Err ==> outcome == Err::<PendingLiquidation, _>(
                walked->Err_0,
            )
            &&& opened is Ok && walked is Ok ==> outcome == liquidation::liquidation(
                ctx,
                repay_amount,
                opened->Ok_0,
                totals,
            )
            &&& outcome is Ok <==> opened is Ok && walked is Ok && totals.debt
                > totals.collateral_at_ltv && 0 < seized <= ctx.collateral_vault.amount
        }),
{
}

} // verus!
