//! Interest: a market's borrow index grows with the slots that pass, and a
//! position's debt follows the index.

use crate::chain::Clock;
use crate::math;
use crate::state::{Market, Position, RATE_SCALE_E18};
use vstd::prelude::*;

verus! {

/// What `slots` slots at `rate` per slot add to `index`.
pub open spec fn index_growth(index: int, rate: int, slots: int) -> int {
    math::sat(index * rate * slots) / (RATE_SCALE_E18 as int)
}

/// The borrow index after `slots` slots at `rate` per slot.
pub open spec fn grown_index(index: int, rate: int, slots: int) -> int {
    math::sat(index + index_growth(index, rate, slots))
}

/// `market` with its index brought up to `slot`; a slot that is not later
/// changes nothing.
pub open spec fn market_at(market: Market, slot: u64) -> Market {
    if slot <= market.last_update_slot {
        market
    } else {
        Market {
            borrow_index_e18: grown_index(
                market.borrow_index_e18 as int,
                market.borrow_rate_per_slot_e18 as int,
                slot - market.last_update_slot,
            ) as u128,
            last_update_slot: slot,
            ..market
        }
    }
}

/// The debt of `borrowed`, taken on at `snapshot`, once the index is `index`:
/// it grows as the index did, rounded down. A position without a snapshot adopts
/// the index as it stands.
pub open spec fn debt_at(borrowed: int, snapshot: int, index: int) -> int {
    if snapshot == 0 || borrowed == 0 || snapshot == index {
        borrowed
    } else {
        math::sat_u64(borrowed * index / snapshot)
    }
}

/// `position` with its debt restated at `index`.
pub open spec fn position_at(position: Position, index: u128) -> Position {
    Position {
        borrowed: debt_at(
            position.borrowed as int,
            position.borrow_index_snapshot_e18 as int,
            index as int,
        ) as u64,
        borrow_index_snapshot_e18: index,
        ..position
    }
}

/// Advances the market's borrow index by however many slots have passed since
/// the last accrual. Linear approximation, which slightly underestimates
/// continuous compounding.
pub fn accrue_market(market: &mut Market, clock: &Clock)
    ensures
        *final(market) == market_at(*old(market), clock.slot),
{
    if clock.slot <= market.last_update_slot {
        return ;
    }
    let slots: u128 = (clock.slot - market.last_update_slot) as u128;
    let index: u128 = market.borrow_index_e18;
    let rate: u128 = market.borrow_rate_per_slot_e18 as u128;
    proof {
        lemma_growth_fits(index as int, rate as int, slots as int);
        lemma_sat_product(index * rate, slots as int);
    }
    let growth: u128 = math::saturating_mul(math::saturating_mul(index, rate), slots)
        / RATE_SCALE_E18;
    market.borrow_index_e18 = index.saturating_add(growth);
    market.last_update_slot = clock.slot;
}

/// Restates `position.borrowed` from its snapshot index to the market's
/// current index. Idempotent: after the call the position's snapshot equals
/// the market's current index.
pub fn accrue_position(position: &mut Position, market: &Market)
    ensures
        *final(position) == position_at(*old(position), market.borrow_index_e18),
{
    if position.borrow_index_snapshot_e18 == 0 || position.borrowed == 0
        || position.borrow_index_snapshot_e18 == market.borrow_index_e18 {
        position.borrow_index_snapshot_e18 = market.borrow_index_e18;
        return ;
    }
    position.borrowed = math::mul_div(
        position.borrowed,
        market.borrow_index_e18,
        position.borrow_index_snapshot_e18,
    );
    position.borrow_index_snapshot_e18 = market.borrow_index_e18;
}

/// Clamping a first product does not show in the clamped whole.
proof fn lemma_sat_product(x: int, factor: int)
    requires
        0 <= x,
        1 <= factor,
    ensures
        math::sat(math::sat(x) * factor) == math::sat(x * factor),
{
    if x > u128::MAX {
        math::lemma_mul_mono(u128::MAX as int, 1, u128::MAX as int, factor);
        math::lemma_mul_mono(u128::MAX as int, factor, x, factor);
    }
}

/// The growth of an index is a nonnegative `u128`.
proof fn lemma_growth_fits(index: int, rate: int, slots: int)
    requires
        0 <= index,
        0 <= rate,
        0 <= slots,
    ensures
        0 <= index * rate,
        0 <= index * rate * slots,
        0 <= index_growth(index, rate, slots) <= u128::MAX,
{
    math::lemma_mul_mono(0, 0, index, rate);
    math::lemma_mul_mono(0, 0, index * rate, slots);
}

/// A market's index never falls, whatever the slot; nothing but the index and
/// its slot changes, and the market's terms stay sound.
pub proof fn law_index_never_falls(market: Market, slot: u64)
    ensures
        market_at(market, slot).borrow_index_e18 >= market.borrow_index_e18,
        market_at(market, slot).last_update_slot >= market.last_update_slot,
        market_at(market, slot) == (Market {
            borrow_index_e18: market_at(market, slot).borrow_index_e18,
            last_update_slot: market_at(market, slot).last_update_slot,
            ..market
        }),
        market.wf() ==> market_at(market, slot).wf(),
{
    if slot > market.last_update_slot {
        lemma_growth_fits(
            market.borrow_index_e18 as int,
            market.borrow_rate_per_slot_e18 as int,
            slot - market.last_update_slot,
        );
    }
}

/// Accruing a market again in the same slot changes nothing.
pub proof fn law_market_accrual_is_idempotent(market: Market, slot: u64)
    ensures
        market_at(market_at(market, slot), slot) == market_at(market, slot),
{
}

/// A market that charges nothing keeps its index, whatever the slot.
pub proof fn law_zero_rate_keeps_index(market: Market, slot: u64)
    requires
        market.borrow_rate_per_slot_e18 == 0,
    ensures
        market_at(market, slot).borrow_index_e18 == market.borrow_index_e18,
{
    let index = market.borrow_index_e18 as int;
    let slots = slot - market.last_update_slot;
    assert(index * 0 == 0);
    assert(index * 0 * slots == 0);
}

/// One linear step over two periods does not charge more than compounding over
/// them does, but for one unit of rounding.
pub proof fn law_linear_step_underestimates_compounding(market: Market, first: u64, second: u64)
    requires
        market.last_update_slot <= first <= second,
    ensures
        market_at(market, second).borrow_index_e18 <= market_at(
            market_at(market, first),
            second,
        ).borrow_index_e18 + 1,
{
    let i = market.borrow_index_e18 as int;
    let r = market.borrow_rate_per_slot_e18 as int;
    let a = first - market.last_update_slot;
    let b = second - first;
    let scale = RATE_SCALE_E18 as int;
    if 0 < a && 0 < b {
        let g1 = index_growth(i, r, a);
        let i1 = grown_index(i, r, a);
        let g2 = index_growth(i1, r, b);
        let whole = index_growth(i, r, a + b);
        lemma_growth_fits(i, r, a);
        lemma_growth_fits(i, r, b);
        lemma_growth_fits(i, r, a + b);
        lemma_growth_fits(i1, r, b);
        assert(i * r * (a + b) == i * r * a + i * r * b) by (nonlinear_arith);
        let x = math::sat(i * r * a);
        let y = math::sat(i * r * b);
        assert(math::sat(i * r * (a + b)) <= x + y);
        assert(whole <= g1 + y / scale + 1);
        math::lemma_mul_mono(i, r, i1, r);
        math::lemma_mul_mono(i * r, b, i1 * r, b);
        math::lemma_div_mono(y, math::sat(i1 * r * b), scale);
    }
}

/// Restating a position's debt a second time at the same index changes nothing.
pub proof fn law_position_accrual_is_idempotent(position: Position, index: u128)
    ensures
        position_at(position, index).borrow_index_snapshot_e18 == index,
        position_at(position_at(position, index), index) == position_at(position, index),
{
}

/// A debt does not shrink as the index grows.
pub proof fn law_debt_never_falls(position: Position, index: u128)
    requires
        position.borrow_index_snapshot_e18 <= index,
    ensures
        position_at(position, index).borrowed >= position.borrowed,
{
    let b = position.borrowed as int;
    let s = position.borrow_index_snapshot_e18 as int;
    let i = index as int;
    if s != 0 && b != 0 && s != i {
        math::lemma_mul_mono(b, s, b, i);
        math::lemma_div_at_least(b * i, s, b);
    }
}

/// Restating a debt in two steps never charges more than restating it in one,
/// whatever index lies between.
pub proof fn law_steps_never_overcharge(position: Position, between: u128, index: u128)
    requires
        position.borrow_index_snapshot_e18 > 0,
    ensures
        position_at(position_at(position, between), index).borrowed <= position_at(
            position,
            index,
        ).borrowed,
{
    let b = position.borrowed as int;
    let s = position.borrow_index_snapshot_e18 as int;
    let m = between as int;
    let i = index as int;
    math::lemma_mul_mono(0, 0, b, m);
    math::lemma_mul_mono(0, 0, b, i);
    math::lemma_div_bound(b * m, s);
    math::lemma_div_bound(b * i, s);
    vstd::arithmetic::div_mod::lemma_div_by_multiple(b, s);
    let x = debt_at(b, s, m);
    assert(0 <= x <= b * m / s);
    let y = debt_at(x, m, i);
    if m > 0 && x > 0 {
        math::lemma_mul_mono(0, 0, x, i);
        math::lemma_div_bound(x * i, m);
        vstd::arithmetic::div_mod::lemma_div_by_multiple(x, m);
        assert(0 <= y <= x * i / m);
        math::lemma_mul_mono(x, s, b * m / s, s);
        math::lemma_mul_mono(y, m, x * i / m, m);
        assert(y * s <= b * i) by (nonlinear_arith)
            requires
                0 <= y,
                y * m <= x * i,
                x * s <= b * m,
                m > 0,
                s > 0,
                0 <= i,
        {
            assert(y * m * s <= x * i * s);
            assert(x * s * i <= b * m * i);
            assert(y * s * m <= b * i * m);
        }
        math::lemma_div_at_least(b * i, s, y);
    }
}

/// The index grows by its rate for every slot that has passed: by the greatest
/// whole number whose 10^18-fold does not exceed index times rate times slots,
/// where that product and the index fit in a `u128`; a product beyond that counts
/// as the largest `u128`, and so does an index. Nothing else changes but the slot.
pub proof fn law_index_grows_by_the_rate_for_every_slot(market: Market, slot: u64)
    ensures
        ({
            let after = market_at(market, slot);
            let product = market.borrow_index_e18 * market.borrow_rate_per_slot_e18 * (slot
                - market.last_update_slot);
            let growth = after.borrow_index_e18 - market.borrow_index_e18;
            &&& slot <= market.last_update_slot ==> after == market
            &&& slot > market.last_update_slot ==> {
                &&& after.last_update_slot == slot
                &&& after == (Market {
                    borrow_index_e18: after.borrow_index_e18,
                    last_update_slot: after.last_update_slot,
                    ..market
                })
                &&& growth >= 0
                &&& growth * 1_000_000_000_000_000_000 <= product
                &&& growth * 1_000_000_000_000_000_000 <= u128::MAX
                &&& after.borrow_index_e18 == u128::MAX || (growth + 1) * 1_000_000_000_000_000_000
                    > product || (growth + 1) * 1_000_000_000_000_000_000 > u128::MAX
            }
        }),
{
    if slot > market.last_update_slot {
        lemma_growth_fits(
            market.borrow_index_e18 as int,
            market.borrow_rate_per_slot_e18 as int,
            slot - market.last_update_slot,
        );
    }
}

/// The growth of an index is linear in the slots: where nothing clamps, two
/// periods from one index add together what they add as one period or, by
/// rounding, one unit less.
pub proof fn law_growth_is_linear_in_the_slots(market: Market, first: u64, second: u64)
    requires
        market.last_update_slot + first + second <= u64::MAX,
        market.borrow_index_e18 * market.borrow_rate_per_slot_e18 * (first + second) <= u128::MAX,
        market_at(
            market,
            (market.last_update_slot + first + second) as u64,
        ).borrow_index_e18 < u128::MAX,
    ensures
        ({
            let start = market.last_update_slot;
            let index = market.borrow_index_e18 as int;
            let one = market_at(market, (start + first) as u64).borrow_index_e18 - index;
            let other = market_at(market, (start + second) as u64).borrow_index_e18 - index;
            let both = market_at(market, (start + first + second) as u64).borrow_index_e18 - index;
            one + other <= both <= one + other + 1
        }),
{
    let i = market.borrow_index_e18 as int;
    let r = market.borrow_rate_per_slot_e18 as int;
    let a = first as int;
    let b = second as int;
    lemma_growth_fits(i, r, a);
    lemma_growth_fits(i, r, b);
    lemma_growth_fits(i, r, a + b);
    assert(i * r * (a + b) == i * r * a + i * r * b) by (nonlinear_arith);
    assert(i * r * 0 == 0);
}

/// A restated debt is the greatest whole number that stands to the debt as it
/// was no more than the index now stands to the index then, up to the largest
/// `u64`. Without an index to go by the debt stays as it was. The position is
/// then stated at the index, and nothing else of it changes.
pub proof fn law_debt_grows_as_the_index_does(position: Position, index: u128)
    ensures
        ({
            let after = position_at(position, index);
            let then = position.borrow_index_snapshot_e18;
            &&& after.borrow_index_snapshot_e18 == index
            &&& after == (Position {
                borrowed: after.borrowed,
                borrow_index_snapshot_e18: after.borrow_index_snapshot_e18,
                ..position
            })
            &&& then == 0 ==> after.borrowed == position.borrowed
            &&& then > 0 ==> {
                &&& after.borrowed * then <= position.borrowed * index
                &&& after.borrowed == u64::MAX || (after.borrowed + 1) * then > position.borrowed
                    * index
            }
        }),
{
    let b = position.borrowed as int;
    let s = position.borrow_index_snapshot_e18 as int;
    let i = index as int;
    let d = position_at(position, index).borrowed as int;
    if s > 0 {
        math::lemma_mul_mono(0, 0, b, i);
        math::lemma_div_bound(b * i, s);
        if b != 0 && s != i {
            math::lemma_mul_mono(d, s, b * i / s, s);
        }
        assert((d + 1) * s == d * s + s) by (nonlinear_arith);
        if b == 0 {
            assert(0 * s == 0 && 0 * i == 0);
        }
    }
}

} // verus!
