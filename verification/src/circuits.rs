//! The circuits that run on encrypted amounts: each answers one question about
//! a loan and reveals nothing else.

use vstd::prelude::*;

verus! {

/// Basis points that make up one whole.
pub open spec fn whole_bps() -> int {
    10_000
}

/// The interest on `borrow` at `rate_bps` basis points per slot.
pub open spec fn interest_due(borrow: u64, rate_bps: u32, slots_elapsed: u64) -> int {
    borrow * rate_bps * slots_elapsed / whole_bps()
}

/// A borrow is at most `bps` basis points of its collateral.
pub open spec fn within_ltv(collateral: u64, borrow: u64, bps: u16) -> bool {
    borrow * whole_bps() <= collateral * bps
}

/// The health factor of a loan, `collateral * bps` over the debt, is below one.
pub open spec fn underwater(collateral: u64, debt: u64, bps: u16) -> bool {
    collateral * bps < debt * whole_bps()
}

/// Whether a borrow is within the allowed share of its collateral.
pub fn check_ltv(collateral_value: u64, borrow_value: u64, max_ltv_bps: u16) -> (within: bool)
    ensures
        within == within_ltv(collateral_value, borrow_value, max_ltv_bps),
{
    proof {
        lemma_value_fits(collateral_value, max_ltv_bps);
    }
    let borrow_scaled: u128 = (borrow_value as u128) * 10_000;
    let collateral_scaled: u128 = (collateral_value as u128) * (max_ltv_bps as u128);
    borrow_scaled <= collateral_scaled
}

/// Whether a loan's health factor is below one.
pub fn check_liquidatable(
    collateral_value: u64,
    borrow_with_interest: u64,
    collateral_factor_bps: u16,
) -> (liquidatable: bool)
    ensures
        liquidatable == underwater(collateral_value, borrow_with_interest, collateral_factor_bps),
{
    proof {
        lemma_value_fits(collateral_value, collateral_factor_bps);
    }
    let left: u128 = (collateral_value as u128) * (collateral_factor_bps as u128);
    let right: u128 = (borrow_with_interest as u128) * 10_000;
    left < right
}

/// The balance of a loan with its interest, of which the low 64 bits are added.
pub open spec fn balance_with_interest(borrow: u64, rate_bps: u32, slots_elapsed: u64) -> int {
    borrow + interest_due(borrow, rate_bps, slots_elapsed) % 0x1_0000_0000_0000_0000
}

/// The balance of a loan once the interest of `slots_elapsed` slots is added.
///
/// Of an interest that does not fit in a `u64` only the low 64 bits are added.
pub fn accrue_interest(borrow: u64, rate_bps: u32, slots_elapsed: u64) -> (balance: u64)
    requires
        borrow * rate_bps * slots_elapsed <= u128::MAX,
        borrow + interest_due(borrow, rate_bps, slots_elapsed) % 0x1_0000_0000_0000_0000
            <= u64::MAX,
    ensures
        balance == borrow + interest_due(borrow, rate_bps, slots_elapsed)
            % 0x1_0000_0000_0000_0000,
        balance == balance_with_interest(borrow, rate_bps, slots_elapsed),
{
    proof {
        assert(0 <= borrow * rate_bps <= u64::MAX * u32::MAX) by (nonlinear_arith);
    }
    let interest: u128 = (borrow as u128) * (rate_bps as u128) * (slots_elapsed as u128) / 10_000;
    let low: u64 = #[verifier::truncate] (interest as u64);
    assert(low == interest % 0x1_0000_0000_0000_0000) by (bit_vector)
        requires
            low == interest as u64,
    ;
    borrow + low
}

proof fn lemma_value_fits(value: u64, bps: u16)
    ensures
        0 <= value * bps <= u64::MAX * u16::MAX,
{
    assert(0 <= value * bps <= u64::MAX * u16::MAX) by (nonlinear_arith);
}

/// At one and the same factor, a loan is liquidatable exactly where its debt is
/// not within the allowed share of its collateral.
pub proof fn law_liquidatable_iff_beyond_ltv(collateral: u64, debt: u64, bps: u16)
    ensures
        underwater(collateral, debt, bps) <==> !within_ltv(collateral, debt, bps),
{
}

/// A borrow that is within the limit stays within it when the collateral grows
/// or the borrow shrinks.
pub proof fn law_ltv_is_monotone(
    collateral: u64,
    borrow: u64,
    more_collateral: u64,
    less_borrow: u64,
    bps: u16,
)
    requires
        within_ltv(collateral, borrow, bps),
        collateral <= more_collateral,
        less_borrow <= borrow,
    ensures
        within_ltv(more_collateral, less_borrow, bps),
{
    assert(collateral * bps <= more_collateral * bps) by (nonlinear_arith)
        requires
            collateral <= more_collateral,
    ;
}

/// Interest accrues linearly in the slots that pass: two periods apart owe, on
/// one principal, what they owe as one period or, by rounding, one unit less.
pub proof fn law_interest_is_linear(borrow: u64, rate_bps: u32, first: u64, second: u64)
    requires
        first + second <= u64::MAX,
    ensures
        ({
            let apart = interest_due(borrow, rate_bps, first) + interest_due(
                borrow,
                rate_bps,
                second,
            );
            let whole = interest_due(borrow, rate_bps, (first + second) as u64);
            apart <= whole <= apart + 1
        }),
        interest_due(borrow, rate_bps, 0) == 0,
{
    let per_slot = borrow * rate_bps;
    assert(per_slot * (first + second) == per_slot * first + per_slot * second)
        by (nonlinear_arith);
    assert(per_slot * 0 == 0);
}

/// The limit is sharp: a borrow is within it exactly where it is no more than
/// the greatest whole amount that `bps` ten-thousandths of the collateral hold,
/// and a debt is liquidatable exactly where it is more.
pub proof fn law_limit_is_sharp(collateral: u64, borrow: u64, bps: u16, limit: int)
    requires
        limit * 10_000 <= collateral * bps < (limit + 1) * 10_000,
    ensures
        within_ltv(collateral, borrow, bps) <==> borrow <= limit,
        underwater(collateral, borrow, bps) <==> borrow > limit,
{
}

/// The interest is the greatest whole amount that does not exceed `rate_bps`
/// ten-thousandths of the borrow for every slot.
pub proof fn law_interest_is_the_rate_for_every_slot(
    borrow: u64,
    rate_bps: u32,
    slots_elapsed: u64,
)
    ensures
        ({
            let interest = interest_due(borrow, rate_bps, slots_elapsed);
            interest * 10_000 <= borrow * rate_bps * slots_elapsed < (interest + 1) * 10_000
        }),
{
}

/// Where the interest fits in a `u64` the balance grows by all of it: by the
/// greatest whole amount that does not exceed `rate_bps` ten-thousandths of the
/// borrow for every slot. Of a larger interest a whole multiple of 2^64 is left
/// off, so that what is added fits.
pub proof fn law_balance_grows_by_the_interest(borrow: u64, rate_bps: u32, slots_elapsed: u64)
    ensures
        ({
            let added = balance_with_interest(borrow, rate_bps, slots_elapsed) - borrow;
            let product = borrow * rate_bps * slots_elapsed;
            &&& 0 <= added <= u64::MAX
            &&& product < 10_000 * 0x1_0000_0000_0000_0000 ==> added * 10_000 <= product < (added
                + 1) * 10_000
            &&& exists|left_off: int|
                0 <= left_off && #[trigger] (left_off * 0x1_0000_0000_0000_0000) * 10_000 + added
                    * 10_000 <= product < (left_off * 0x1_0000_0000_0000_0000) * 10_000 + (added
                    + 1) * 10_000
        }),
{
    let product = borrow * rate_bps * slots_elapsed;
    assert(0 <= product) by (nonlinear_arith)
        requires
            product == borrow * rate_bps * slots_elapsed,
    ;
    let interest = interest_due(borrow, rate_bps, slots_elapsed);
    let left_off = interest / 0x1_0000_0000_0000_0000;
    assert((left_off * 0x1_0000_0000_0000_0000) * 10_000 + (interest % 0x1_0000_0000_0000_0000)
        * 10_000 <= product);
}

} // verus!
