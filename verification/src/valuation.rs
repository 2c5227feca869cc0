//! What an amount of a token is worth in dollars, and the other way round.

use crate::math;
use vstd::arithmetic::power::*;
use vstd::prelude::*;

verus! {

/// A quoted price: `price * 10^exponent` dollars for one token.
#[derive(Clone, Copy, Debug, PartialEq, Eq)]
pub struct Price {
    pub price: i64,
    pub conf: u64,
    pub exponent: i32,
    pub publish_time: i64,
}

/// The quoted price without its exponent; a negative quote counts as zero.
pub open spec fn price_units(price: Price) -> int {
    if price.price > 0 {
        price.price as int
    } else {
        0
    }
}

/// The power of ten that turns base units times price units into the eighth
/// decimal of a dollar.
pub open spec fn usd_shift(price: Price, decimals: u8) -> int {
    8 + price.exponent - decimals
}

/// The value of `amount` base units in the eighth decimal of a dollar.
pub open spec fn usd_8dp(amount: int, price: Price, decimals: u8) -> int {
    let raw = amount * price_units(price);
    let shift = usd_shift(price, decimals);
    if shift >= 0 {
        math::sat(raw * pow(10, shift as nat))
    } else {
        raw / pow(10, (-shift) as nat)
    }
}

/// The base units that `value` (in the eighth decimal of a dollar) buys. A unit
/// whose worth clamps, as it does in `usd_8dp`, costs what it clamps to.
pub open spec fn token_units(value: int, price: Price, decimals: u8) -> int {
    let shift = usd_shift(price, decimals);
    if price.price <= 0 {
        0
    } else if shift >= 0 {
        math::sat_u64(value / math::sat(price.price * pow(10, shift as nat)))
    } else {
        math::sat_u64(value * pow(10, (-shift) as nat) / (price.price as int))
    }
}

/// USD value of `amount` of a token, scaled to 8 decimals of dollars
/// (i.e. the unit is 1e-8 USD). Saturating math: a wildly out-of-range result
/// clamps rather than overflows, whatever the exponent.
pub fn token_usd_8dp(amount: u64, price: &Price, decimals: u8) -> (value: u128)
    ensures
        value == usd_8dp(amount as int, *price, decimals),
{
    let p: u128 = if price.price > 0 {
        price.price as u128
    } else {
        0
    };
    let raw: u128 = math::saturating_mul(amount as u128, p);
    proof {
        lemma_raw_fits(amount, *price);
    }
    let shift: i64 = 8 + price.exponent as i64 - decimals as i64;
    if shift >= 0 {
        let mul: u128 = match math::checked_pow10(shift as u32) {
            Some(power) => power,
            None => u128::MAX,
        };
        proof {
            lemma_sat_scale(raw as int, mul as int, pow(10, shift as nat));
        }
        math::saturating_mul(raw, mul)
    } else {
        proof {
            lemma_pow_positive(10, (-shift) as nat);
        }
        match math::checked_pow10((-shift) as u32) {
            Some(power) => raw / power,
            None => {
                proof {
                    vstd::arithmetic::div_mod::lemma_basic_div(
                        raw as int,
                        pow(10, (-shift) as nat),
                    );
                }
                0
            },
        }
    }
}

/// Inverse of `token_usd_8dp`: how many base units of a token (`decimals`
/// precision, priced at `price`) does `value_usd_8dp` correspond to.
pub fn usd_8dp_to_token(value_usd_8dp: u128, price: &Price, decimals: u8) -> (amount: u64)
    ensures
        amount == token_units(value_usd_8dp as int, *price, decimals),
{
    if price.price <= 0 {
        return 0;
    }
    let p: u128 = price.price as u128;
    let shift: i64 = 8 + price.exponent as i64 - decimals as i64;
    let result: u128 = if shift >= 0 {
        let power: u128 = match math::checked_pow10(shift as u32) {
            Some(power) => power,
            None => u128::MAX,
        };
        proof {
            lemma_sat_scale(p as int, power as int, pow(10, shift as nat));
            lemma_pow_positive(10, shift as nat);
            math::lemma_mul_mono(1, 1, p as int, pow(10, shift as nat));
        }
        let denom: u128 = math::saturating_mul(p, power);
        value_usd_8dp / denom
    } else {
        let mul: u128 = match math::checked_pow10((-shift) as u32) {
            Some(power) => power,
            None => u128::MAX,
        };
        proof {
            lemma_sat_scale(value_usd_8dp as int, mul as int, pow(10, (-shift) as nat));
            lemma_pow_positive(10, (-shift) as nat);
            math::lemma_mul_mono(0, 0, value_usd_8dp as int, pow(10, (-shift) as nat));
            lemma_clamped_dividend(value_usd_8dp * pow(10, (-shift) as nat), *price);
        }
        math::saturating_mul(value_usd_8dp, mul) / p
    };
    math::clamp_u64(result)
}

/// Base units times price units never reach the largest `u128`.
proof fn lemma_raw_fits(amount: u64, price: Price)
    ensures
        0 <= amount * price_units(price) <= u128::MAX,
{
    math::lemma_mul_mono(0, 0, amount as int, price_units(price));
    math::lemma_mul_mono(amount as int, price_units(price), u64::MAX as int, i64::MAX as int);
}

/// A factor that was clamped to the largest `u128` clamps the product alike.
proof fn lemma_sat_scale(x: int, factor: int, power: int)
    requires
        0 <= x,
        0 <= factor,
        factor == math::sat(power),
    ensures
        math::sat(x * factor) == math::sat(x * power),
{
    if power > u128::MAX && x > 0 {
        math::lemma_mul_mono(1, u128::MAX as int, x, factor);
        math::lemma_mul_mono(1, u128::MAX as int, x, power);
    }
}

/// Clamping a dividend to the largest `u128` does not show in what it buys: at
/// any price that is already more than the largest `u64`.
proof fn lemma_clamped_dividend(x: int, price: Price)
    requires
        0 <= x,
        price.price > 0,
    ensures
        math::sat_u64(math::sat(x) / (price.price as int)) == math::sat_u64(
            x / (price.price as int),
        ),
{
    let p = price.price as int;
    if x > u128::MAX {
        math::lemma_mul_mono(u64::MAX as int, p, u64::MAX as int, i64::MAX as int);
        math::lemma_div_at_least(x, p, u64::MAX as int);
        math::lemma_div_at_least(u128::MAX as int, p, u64::MAX as int);
    }
}

/// More of a token is never worth less.
pub proof fn law_value_grows_with_amount(less: u64, more: u64, price: Price, decimals: u8)
    requires
        less <= more,
    ensures
        0 <= usd_8dp(less as int, price, decimals) <= usd_8dp(more as int, price, decimals)
            <= u128::MAX,
{
    let shift = usd_shift(price, decimals);
    let units = price_units(price);
    lemma_raw_fits(less, price);
    lemma_raw_fits(more, price);
    math::lemma_mul_mono(less as int, units, more as int, units);
    if shift >= 0 {
        let power = pow(10, shift as nat);
        lemma_pow_positive(10, shift as nat);
        math::lemma_mul_mono(less * units, power, more * units, power);
    } else {
        let k = (-shift) as nat;
        lemma_pow_positive(10, k);
        math::lemma_div_mono(less * units, more * units, pow(10, k));
        math::lemma_div_bound(more * units, pow(10, k));
        let value = (more * units) / pow(10, k);
        math::lemma_mul_mono(value, 1, value, pow(10, k));
    }
}

/// A token without a positive price is worth nothing, and no value buys any of
/// it.
pub proof fn law_no_positive_price_no_value(amount: u64, value: u128, price: Price, decimals: u8)
    requires
        price.price <= 0,
    ensures
        usd_8dp(amount as int, price, decimals) == 0,
        token_units(value as int, price, decimals) == 0,
{
    let shift = usd_shift(price, decimals);
    assert(amount * price_units(price) == 0);
    if shift < 0 {
        lemma_pow_positive(10, (-shift) as nat);
        vstd::arithmetic::div_mod::lemma_div_basics(pow(10, (-shift) as nat));
    }
}

/// The units that a value buys are never worth more than that value, and no
/// value buys no units.
pub proof fn law_units_never_exceed_value(value: u128, price: Price, decimals: u8)
    ensures
        0 <= token_units(value as int, price, decimals) <= u64::MAX,
        value == 0 ==> token_units(value as int, price, decimals) == 0,
        usd_8dp(token_units(value as int, price, decimals), price, decimals) <= value,
{
    let shift = usd_shift(price, decimals);
    let p = price.price as int;
    let v = value as int;
    if price.price <= 0 {
        law_no_positive_price_no_value(0, value, price, decimals);
    } else if shift >= 0 {
        let power = pow(10, shift as nat);
        lemma_pow_positive(10, shift as nat);
        math::lemma_mul_mono(1, 1, p, power);
        let denom = math::sat(p * power);
        let bought = v / denom;
        math::lemma_div_bound(v, denom);
        vstd::arithmetic::div_mod::lemma_div_basics(denom);
        let units = math::sat_u64(bought);
        math::lemma_mul_mono(units, denom, bought, denom);
        assert(units * p * power == units * (p * power)) by (nonlinear_arith);
        if p * power > u128::MAX {
            if units >= 1 {
                math::lemma_mul_mono(1, denom, units, denom);
            } else {
                assert(units * p * power == 0) by (nonlinear_arith)
                    requires
                        units == 0,
                ;
            }
        }
    } else {
        let scale = pow(10, (-shift) as nat);
        lemma_pow_positive(10, (-shift) as nat);
        math::lemma_mul_mono(0, 0, v, scale);
        let scaled = v * scale;
        math::lemma_div_bound(scaled, p);
        vstd::arithmetic::div_mod::lemma_div_basics(p);
        let units = math::sat_u64(scaled / p);
        math::lemma_mul_mono(units, p, scaled / p, p);
        math::lemma_div_mono(units * p, v * scale, scale);
        vstd::arithmetic::div_mod::lemma_div_by_multiple(v, scale);
    }
}

/// Turning an amount into dollars and back gives no more than the amount. Where
/// the power of ten multiplies, it gives the amount itself unless the value
/// clamped. Where it divides, the two roundings lose together less than one unit
/// of the eighth decimal of a dollar and one base unit: at most one base unit
/// where a base unit is worth at least that decimal.
pub proof fn law_round_trip(amount: u64, price: Price, decimals: u8)
    requires
        price.price > 0,
    ensures
        ({
            let shift = usd_shift(price, decimals);
            let value = usd_8dp(amount as int, price, decimals);
            let back = token_units(value, price, decimals);
            let scale = pow(10, (-shift) as nat);
            &&& 0 <= back <= amount
            &&& shift >= 0 && amount * price.price * pow(10, shift as nat) <= u128::MAX ==> back
                == amount
            &&& shift < 0 ==> (amount - back) * price.price < scale + price.price
            &&& shift < 0 && price.price >= scale ==> amount - back <= 1
        }),
{
    let shift = usd_shift(price, decimals);
    let p = price.price as int;
    let a = amount as int;
    lemma_raw_fits(amount, price);
    if shift >= 0 {
        let power = pow(10, shift as nat);
        lemma_pow_positive(10, shift as nat);
        math::lemma_mul_mono(1, 1, p, power);
        let denom = math::sat(p * power);
        assert(a * p * power == a * (p * power)) by (nonlinear_arith);
        math::lemma_mul_mono(0, 0, a, p * power);
        let value = math::sat(a * p * power);
        let bought = value / denom;
        math::lemma_div_bound(value, denom);
        if p * power <= u128::MAX {
            if a * (p * power) <= u128::MAX {
                vstd::arithmetic::div_mod::lemma_div_by_multiple(a, denom);
            } else {
                assert(bought <= a) by (nonlinear_arith)
                    requires
                        bought * denom <= value,
                        value <= a * denom,
                        denom > 0,
                ;
            }
        } else if a == 0 {
            assert(a * p * power == 0);
            vstd::arithmetic::div_mod::lemma_div_basics(denom);
        } else {
            math::lemma_mul_mono(1, p * power, a, p * power);
            assert(bought == 1) by {
                vstd::arithmetic::div_mod::lemma_div_by_self(denom);
            }
        }
    } else {
        let scale = pow(10, (-shift) as nat);
        lemma_pow_positive(10, (-shift) as nat);
        let raw = a * p;
        let value = raw / scale;
        math::lemma_div_bound(raw, scale);
        math::lemma_mul_mono(0, 0, value, scale);
        let scaled = value * scale;
        let bought = scaled / p;
        math::lemma_div_bound(scaled, p);
        assert(bought <= a) by (nonlinear_arith)
            requires
                bought * p <= scaled,
                scaled <= a * p,
                p > 0,
        ;
        assert((a - bought) * p == a * p - bought * p) by (nonlinear_arith);
        if p >= scale {
            assert(a - bought <= 1) by (nonlinear_arith)
                requires
                    (a - bought) * p < scale + p,
                    scale <= p,
                    p > 0,
            ;
        }
    }
}

/// A value is the amount times the price in units of the eighth decimal of a
/// dollar. Where the power of ten multiplies it is exact, unless it is more than
/// the largest `u128`; where it divides it is the greatest whole number of units
/// that does not exceed the product.
pub proof fn law_value_is_the_amount_times_the_price(amount: u64, price: Price, decimals: u8)
    ensures
        ({
            let value = usd_8dp(amount as int, price, decimals);
            let up = pow(10, (8 + price.exponent - decimals) as nat);
            let down = pow(10, (decimals - price.exponent - 8) as nat);
            &&& price.price <= 0 ==> value == 0
            &&& price.price > 0 && 8 + price.exponent >= decimals ==> {
                &&& amount * price.price * up <= u128::MAX ==> value == amount * price.price * up
                &&& amount * price.price * up > u128::MAX ==> value == u128::MAX
            }
            &&& price.price > 0 && 8 + price.exponent < decimals ==> value * down <= amount
                * price.price < (value + 1) * down
        }),
{
    if price.price <= 0 {
        law_no_positive_price_no_value(amount, 0, price, decimals);
    } else if 8 + price.exponent < decimals {
        let down = pow(10, (decimals - price.exponent - 8) as nat);
        lemma_raw_fits(amount, price);
        lemma_pow_positive(10, (decimals - price.exponent - 8) as nat);
        math::lemma_div_bound(amount * price.price, down);
        let value = usd_8dp(amount as int, price, decimals);
        assert((value + 1) * down == value * down + down) by (nonlinear_arith);
    }
}

/// The units that a value buys are the greatest number of them whose amount
/// times price does not exceed the value, up to the largest `u64`. A unit that
/// is worth more than the largest `u128` is bought by that value alone.
pub proof fn law_units_are_the_most_that_a_value_buys(value: u128, price: Price, decimals: u8)
    ensures
        ({
            let units = token_units(value as int, price, decimals);
            let up = pow(10, (8 + price.exponent - decimals) as nat);
            let down = pow(10, (decimals - price.exponent - 8) as nat);
            &&& 0 <= units <= u64::MAX
            &&& price.price <= 0 ==> units == 0
            &&& price.price > 0 && 8 + price.exponent < decimals ==> {
                &&& units * price.price <= value * down
                &&& units == u64::MAX || (units + 1) * price.price > value * down
            }
            &&& price.price > 0 && 8 + price.exponent >= decimals && price.price * up
                <= u128::MAX ==> {
                &&& units * (price.price * up) <= value
                &&& units == u64::MAX || (units + 1) * (price.price * up) > value
            }
            &&& price.price > 0 && 8 + price.exponent >= decimals && price.price * up
                > u128::MAX ==> units == (if value == u128::MAX {
                1int
            } else {
                0
            })
        }),
{
    let v = value as int;
    let p = price.price as int;
    law_units_never_exceed_value(value, price, decimals);
    if p > 0 && 8 + price.exponent < decimals {
        let down = pow(10, (decimals - price.exponent - 8) as nat);
        lemma_pow_positive(10, (decimals - price.exponent - 8) as nat);
        math::lemma_mul_mono(0, 0, v, down);
        let bought = v * down / p;
        math::lemma_div_bound(v * down, p);
        let units = token_units(v, price, decimals);
        math::lemma_mul_mono(units, p, bought, p);
        assert((units + 1) * p == units * p + p) by (nonlinear_arith);
    } else if p > 0 {
        let up = pow(10, (8 + price.exponent - decimals) as nat);
        lemma_pow_positive(10, (8 + price.exponent - decimals) as nat);
        math::lemma_mul_mono(1, 1, p, up);
        let denom = math::sat(p * up);
        let bought = v / denom;
        math::lemma_div_bound(v, denom);
        let units = token_units(v, price, decimals);
        math::lemma_mul_mono(units, denom, bought, denom);
        assert((units + 1) * denom == units * denom + denom) by (nonlinear_arith);
        if p * up > u128::MAX {
            if value == u128::MAX {
                vstd::arithmetic::div_mod::lemma_div_by_self(denom);
            } else {
                vstd::arithmetic::div_mod::lemma_basic_div(v, denom);
            }
        }
    }
}

} // verus!
