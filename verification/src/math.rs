//! Saturating fixed-point arithmetic.

use vstd::arithmetic::power::*;
use vstd::arithmetic::power2::*;
use vstd::prelude::*;

verus! {

/// `x`, clamped to the largest `u128`.
pub open spec fn sat(x: int) -> int {
    if x <= u128::MAX {
        x
    } else {
        u128::MAX as int
    }
}

/// `x`, clamped to the largest `u64`.
pub open spec fn sat_u64(x: int) -> int {
    if x <= u64::MAX {
        x
    } else {
        u64::MAX as int
    }
}

/// `a * b`, clamped to the largest `u128`.
pub(crate) fn saturating_mul(a: u128, b: u128) -> (r: u128)
    ensures
        r == sat(a * b),
{
    match a.checked_mul(b) {
        Some(r) => r,
        None => u128::MAX,
    }
}

/// `x`, clamped to the largest `u64`.
pub(crate) fn clamp_u64(x: u128) -> (r: u64)
    ensures
        r == sat_u64(x as int),
{
    if x <= u64::MAX as u128 {
        x as u64
    } else {
        u64::MAX
    }
}

/// The `exponent`th power of ten, if it fits in a `u128`.
pub(crate) fn checked_pow10(exponent: u32) -> (r: Option<u128>)
    ensures
        r is Some <==> pow(10, exponent as nat) <= u128::MAX,
        r matches Some(power) ==> power == pow(10, exponent as nat),
{
    let mut power: u128 = 1;
    let mut i: u32 = 0;
    proof {
        lemma_pow0(10);
    }
    while i < exponent
        invariant
            i <= exponent,
            power == pow(10, i as nat),
        decreases exponent - i,
    {
        proof {
            reveal(pow);
            lemma_pow_increases(10, (i + 1) as nat, exponent as nat);
        }
        match power.checked_mul(10) {
            Some(next) => {
                power = next;
            },
            None => {
                return None;
            },
        }
        i = i + 1;
    }
    Some(power)
}

/// `x + y`, both below `d`: whether the sum reaches `d`, and the sum less `d`
/// where it does.
fn add_below(x: u128, y: u128, d: u128) -> (r: (bool, u128))
    requires
        x < d,
        y < d,
    ensures
        r.0 <==> x + y >= d,
        r.1 < d,
        x + y == r.1 + (if r.0 {
            d as int
        } else {
            0
        }),
{
    if x >= d - y {
        (true, x - (d - y))
    } else {
        (false, x + y)
    }
}

/// `a * b / d` rounded down, for a `b` below `d`: the quotient is then at most
/// `a`, however large the product.
fn mul_div_below(a: u64, b: u128, d: u128) -> (q: u64)
    requires
        b < d,
    ensures
        q == a * b / (d as int),
        q <= a,
{
    let mut q: u64 = 0;
    let mut rem: u128 = 0;
    let mut left: u64 = a;
    let mut unit: u128 = 0x1_0000_0000_0000_0000;
    let ghost mut i: nat = 64;
    let ghost mut done: int = 0;
    proof {
        lemma2_to64();
        assert(0 * b == 0 && 0 * d == 0 && 0 * unit == 0) by (nonlinear_arith);
    }
    while unit > 1
        invariant
            b < d,
            i <= 64,
            unit == pow2(i),
            unit <= 0x1_0000_0000_0000_0000,
            a == done * unit + left,
            left < unit,
            0 <= done,
            done * b == q * d + rem,
            rem < d,
            q <= done <= a,
        decreases unit,
    {
        proof {
            if i == 0 {
                lemma2_to64();
            }
            lemma_pow2_unfold(i);
        }
        let half: u128 = unit / 2;
        let ghost before = done;
        assert(before * unit == (2 * before) * half) by (nonlinear_arith)
            requires
                unit == 2 * half,
        ;
        assert(2 * before <= a) by (nonlinear_arith)
            requires
                a == (2 * before) * half + left,
                half >= 1,
                0 <= before,
                0 <= left,
        ;
        let (carry, doubled) = add_below(rem, rem, d);
        let twice: u64 = if carry {
            2 * q + 1
        } else {
            2 * q
        };
        proof {
            assert((2 * before) * b == twice * d + doubled) by (nonlinear_arith)
                requires
                    before * b == q * d + rem,
                    2 * rem == doubled + (if carry {
                        d as int
                    } else {
                        0
                    }),
                    twice == 2 * q + (if carry {
                        1int
                    } else {
                        0
                    }),
            ;
            lemma_quotient_below(2 * before, b as int, d as int, twice as int, doubled as int);
            done = 2 * before;
        }
        q = twice;
        rem = doubled;
        unit = half;
        if left as u128 >= half {
            assert(done + 1 <= a) by (nonlinear_arith)
                requires
                    a == done * half + left,
                    left >= half,
                    half >= 1,
                    0 <= done,
            ;
            assert((done + 1) * half == done * half + half) by (nonlinear_arith);
            let (carry, sum) = add_below(rem, b, d);
            let more: u64 = if carry {
                q + 1
            } else {
                q
            };
            proof {
                assert((done + 1) * b == more * d + sum) by (nonlinear_arith)
                    requires
                        done * b == q * d + rem,
                        rem + b == sum + (if carry {
                            d as int
                        } else {
                            0
                        }),
                        more == q + (if carry {
                            1int
                        } else {
                            0
                        }),
                ;
                lemma_quotient_below(done + 1, b as int, d as int, more as int, sum as int);
                done = done + 1;
            }
            q = more;
            rem = sum;
            left = left - half as u64;
        }
        proof {
            i = (i - 1) as nat;
        }
    }
    proof {
        assert(done * unit == done) by (nonlinear_arith)
            requires
                unit == 1,
        ;
        vstd::arithmetic::div_mod::lemma_fundamental_div_mod_converse(
            a * b,
            d as int,
            q as int,
            rem as int,
        );
    }
    q
}

/// `a * b / d` rounded down and clamped to the largest `u64`, however large the
/// product.
pub(crate) fn mul_div(a: u64, b: u128, d: u128) -> (r: u64)
    requires
        d > 0,
    ensures
        r == sat_u64(a * b / (d as int)),
{
    let whole: u128 = b / d;
    let part: u128 = b % d;
    let below: u64 = mul_div_below(a, part, d);
    proof {
        vstd::arithmetic::div_mod::lemma_fundamental_div_mod(b as int, d as int);
        let rem = a * part - below * d;
        vstd::arithmetic::div_mod::lemma_fundamental_div_mod(a * part, d as int);
        vstd::arithmetic::mul::lemma_mul_is_commutative(below as int, d as int);
        assert(a * b == (a * whole + below) * d + rem) by (nonlinear_arith)
            requires
                b == d * whole + part,
                rem == a * part - below * d,
        ;
        vstd::arithmetic::div_mod::lemma_fundamental_div_mod_converse(
            a * b,
            d as int,
            a * whole + below,
            rem,
        );
        lemma_mul_mono(0, 0, a as int, whole as int);
    }
    clamp_u64(saturating_mul(a as u128, whole).saturating_add(below as u128))
}

/// Where `n * b` is `q` whole divisors and a rest, and `b` is below the divisor,
/// `q` is at most `n`.
proof fn lemma_quotient_below(n: int, b: int, d: int, q: int, rem: int)
    requires
        0 <= n,
        0 <= b < d,
        0 <= rem,
        n * b == q * d + rem,
    ensures
        q <= n,
{
    assert(q <= n) by (nonlinear_arith)
        requires
            0 <= n,
            0 <= b < d,
            0 <= rem,
            n * b == q * d + rem,
    ;
}

/// A product of two nonnegative factors grows with either of them.
pub(crate) proof fn lemma_mul_mono(a: int, b: int, c: int, d: int)
    requires
        0 <= a <= c,
        0 <= b <= d,
    ensures
        0 <= a * b <= c * d,
{
    assert(0 <= a * b <= c * d) by (nonlinear_arith)
        requires
            0 <= a <= c,
            0 <= b <= d,
    ;
}

/// The quotient of a nonnegative number grows with it.
pub(crate) proof fn lemma_div_mono(a: int, b: int, d: int)
    requires
        0 <= a <= b,
        0 < d,
    ensures
        0 <= a / d <= b / d,
{
    vstd::arithmetic::div_mod::lemma_div_is_ordered(a, b, d);
    vstd::arithmetic::div_mod::lemma_div_pos_is_pos(a, d);
}

/// A quotient counts the whole divisors in the dividend: it is no more than fit,
/// and one more does not fit.
pub(crate) proof fn lemma_div_bound(x: int, d: int)
    requires
        0 <= x,
        0 < d,
    ensures
        0 <= x / d,
        (x / d) * d <= x < (x / d) * d + d,
{
    vstd::arithmetic::div_mod::lemma_fundamental_div_mod(x, d);
    vstd::arithmetic::div_mod::lemma_div_pos_is_pos(x, d);
    vstd::arithmetic::mul::lemma_mul_is_commutative(x / d, d);
}

/// A quotient is at least `q` where the dividend holds `q` whole divisors.
pub(crate) proof fn lemma_div_at_least(x: int, d: int, q: int)
    requires
        0 <= x,
        0 < d,
        q * d <= x,
    ensures
        q <= x / d,
{
    lemma_div_bound(x, d);
    assert(q <= x / d) by (nonlinear_arith)
        requires
            q * d <= x,
            x < (x / d) * d + d,
            0 < d,
    ;
}

/// Clamping gives the greatest number of the type that is not more than `x`.
pub proof fn law_clamping_gives_the_greatest(x: int, y: int)
    ensures
        sat(x) <= x,
        sat(x) <= u128::MAX,
        y <= x && y <= u128::MAX ==> y <= sat(x),
        sat_u64(x) <= x,
        sat_u64(x) <= u64::MAX,
        y <= x && y <= u64::MAX ==> y <= sat_u64(x),
{
}

} // verus!
