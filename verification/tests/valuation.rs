use shadow_lend::valuation::{token_usd_8dp, usd_8dp_to_token, Price};

fn price(p: i64, exponent: i32) -> Price {
    Price {
        price: p,
        conf: 0,
        exponent,
        publish_time: 0,
    }
}

#[test]
fn token_usd_basic_round_dollar() {
    // 1 SOL (1e9 atoms, 9 decimals) at $100 (price = 1e10, expo = -8).
    // Expected USD * 1e8 = $100 * 1e8 = 1e10.
    let v = token_usd_8dp(1_000_000_000, &price(10_000_000_000, -8), 9);
    assert_eq!(v, 10_000_000_000);
}

#[test]
fn token_usd_fractional_token() {
    // 0.5 SOL at $100 -> $50 -> 5e9 in 8dp.
    let v = token_usd_8dp(500_000_000, &price(10_000_000_000, -8), 9);
    assert_eq!(v, 5_000_000_000);
}

#[test]
fn token_usd_btc_high_price() {
    // 0.001 BTC at $80,000 = $80 = 8e9 in 8dp.
    // BTC 9 decimals: 0.001 BTC = 1e6 atoms.
    // price = 80_000 * 1e8 = 8e12 at expo = -8.
    let v = token_usd_8dp(1_000_000, &price(8_000_000_000_000, -8), 9);
    assert_eq!(v, 8_000_000_000);
}

#[test]
fn token_usd_zero_amount() {
    assert_eq!(token_usd_8dp(0, &price(10_000_000_000, -8), 9), 0);
}

#[test]
fn token_usd_negative_price_clamps_to_zero() {
    let v = token_usd_8dp(1_000_000_000, &price(-100, -8), 9);
    assert_eq!(v, 0);
}

#[test]
fn round_trip_sol_at_100_dollars() {
    let p = price(10_000_000_000, -8);
    let atoms = 1_234_567_890_000u64; // ~1234.56 SOL
    let usd = token_usd_8dp(atoms, &p, 9);
    let back = usd_8dp_to_token(usd, &p, 9);
    // Allow 1-atom round-trip error from the int division.
    assert!((atoms as i128 - back as i128).abs() <= 1, "{} vs {}", atoms, back);
}

#[test]
fn usd_to_token_zero_price_returns_zero() {
    // A zero or negative price must not let a liquidator seize collateral
    // for free. usd_8dp_to_token returns 0 so the liquidate path will hit
    // the NothingToLiquidate guard.
    assert_eq!(usd_8dp_to_token(1_000_000_000, &price(0, -8), 9), 0);
    assert_eq!(usd_8dp_to_token(1_000_000_000, &price(-42, -8), 9), 0);
}

#[test]
fn token_usd_scales_up_and_clamps() {
    // shift = 8 + 1 - 9 = 0.
    assert_eq!(token_usd_8dp(3, &price(7, 1), 9), 21);
    // shift = 8 + 3 - 9 = 2.
    assert_eq!(token_usd_8dp(3, &price(7, 3), 9), 2_100);
    // 10^38 fits, and 21 * 10^38 does not.
    assert_eq!(token_usd_8dp(3, &price(7, 39), 9), u128::MAX);
    // 10^40 does not fit.
    assert_eq!(token_usd_8dp(3, &price(7, 41), 9), u128::MAX);
    assert_eq!(token_usd_8dp(0, &price(7, 41), 9), 0);
    assert_eq!(token_usd_8dp(1, &price(1, i32::MAX), 0), u128::MAX);
}

#[test]
fn token_usd_of_a_tiny_price_is_zero() {
    // shift = 8 - 37 - 9 = -38, the largest power that fits in a u128.
    assert_eq!(token_usd_8dp(u64::MAX, &price(i64::MAX, -37), 9), 1);
    // shift = -39.
    assert_eq!(token_usd_8dp(1_000, &price(1, -47), 0), 0);
    assert_eq!(token_usd_8dp(u64::MAX, &price(i64::MAX, -38), 9), 0);
    assert_eq!(token_usd_8dp(3, &price(7, i32::MIN), 255), 0);
}

#[test]
fn usd_to_token_each_shift() {
    // shift = 2: 2_150 / (7 * 100) = 3.
    assert_eq!(usd_8dp_to_token(2_150, &price(7, 3), 9), 3);
    // shift = -9.
    assert_eq!(usd_8dp_to_token(10_000_000_000, &price(10_000_000_000, -8), 9), 1_000_000_000);
    // The divisor clamps: only the largest value buys a unit.
    assert_eq!(usd_8dp_to_token(u128::MAX - 1, &price(7, 41), 9), 0);
    assert_eq!(usd_8dp_to_token(u128::MAX, &price(7, 41), 9), 1);
    // The result clamps.
    assert_eq!(usd_8dp_to_token(u128::MAX, &price(1, -8), 9), u64::MAX);
    // So does one whose factor does not fit in a u128, unless there is no value.
    assert_eq!(usd_8dp_to_token(70, &price(7, -38), 9), u64::MAX);
    assert_eq!(usd_8dp_to_token(1, &price(i64::MAX, -38), 9), u64::MAX);
    assert_eq!(usd_8dp_to_token(0, &price(7, -38), 9), 0);
    // 10^38 / i64::MAX is less than the largest u64.
    assert_eq!(
        usd_8dp_to_token(1, &price(i64::MAX, -37), 9),
        (10u128.pow(38) / (i64::MAX as u128)) as u64
    );
}

#[test]
fn units_bought_are_worth_no_more_than_their_value() {
    for (value, p, d) in [
        (12_345_678_901u128, price(8_000_000_000_000, -8), 9),
        (999, price(7, 0), 9),
        (u128::MAX, price(3, 30), 2),
        (u128::MAX, price(i64::MAX, -20), 18),
    ] {
        let units = usd_8dp_to_token(value, &p, d);
        assert!(token_usd_8dp(units, &p, d) <= value);
    }
}

#[test]
fn more_of_a_token_is_worth_no_less() {
    let p = price(123_456_789, -8);
    let mut last = 0;
    for amount in [0, 1, 8, 81, 810, 1_000_000, u64::MAX] {
        let value = token_usd_8dp(amount, &p, 9);
        assert!(value >= last);
        last = value;
    }
    assert_eq!(last, 18446744073709551615u128 * 123_456_789 / 1_000_000_000);
}
