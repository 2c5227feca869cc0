use shadow_lend::chain::Clock;
use shadow_lend::interest::{accrue_market, accrue_position};
use shadow_lend::keys::Pubkey;
use shadow_lend::state::{Market, Position, RATE_SCALE_E18};

fn test_market(borrow_rate_per_slot_e18: u64, last_slot: u64) -> Market {
    Market {
        admin: Pubkey::default(),
        mint: Pubkey::default(),
        amount_per_claim: 0,
        max_ltv_bps: 8000,
        feed_id: [0u8; 32],
        borrow_rate_per_slot_e18,
        borrow_index_e18: RATE_SCALE_E18,
        last_update_slot: last_slot,
        total_supplied: 0,
        total_borrowed: 0,
        claim_count: 0,
        bump: 0,
        authority_bump: 0,
    }
}

fn clock_at(slot: u64) -> Clock {
    Clock {
        slot,
        epoch_start_timestamp: 0,
        epoch: 0,
        leader_schedule_epoch: 0,
        unix_timestamp: 0,
    }
}

fn test_position(borrowed: u64, snapshot: u128) -> Position {
    Position {
        user: Pubkey::default(),
        market: Pubkey::default(),
        supplied: 0,
        borrowed,
        feed_id: [0u8; 32],
        max_ltv_bps: 8000,
        decimals: 9,
        bump: 0,
        borrow_index_snapshot_e18: snapshot,
    }
}

#[test]
fn accrue_zero_slots_is_no_op() {
    let mut m = test_market(1_000_000, 42);
    accrue_market(&mut m, &clock_at(42));
    assert_eq!(m.borrow_index_e18, RATE_SCALE_E18);
    assert_eq!(m.last_update_slot, 42);
}

#[test]
fn accrue_grows_index_linearly() {
    // rate = 1e9 per slot (i.e. 1e9 / 1e18 = 1e-9 of index per slot).
    // After 100 slots, growth = 1e18 * 1e9 * 100 / 1e18 = 1e11.
    let mut m = test_market(1_000_000_000, 0);
    accrue_market(&mut m, &clock_at(100));
    assert_eq!(m.borrow_index_e18, RATE_SCALE_E18 + 100_000_000_000);
    assert_eq!(m.last_update_slot, 100);
}

#[test]
fn accrue_zero_rate_is_no_op_for_index() {
    let mut m = test_market(0, 0);
    accrue_market(&mut m, &clock_at(1_000_000));
    assert_eq!(m.borrow_index_e18, RATE_SCALE_E18);
    assert_eq!(m.last_update_slot, 1_000_000);
}

#[test]
fn accrue_position_no_debt_just_updates_snapshot() {
    let m = test_market(1_000_000_000, 0);
    let mut m = m;
    accrue_market(&mut m, &clock_at(100));
    let mut p = test_position(0, RATE_SCALE_E18);
    accrue_position(&mut p, &m);
    assert_eq!(p.borrowed, 0);
    assert_eq!(p.borrow_index_snapshot_e18, m.borrow_index_e18);
}

#[test]
fn accrue_position_grows_debt_proportionally() {
    // Start with debt 1000 at snapshot = 1e18. After accrual the market
    // index doubled. Debt should also double.
    let mut m = test_market(0, 0);
    m.borrow_index_e18 = 2 * RATE_SCALE_E18;
    let mut p = test_position(1_000, RATE_SCALE_E18);
    accrue_position(&mut p, &m);
    assert_eq!(p.borrowed, 2_000);
    assert_eq!(p.borrow_index_snapshot_e18, m.borrow_index_e18);
}

#[test]
fn accrue_position_idempotent() {
    let m = test_market(0, 0);
    let mut p = test_position(1_000, m.borrow_index_e18);
    accrue_position(&mut p, &m);
    let after = p.borrowed;
    accrue_position(&mut p, &m);
    assert_eq!(p.borrowed, after);
}

#[test]
fn accrue_position_zero_snapshot_initialises() {
    // First time we see a position with a 0 snapshot, just adopt the
    // market's index without touching `borrowed`.
    let m = test_market(0, 0);
    let mut p = test_position(500, 0);
    accrue_position(&mut p, &m);
    assert_eq!(p.borrowed, 500);
    assert_eq!(p.borrow_index_snapshot_e18, m.borrow_index_e18);
}

#[test]
fn accrue_earlier_slot_is_no_op() {
    let mut m = test_market(1_000_000, 42);
    accrue_market(&mut m, &clock_at(41));
    assert_eq!(m, test_market(1_000_000, 42));
}

#[test]
fn accrue_twice_in_a_slot_is_once() {
    let mut m = test_market(123_456_789, 5);
    accrue_market(&mut m, &clock_at(77));
    let once = m;
    accrue_market(&mut m, &clock_at(77));
    assert_eq!(m, once);
}

#[test]
fn accrue_in_two_steps_compounds() {
    let mut whole = test_market(1_000_000_000_000_000, 0);
    accrue_market(&mut whole, &clock_at(100));
    let mut steps = test_market(1_000_000_000_000_000, 0);
    accrue_market(&mut steps, &clock_at(50));
    accrue_market(&mut steps, &clock_at(100));
    assert_eq!(whole.borrow_index_e18, 1_100_000_000_000_000_000);
    assert_eq!(steps.borrow_index_e18, 1_102_500_000_000_000_000);
}

#[test]
fn accrue_saturates() {
    let mut m = test_market(u64::MAX, 0);
    m.borrow_index_e18 = u128::MAX;
    accrue_market(&mut m, &clock_at(u64::MAX));
    assert_eq!(m.borrow_index_e18, u128::MAX);
    // The growth clamps before it is scaled down.
    let mut m = test_market(u64::MAX, 0);
    m.borrow_index_e18 = RATE_SCALE_E18;
    accrue_market(&mut m, &clock_at(u64::MAX));
    assert_eq!(m.borrow_index_e18, RATE_SCALE_E18 + u128::MAX / RATE_SCALE_E18);
}

#[test]
fn accrue_position_rounds_down_and_clamps() {
    let mut m = test_market(0, 0);
    m.borrow_index_e18 = RATE_SCALE_E18 + RATE_SCALE_E18 / 2;
    let mut p = test_position(3, RATE_SCALE_E18);
    accrue_position(&mut p, &m);
    assert_eq!(p.borrowed, 4);
    let mut p = test_position(u64::MAX, RATE_SCALE_E18);
    accrue_position(&mut p, &m);
    assert_eq!(p.borrowed, u64::MAX);
}

#[test]
fn accrue_position_is_exact_where_the_product_is_large() {
    let restated = |borrowed: u64, snapshot: u128, index: u128| {
        let mut m = test_market(0, 0);
        m.borrow_index_e18 = index;
        let mut p = test_position(borrowed, snapshot);
        accrue_position(&mut p, &m);
        p.borrowed
    };
    assert_eq!(restated(1 << 63, 1 << 100, (1 << 100) + 1), 1 << 63);
    assert_eq!(restated(1 << 62, 1 << 100, 3 << 100), 3 << 62);
    assert_eq!(restated(1 << 62, 1 << 100, 1 << 102), u64::MAX);
    assert_eq!(restated(1_000_000_007, u128::MAX, u128::MAX - 1), 1_000_000_006);
    assert_eq!(restated(u64::MAX, u128::MAX, 1 << 127), (1 << 63) - 1);
    assert_eq!(restated(u64::MAX, 1, u128::MAX), u64::MAX);
    assert_eq!(restated(7, 3, 1), 2);
    assert_eq!(restated(7, 3, 0), 0);
}

#[test]
fn restating_in_steps_charges_no_more() {
    let mut once = test_position(1_000, 7);
    let mut twice = test_position(1_000, 7);
    let mut m = test_market(0, 0);
    m.borrow_index_e18 = 9;
    accrue_position(&mut twice, &m);
    m.borrow_index_e18 = 20;
    accrue_position(&mut twice, &m);
    accrue_position(&mut once, &m);
    assert_eq!(once.borrowed, 2_857);
    assert_eq!(twice.borrowed, 2_855);
}
