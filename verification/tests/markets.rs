use shadow_lend::chain::{AuthoritySeeds, Clock, MintTo};
use shadow_lend::errors::{ClaimError, MarketError, StatsError};
use shadow_lend::keys::Pubkey;
use shadow_lend::markets::{
    claim_faucet, initialize_market, receipt_seeds, set_claim_amount, AdminUpdate, ClaimFaucet,
    InitializeMarket,
};
use shadow_lend::state::{
    ActionKind, ActionRecorded, ClaimReceipt, FaucetClaimed, Market, UserStats, RATE_SCALE_E18,
};
use shadow_lend::stats::{init_user_stats, record_action, InitUserStats, RecordAction};

fn key(n: u8) -> Pubkey {
    Pubkey { bytes: [n; 32] }
}

fn clock() -> Clock {
    Clock {
        slot: 70,
        epoch_start_timestamp: 0,
        epoch: 0,
        leader_schedule_epoch: 0,
        unix_timestamp: 1_000,
    }
}

fn create(max_ltv_bps: u16) -> Result<Market, MarketError> {
    let ctx = InitializeMarket {
        admin: key(1),
        mint: key(2),
        market_bump: 250,
        authority_bump: 251,
    };
    initialize_market(&ctx, 500, max_ltv_bps, [5; 32], 99, &clock())
}

#[test]
fn market_starts_empty_at_an_index_of_one() {
    assert_eq!(
        create(8_000),
        Ok(Market {
            admin: key(1),
            mint: key(2),
            amount_per_claim: 500,
            max_ltv_bps: 8_000,
            feed_id: [5; 32],
            borrow_rate_per_slot_e18: 99,
            borrow_index_e18: RATE_SCALE_E18,
            last_update_slot: 70,
            total_supplied: 0,
            total_borrowed: 0,
            claim_count: 0,
            bump: 250,
            authority_bump: 251,
        })
    );
}

#[test]
fn ltv_is_between_1_and_9999() {
    assert!(create(1).is_ok());
    assert!(create(9_999).is_ok());
    assert_eq!(create(0), Err(MarketError::BadLtv));
    assert_eq!(create(10_000), Err(MarketError::BadLtv));
    assert_eq!(create(u16::MAX), Err(MarketError::BadLtv));
}

#[test]
fn only_the_admin_sets_the_claim_amount() {
    let market = create(8_000).unwrap();
    let updated = set_claim_amount(&AdminUpdate { admin: key(1), market }, 7).unwrap();
    assert_eq!(updated, Market { amount_per_claim: 7, ..market });
    assert_eq!(
        set_claim_amount(&AdminUpdate { admin: key(3), market }, 7),
        Err(MarketError::NotAdmin)
    );
}

fn claim(market: Market) -> ClaimFaucet {
    ClaimFaucet {
        user: key(4),
        market,
        mint: key(2),
        authority: key(6),
        recipient_ata: key(7),
        receipt: None,
        receipt_bump: 252,
    }
}

#[test]
fn faucet_mints_and_records_a_claim() {
    let market = create(8_000).unwrap();
    let pending = claim_faucet(&claim(market), &clock()).unwrap();
    assert_eq!(
        pending.mint_to,
        MintTo {
            mint: key(2),
            to: key(7),
            authority: key(6),
            amount: 500,
            signer: AuthoritySeeds { mint: key(2), bump: 251 },
        }
    );
    let update = pending.settled.unwrap();
    assert_eq!(update.market, Market { claim_count: 1, ..market });
    assert_eq!(
        update.receipt,
        ClaimReceipt { user: key(4), mint: key(2), amount: 500, claimed_at: 1_000, bump: 252 }
    );
    assert_eq!(
        update.event,
        FaucetClaimed { user: key(4), mint: key(2), amount: 500, claimed_at: 1_000 }
    );
}

#[test]
fn faucet_refusals() {
    let mut market = create(8_000).unwrap();
    let mut ctx = claim(market);
    ctx.mint = key(3);
    assert_eq!(
        claim_faucet(&ctx, &clock()),
        Err(ClaimError::Market(MarketError::MintMismatch))
    );
    market.claim_count = u64::MAX;
    let pending = claim_faucet(&claim(market), &clock()).unwrap();
    assert_eq!(pending.settled, Err(MarketError::Overflow));
    assert_eq!(pending.mint_to.amount, 500);
}

#[test]
fn one_claim_per_wallet_and_mint() {
    let market = create(8_000).unwrap();
    let first = claim_faucet(&claim(market), &clock()).unwrap().settled.unwrap();
    let mut again = claim(first.market);
    again.receipt = Some(first.receipt);
    assert_eq!(claim_faucet(&again, &clock()), Err(ClaimError::AlreadyClaimed));
    // Whatever else may be wrong with it.
    again.mint = key(3);
    assert_eq!(claim_faucet(&again, &clock()), Err(ClaimError::AlreadyClaimed));
    // Another user has no receipt yet.
    let mut other = claim(first.market);
    other.user = key(5);
    let second = claim_faucet(&other, &clock()).unwrap().settled.unwrap();
    assert_eq!(second.market.claim_count, 2);
    assert_eq!(second.receipt.user, key(5));
}

#[test]
fn receipts_are_found_by_user_and_mint() {
    let seeds = receipt_seeds(&key(4), &key(2));
    assert_eq!(seeds, vec![b"claim".to_vec(), vec![4; 32], vec![2; 32]]);
    assert_eq!(receipt_seeds(&key(4), &key(2)), seeds);
    assert_ne!(receipt_seeds(&key(2), &key(4)), seeds);
    assert_ne!(receipt_seeds(&key(4), &key(3)), seeds);
    assert_ne!(receipt_seeds(&key(5), &key(2)), seeds);
}

fn stats() -> UserStats {
    init_user_stats(&InitUserStats { user: key(1), stats_bump: 253 }, &clock())
}

#[test]
fn stats_start_at_zero() {
    assert_eq!(
        stats(),
        UserStats {
            user: key(1),
            created_at: 1_000,
            last_action_at: 1_000,
            proofs_submitted: 0,
            supplies: 0,
            borrows: 0,
            repays: 0,
            liquidations: 0,
            last_health_bps: 0,
            bump: 253,
        }
    );
}

#[test]
fn each_action_counts_once() {
    let mut later = clock();
    let mut s = stats();
    for (at, kind, health) in [
        (2_000, ActionKind::Supply, 150),
        (3_000, ActionKind::Borrow, 0),
        (4_000, ActionKind::Repay, 160),
        (5_000, ActionKind::Liquidation, 0),
        (6_000, ActionKind::Supply, 0),
    ] {
        later.unix_timestamp = at;
        let ctx = RecordAction { user: key(1), stats: s };
        let (next, event) = record_action(&ctx, kind, health, &later).unwrap();
        assert_eq!(event, ActionRecorded { user: key(1), kind, health_bps: health, at });
        s = next;
    }
    assert_eq!(
        s,
        UserStats {
            last_action_at: 6_000,
            proofs_submitted: 5,
            supplies: 2,
            borrows: 1,
            repays: 1,
            liquidations: 1,
            last_health_bps: 160,
            ..stats()
        }
    );
}

#[test]
fn action_refusals() {
    let ctx = RecordAction { user: key(2), stats: stats() };
    assert_eq!(
        record_action(&ctx, ActionKind::Supply, 0, &clock()),
        Err(StatsError::Unauthorized)
    );
    let full = UserStats { proofs_submitted: u64::MAX, ..stats() };
    let ctx = RecordAction { user: key(1), stats: full };
    assert_eq!(
        record_action(&ctx, ActionKind::Supply, 0, &clock()),
        Err(StatsError::Overflow)
    );
    let full = UserStats { repays: u64::MAX, ..stats() };
    let ctx = RecordAction { user: key(1), stats: full };
    assert_eq!(
        record_action(&ctx, ActionKind::Repay, 0, &clock()),
        Err(StatsError::Overflow)
    );
    assert!(record_action(&ctx, ActionKind::Borrow, 0, &clock()).is_ok());
}
