use anchor_lang::{AccountSerialize, AnchorSerialize};
use pyth_solana_receiver_sdk::price_update as posted;
use shadow_lend::chain::{AccountInfo, AuthoritySeeds, Clock, TokenAccount, Transfer};
use shadow_lend::errors::MarketError;
use shadow_lend::keys::Pubkey;
use shadow_lend::layout::POSITION_DISCRIMINATOR;
use shadow_lend::liquidation::{
    decide_liquidation, liquidate, open_case, Liquidate, PendingLiquidation,
};
use shadow_lend::oracle::{PriceFeedMessage, PriceUpdateV2, VerificationLevel};
use shadow_lend::positions::{
    borrow, decide_borrow, decide_withdrawal, propose_borrow, propose_withdrawal, repay, supply,
    withdraw, ModifyPosition, ModifyPositionWithPrice,
};
use shadow_lend::state::{
    Liquidation, Market, MarketAction, MarketActionKind, Position, ID, RATE_SCALE_E18,
};

const SOL: u64 = 1_000_000_000;
const DOLLAR: i64 = 100_000_000;

fn key(n: u8) -> Pubkey {
    Pubkey { bytes: [n; 32] }
}

fn clock_at(slot: u64) -> Clock {
    Clock {
        slot,
        epoch_start_timestamp: 0,
        epoch: 0,
        leader_schedule_epoch: 0,
        unix_timestamp: 1_000,
    }
}

fn market(mint: u8, feed: u8) -> Market {
    Market {
        admin: key(1),
        mint: key(mint),
        amount_per_claim: 0,
        max_ltv_bps: 8_000,
        feed_id: [feed; 32],
        borrow_rate_per_slot_e18: 0,
        borrow_index_e18: RATE_SCALE_E18,
        last_update_slot: 10,
        total_supplied: 100 * SOL,
        total_borrowed: 50 * SOL,
        claim_count: 0,
        bump: 250,
        authority_bump: 251,
    }
}

fn position(user: Pubkey, feed: u8, supplied: u64, borrowed: u64) -> Position {
    Position {
        user,
        market: key(40 + feed),
        supplied,
        borrowed,
        feed_id: [feed; 32],
        max_ltv_bps: 8_000,
        decimals: 9,
        bump: 254,
        borrow_index_snapshot_e18: RATE_SCALE_E18,
    }
}

fn vault(n: u8, mint: u8, amount: u64) -> TokenAccount {
    TokenAccount { key: key(n), mint: key(mint), owner: key(30), amount }
}

fn update(feed: u8, price: i64) -> PriceUpdateV2 {
    PriceUpdateV2 {
        write_authority: key(9),
        verification_level: VerificationLevel::Full,
        price_message: PriceFeedMessage {
            feed_id: [feed; 32],
            price,
            conf: 0,
            exponent: -8,
            publish_time: 900,
            prev_publish_time: 0,
            ema_price: 0,
            ema_conf: 0,
        },
        posted_slot: 0,
    }
}

fn position_account(at: Pubkey, p: &Position) -> AccountInfo {
    let mut data = POSITION_DISCRIMINATOR.to_vec();
    let fields = (
        p.user.bytes,
        p.market.bytes,
        p.supplied,
        p.borrowed,
        p.feed_id,
        p.max_ltv_bps,
        p.decimals,
        p.bump,
        p.borrow_index_snapshot_e18,
    );
    fields.serialize(&mut data).unwrap();
    AccountInfo { key: at, owner: Pubkey { bytes: ID }, data }
}

fn update_account(u: &PriceUpdateV2) -> AccountInfo {
    let m = u.price_message;
    let account = posted::PriceUpdateV2 {
        write_authority: u.write_authority.bytes.into(),
        verification_level: posted::VerificationLevel::Full,
        price_message: posted::PriceFeedMessage {
            feed_id: m.feed_id,
            price: m.price,
            conf: m.conf,
            exponent: m.exponent,
            publish_time: m.publish_time,
            prev_publish_time: m.prev_publish_time,
            ema_price: m.ema_price,
            ema_conf: m.ema_conf,
        },
        posted_slot: u.posted_slot,
    };
    let mut data = Vec::new();
    account.try_serialize(&mut data).unwrap();
    let owner = Pubkey { bytes: pyth_solana_receiver_sdk::ID.to_bytes() };
    AccountInfo { key: key(200), owner, data }
}

fn modify(position: Position) -> ModifyPosition {
    ModifyPosition {
        user: key(4),
        market_key: key(45),
        market: market(2, 5),
        mint: key(2),
        position,
        position_bump: 254,
        vault: vault(31, 2, 50 * SOL),
        user_ata: key(32),
    }
}

fn modify_with_price(position: Position) -> ModifyPositionWithPrice {
    ModifyPositionWithPrice {
        user: key(4),
        market: market(2, 5),
        mint: key(2),
        position_key: key(60),
        position,
        vault: vault(31, 2, 50 * SOL),
        authority: key(30),
        user_ata: key(32),
        price_update: update(5, 100 * DOLLAR),
    }
}

/// Another position of the user, worth $1000 at 80%.
fn collateral() -> [AccountInfo; 2] {
    [
        position_account(key(61), &position(key(4), 6, 10 * SOL, 0)),
        update_account(&update(6, 100 * DOLLAR)),
    ]
}

fn action(kind: MarketActionKind, supplied: u64, borrowed: u64) -> MarketAction {
    MarketAction { user: key(4), mint: key(2), kind, supplied, borrowed }
}

fn no_position() -> Position {
    Position {
        user: Pubkey::default(),
        market: Pubkey::default(),
        supplied: 0,
        borrowed: 0,
        feed_id: [0; 32],
        max_ltv_bps: 0,
        decimals: 0,
        bump: 0,
        borrow_index_snapshot_e18: 0,
    }
}

// Supply.

#[test]
fn first_supply_opens_a_position() {
    let pending = supply(&modify(no_position()), SOL, &clock_at(20)).unwrap();
    assert_eq!(
        pending.transfer,
        Transfer { from: key(32), to: key(31), authority: key(4), amount: SOL, signer: None }
    );
    let after = pending.settled.unwrap();
    assert_eq!(after.position, position(key(4), 5, SOL, 0));
    assert_eq!(
        after.market,
        Market { total_supplied: 101 * SOL, last_update_slot: 20, ..market(2, 5) }
    );
    assert_eq!(after.event, action(MarketActionKind::Supply, SOL, 0));
}

#[test]
fn later_supply_adds_up_and_accrues() {
    let mut ctx = modify(position(key(4), 5, 3 * SOL, 1_000));
    ctx.market.borrow_rate_per_slot_e18 = 100_000_000_000_000_000;
    let after = supply(&ctx, SOL, &clock_at(20)).unwrap().settled.unwrap();
    assert_eq!(after.position.supplied, 4 * SOL);
    assert_eq!(after.position.borrowed, 2_000);
    assert_eq!(after.position.borrow_index_snapshot_e18, 2 * RATE_SCALE_E18);
    assert_eq!(after.market.borrow_index_e18, 2 * RATE_SCALE_E18);
}

#[test]
fn supply_refusals() {
    let mut ctx = modify(no_position());
    assert_eq!(supply(&ctx, 0, &clock_at(20)), Err(MarketError::ZeroAmount));
    ctx.mint = key(3);
    assert_eq!(supply(&ctx, 0, &clock_at(20)), Err(MarketError::MintMismatch));
    let mut ctx = modify(position(key(4), 5, u64::MAX, 0));
    let pending = supply(&ctx, 1, &clock_at(20)).unwrap();
    assert_eq!(pending.settled, Err(MarketError::Overflow));
    ctx.position.supplied = 0;
    ctx.market.total_supplied = u64::MAX;
    let pending = supply(&ctx, 1, &clock_at(20)).unwrap();
    assert_eq!(pending.settled, Err(MarketError::Overflow));
}

// Repay.

#[test]
fn repay_pays_no_more_than_is_owed() {
    let ctx = modify(position(key(4), 5, 7, 100));
    let pending = repay(&ctx, 30, &clock_at(20)).unwrap();
    assert_eq!(
        pending.transfer,
        Transfer { from: key(32), to: key(31), authority: key(4), amount: 30, signer: None }
    );
    let after = pending.settled.unwrap();
    assert_eq!(after.position, position(key(4), 5, 7, 70));
    assert_eq!(after.market.total_borrowed, 50 * SOL - 30);
    assert_eq!(after.event, action(MarketActionKind::Repay, 7, 70));
    let pending = repay(&ctx, 101, &clock_at(20)).unwrap();
    assert_eq!(pending.transfer.amount, 100);
    assert_eq!(pending.settled.unwrap().position.borrowed, 0);
}

#[test]
fn repay_of_interest_does_not_take_the_total_below_zero() {
    let mut ctx = modify(position(key(4), 5, 0, 100));
    ctx.market.borrow_rate_per_slot_e18 = 100_000_000_000_000_000;
    ctx.market.total_borrowed = 100;
    let after = repay(&ctx, 1_000, &clock_at(20)).unwrap();
    assert_eq!(after.transfer.amount, 200);
    assert_eq!(after.settled.unwrap().market.total_borrowed, 0);
}

#[test]
fn repay_refusals() {
    let mut ctx = modify(position(key(4), 5, 7, 0));
    assert_eq!(repay(&ctx, 1, &clock_at(20)), Err(MarketError::NothingToRepay));
    assert_eq!(repay(&ctx, 0, &clock_at(20)), Err(MarketError::ZeroAmount));
    ctx.mint = key(3);
    assert_eq!(repay(&ctx, 0, &clock_at(20)), Err(MarketError::MintMismatch));
}

// Withdraw.

#[test]
fn withdraw_releases_collateral() {
    let ctx = modify_with_price(position(key(4), 5, 3 * SOL, 0));
    let pending = withdraw(&ctx, SOL, &clock_at(20), &[]).unwrap();
    assert_eq!(
        pending.transfer,
        Transfer {
            from: key(31),
            to: key(32),
            authority: key(30),
            amount: SOL,
            signer: Some(AuthoritySeeds { mint: key(2), bump: 251 }),
        }
    );
    let after = pending.settled.unwrap();
    assert_eq!(after.position, position(key(4), 5, 2 * SOL, 0));
    assert_eq!(after.market.total_supplied, 99 * SOL);
    assert_eq!(after.event, action(MarketActionKind::Withdraw, 2 * SOL, 0));
}

#[test]
fn withdraw_stops_at_the_limit() {
    // $160 of debt elsewhere: $200 of collateral must stay.
    let debt = [
        position_account(key(61), &position(key(4), 6, 0, 16 * SOL)),
        update_account(&update(6, 10 * DOLLAR)),
    ];
    let ctx = modify_with_price(position(key(4), 5, 3 * SOL, 0));
    assert!(withdraw(&ctx, SOL, &clock_at(20), &debt).is_ok());
    assert_eq!(
        withdraw(&ctx, SOL + 1, &clock_at(20), &debt),
        Err(MarketError::WouldBeUnhealthy)
    );
}

#[test]
fn withdraw_refusals() {
    let mut ctx = modify_with_price(position(key(4), 5, 3 * SOL, 0));
    let clock = clock_at(20);
    assert_eq!(withdraw(&ctx, 0, &clock, &[]), Err(MarketError::ZeroAmount));
    assert_eq!(
        withdraw(&ctx, 3 * SOL + 1, &clock, &[]),
        Err(MarketError::InsufficientCollateral)
    );
    let odd = [position_account(key(61), &position(key(4), 6, 0, 1))];
    assert_eq!(
        withdraw(&ctx, SOL, &clock, &odd),
        Err(MarketError::BadRemainingAccounts)
    );
    ctx.price_update.price_message.publish_time = 699;
    assert_eq!(withdraw(&ctx, SOL, &clock, &[]), Err(MarketError::StalePrice));
    ctx.price_update = update(6, 100 * DOLLAR);
    assert_eq!(withdraw(&ctx, SOL, &clock, &[]), Err(MarketError::BadPriceFeed));
    ctx.user = key(8);
    assert_eq!(withdraw(&ctx, SOL, &clock, &[]), Err(MarketError::BadPositionAccount));
    ctx.mint = key(3);
    assert_eq!(withdraw(&ctx, SOL, &clock, &[]), Err(MarketError::MintMismatch));
    let mut ctx = modify_with_price(position(key(4), 5, 3 * SOL, 0));
    ctx.market.total_supplied = SOL - 1;
    let pending = withdraw(&ctx, SOL, &clock, &[]).unwrap();
    assert_eq!(pending.settled, Err(MarketError::Overflow));
}

#[test]
fn withdrawal_is_decided_by_its_totals() {
    let ctx = modify_with_price(position(key(4), 5, 3 * SOL, 0));
    let proposed = propose_withdrawal(&ctx, SOL, &clock_at(20)).unwrap();
    assert_eq!(proposed.position.supplied, 2 * SOL);
    assert!(decide_withdrawal(&ctx, SOL, &proposed, 7, 7).is_ok());
    assert_eq!(
        decide_withdrawal(&ctx, SOL, &proposed, 7, 8),
        Err(MarketError::WouldBeUnhealthy)
    );
}

#[test]
fn withdraw_undoes_supply() {
    let before = position(key(4), 5, 3 * SOL, 9);
    let first = modify(before);
    let update = supply(&first, SOL, &clock_at(10)).unwrap().settled.unwrap();
    let mut second = modify_with_price(update.position);
    second.market = update.market;
    let restored = withdraw(&second, SOL, &clock_at(10), &[]).unwrap().settled.unwrap();
    assert_eq!(restored.market, first.market);
    assert_eq!(restored.position, before);
}

// Borrow.

#[test]
fn borrow_lends_up_to_the_limit() {
    // $1000 of collateral elsewhere at 80%: $800, which is 8 tokens.
    let ctx = modify_with_price(position(key(4), 5, 0, SOL));
    let pending = borrow(&ctx, 7 * SOL, &clock_at(20), &collateral()).unwrap();
    assert_eq!(
        pending.transfer,
        Transfer {
            from: key(31),
            to: key(32),
            authority: key(30),
            amount: 7 * SOL,
            signer: Some(AuthoritySeeds { mint: key(2), bump: 251 }),
        }
    );
    let after = pending.settled.unwrap();
    assert_eq!(after.position, position(key(4), 5, 0, 8 * SOL));
    assert_eq!(after.market.total_borrowed, 57 * SOL);
    assert_eq!(after.event, action(MarketActionKind::Borrow, 0, 8 * SOL));
    assert_eq!(
        borrow(&ctx, 7 * SOL + 1, &clock_at(20), &collateral()),
        Err(MarketError::ExceedsLtv)
    );
}

#[test]
fn borrow_refusals() {
    let clock = clock_at(20);
    let ctx = modify_with_price(position(key(4), 5, 0, 0));
    assert_eq!(borrow(&ctx, 0, &clock, &collateral()), Err(MarketError::ZeroAmount));
    assert_eq!(
        borrow(&ctx, 50 * SOL + 1, &clock, &collateral()),
        Err(MarketError::InsufficientLiquidity)
    );
    assert_eq!(borrow(&ctx, SOL, &clock, &[]), Err(MarketError::ExceedsLtv));
    let own = modify_with_price(position(key(4), 5, 1, 0));
    assert_eq!(borrow(&own, SOL, &clock, &collateral()), Err(MarketError::SameMintBorrow));
    let full = modify_with_price(position(key(4), 5, 0, u64::MAX));
    assert_eq!(borrow(&full, 1, &clock, &collateral()), Err(MarketError::Overflow));
    let mut stale = ctx;
    stale.price_update.price_message.publish_time = 699;
    assert_eq!(borrow(&stale, SOL, &clock, &collateral()), Err(MarketError::StalePrice));
    let mut partial = ctx;
    partial.price_update.verification_level = VerificationLevel::Partial { num_signatures: 1 };
    assert_eq!(borrow(&partial, SOL, &clock, &collateral()), Err(MarketError::BadPriceFeed));
    let mut other_feed = ctx;
    other_feed.price_update = update(6, 100 * DOLLAR);
    assert_eq!(borrow(&other_feed, SOL, &clock, &collateral()), Err(MarketError::BadPriceFeed));
    let mut foreign = ctx;
    foreign.user = key(8);
    assert_eq!(
        borrow(&foreign, SOL, &clock, &collateral()),
        Err(MarketError::BadPositionAccount)
    );
    foreign.mint = key(3);
    assert_eq!(borrow(&foreign, SOL, &clock, &collateral()), Err(MarketError::MintMismatch));
    let mut lent = ctx;
    lent.market.total_borrowed = u64::MAX;
    let pending = borrow(&lent, SOL, &clock, &collateral()).unwrap();
    assert_eq!(pending.settled, Err(MarketError::Overflow));
}

#[test]
fn loan_is_decided_by_its_totals() {
    let ctx = modify_with_price(position(key(4), 5, 0, 0));
    let proposed = propose_borrow(&ctx, SOL, &clock_at(20)).unwrap();
    assert_eq!(proposed.position.borrowed, SOL);
    assert!(decide_borrow(&ctx, SOL, &proposed, 7, 7).is_ok());
    assert_eq!(
        decide_borrow(&ctx, SOL, &proposed, 7, 8),
        Err(MarketError::ExceedsLtv)
    );
}

#[test]
fn repay_undoes_borrow() {
    let before = position(key(4), 5, 0, SOL);
    let first = modify_with_price(before);
    let update = borrow(&first, SOL, &clock_at(10), &collateral()).unwrap().settled.unwrap();
    let mut second = modify(update.position);
    second.market = update.market;
    let restored = repay(&second, SOL, &clock_at(10)).unwrap().settled.unwrap();
    assert_eq!(restored.market, first.market);
    assert_eq!(restored.position, before);
}

// Liquidate.

/// A debt of 10 tokens at $90 against a collateral of 10 tokens at $100, 80%
/// of which is $800.
fn underwater() -> Liquidate {
    Liquidate {
        liquidator: key(7),
        borrower: key(4),
        debt_market: market(2, 5),
        debt_position_key: key(60),
        debt_position: position(key(4), 5, 0, 10 * SOL),
        debt_vault: vault(31, 2, 0),
        debt_price_update: update(5, 90 * DOLLAR),
        liquidator_debt_ata: TokenAccount { key: key(33), mint: key(2), owner: key(7), amount: 0 },
        collateral_market: market(3, 6),
        collateral_position_key: key(61),
        collateral_position: position(key(4), 6, 10 * SOL, 0),
        collateral_vault: vault(34, 3, 100 * SOL),
        collateral_authority: key(35),
        collateral_price_update: update(6, 100 * DOLLAR),
        liquidator_collateral_ata: TokenAccount {
            key: key(36),
            mint: key(3),
            owner: key(7),
            amount: 0,
        },
    }
}

fn try_liquidate(ctx: &Liquidate, amount: u64) -> Result<PendingLiquidation, MarketError> {
    liquidate(ctx, amount, &clock_at(20), &[])
}

#[test]
fn liquidation_seizes_the_value_and_the_bonus() {
    let ctx = underwater();
    let done = try_liquidate(&ctx, 2 * SOL).unwrap();
    // $180 and 5% of it is $189.
    assert_eq!(
        done.repayment,
        Transfer { from: key(33), to: key(31), authority: key(7), amount: 2 * SOL, signer: None }
    );
    assert_eq!(
        done.seizure,
        Transfer {
            from: key(34),
            to: key(36),
            authority: key(35),
            amount: 1_890_000_000,
            signer: Some(AuthoritySeeds { mint: key(3), bump: 251 }),
        }
    );
    assert_eq!(done.debt_position, position(key(4), 5, 0, 8 * SOL));
    assert_eq!(done.debt_market.total_borrowed, 48 * SOL);
    assert_eq!(
        done.collateral_position,
        position(key(4), 6, 10 * SOL - 1_890_000_000, 0)
    );
    assert_eq!(done.collateral_market.total_supplied, 100 * SOL - 1_890_000_000);
    assert_eq!(
        done.event,
        Liquidation {
            liquidator: key(7),
            borrower: key(4),
            debt_mint: key(2),
            collateral_mint: key(3),
            repaid: 2 * SOL,
            seized: 1_890_000_000,
        }
    );
}

#[test]
fn liquidation_is_capped_by_debt_and_collateral() {
    let mut ctx = underwater();
    let done = try_liquidate(&ctx, 1_000 * SOL).unwrap();
    assert_eq!(done.repayment.amount, 10 * SOL);
    assert_eq!(done.seizure.amount, 9_450_000_000);
    ctx.collateral_position.supplied = SOL;
    ctx.debt_market.total_borrowed = SOL;
    ctx.collateral_market.total_supplied = 1;
    let done = try_liquidate(&ctx, 1_000 * SOL).unwrap();
    assert_eq!(done.seizure.amount, SOL);
    assert_eq!(done.collateral_position.supplied, 0);
    assert_eq!(done.debt_market.total_borrowed, 0);
    assert_eq!(done.collateral_market.total_supplied, 0);
}

#[test]
fn healthy_borrowers_are_left_alone() {
    let mut ctx = underwater();
    ctx.debt_price_update = update(5, 80 * DOLLAR);
    assert_eq!(try_liquidate(&ctx, SOL), Err(MarketError::PositionHealthy));
    // Collateral elsewhere counts, and what was counted is not counted twice.
    let ctx = underwater();
    let others = [
        position_account(key(61), &position(key(4), 6, 10 * SOL, 0)),
        update_account(&update(6, 100 * DOLLAR)),
    ];
    assert!(liquidate(&ctx, SOL, &clock_at(20), &others).is_ok());
    let others = [
        position_account(key(62), &position(key(4), 6, 10 * SOL, 0)),
        update_account(&update(6, 100 * DOLLAR)),
    ];
    assert_eq!(
        liquidate(&ctx, SOL, &clock_at(20), &others),
        Err(MarketError::PositionHealthy)
    );
}

#[test]
fn granted_loan_is_not_liquidatable_at_once() {
    let loan = modify_with_price(position(key(4), 5, 0, 0));
    let update = borrow(&loan, 8 * SOL, &clock_at(20), &collateral()).unwrap().settled.unwrap();
    let mut ctx = underwater();
    ctx.debt_market = update.market;
    ctx.debt_position = update.position;
    ctx.debt_price_update = loan.price_update;
    assert_eq!(
        liquidate(&ctx, SOL, &clock_at(20), &collateral()),
        Err(MarketError::PositionHealthy)
    );
}

#[test]
fn no_price_lets_nobody_seize() {
    for price in [0, -1] {
        let mut ctx = underwater();
        ctx.collateral_price_update = update(6, price);
        assert_eq!(try_liquidate(&ctx, SOL), Err(MarketError::NothingToLiquidate));
    }
    // Repaying a debt of no value seizes nothing either.
    let ctx = underwater();
    let mut case = open_case(&ctx, SOL, &clock_at(20)).unwrap();
    case.debt_price.price = 0;
    assert_eq!(
        decide_liquidation(&ctx, SOL, &case, 0, 1),
        Err(MarketError::NothingToLiquidate)
    );
}

#[test]
fn liquidation_is_decided_by_its_totals() {
    let ctx = underwater();
    let case = open_case(&ctx, SOL, &clock_at(20)).unwrap();
    assert_eq!(
        decide_liquidation(&ctx, SOL, &case, 7, 7),
        Err(MarketError::PositionHealthy)
    );
    let done = decide_liquidation(&ctx, SOL, &case, 7, 8).unwrap();
    assert_eq!(done.seizure.amount, 945_000_000);
}

#[test]
fn liquidation_refusals() {
    let refused = |change: fn(&mut Liquidate), amount: u64| {
        let mut ctx = underwater();
        change(&mut ctx);
        try_liquidate(&ctx, amount).unwrap_err()
    };
    assert_eq!(refused(|_| (), 0), MarketError::ZeroAmount);
    assert_eq!(
        refused(|c| c.liquidator_debt_ata.mint = key(3), 0),
        MarketError::MintMismatch
    );
    assert_eq!(
        refused(|c| c.liquidator_debt_ata.owner = key(4), 0),
        MarketError::Unauthorized
    );
    assert_eq!(
        refused(|c| c.liquidator_collateral_ata.mint = key(2), 0),
        MarketError::MintMismatch
    );
    assert_eq!(
        refused(|c| c.liquidator_collateral_ata.owner = key(4), 0),
        MarketError::Unauthorized
    );
    assert_eq!(refused(|c| c.borrower = key(7), SOL), MarketError::SelfLiquidation);
    assert_eq!(
        refused(|c| c.debt_position.user = key(5), SOL),
        MarketError::BadPositionAccount
    );
    assert_eq!(
        refused(|c| c.collateral_position.user = key(5), SOL),
        MarketError::BadPositionAccount
    );
    assert_eq!(
        refused(|c| c.debt_position.borrowed = 0, SOL),
        MarketError::NothingToLiquidate
    );
    assert_eq!(
        refused(|c| c.collateral_position.supplied = 0, SOL),
        MarketError::NothingToLiquidate
    );
    assert_eq!(
        refused(|c| c.debt_price_update = update(6, 1), SOL),
        MarketError::BadPriceFeed
    );
    assert_eq!(
        refused(|c| c.collateral_price_update = update(5, 1), SOL),
        MarketError::BadPriceFeed
    );
    assert_eq!(
        refused(|c| c.debt_price_update.price_message.publish_time = 0, SOL),
        MarketError::StalePrice
    );
    assert_eq!(
        refused(|c| c.collateral_price_update.price_message.publish_time = 0, SOL),
        MarketError::StalePrice
    );
    assert_eq!(
        refused(|c| c.collateral_vault.amount = 944_999_999, SOL),
        MarketError::InsufficientLiquidity
    );
}

#[test]
fn liquidation_states_both_debts_at_their_index() {
    let mut ctx = underwater();
    ctx.debt_market.borrow_rate_per_slot_e18 = 2_000_000_000_000_000;
    ctx.collateral_market.borrow_rate_per_slot_e18 = 3_000_000_000_000_000;
    let done = try_liquidate(&ctx, SOL).unwrap();
    assert_eq!(done.debt_market.borrow_index_e18, 1_020_000_000_000_000_000);
    assert_eq!(
        done.debt_position.borrow_index_snapshot_e18,
        done.debt_market.borrow_index_e18
    );
    assert_eq!(done.collateral_market.borrow_index_e18, 1_030_000_000_000_000_000);
    assert_eq!(
        done.collateral_position.borrow_index_snapshot_e18,
        done.collateral_market.borrow_index_e18
    );
}

#[test]
fn liquidation_counts_interest() {
    let mut ctx = underwater();
    // 8.8 tokens at $90 are $792, within $800; ten slots at 0.2% each are not.
    ctx.debt_position.borrowed = 8_800_000_000;
    assert_eq!(try_liquidate(&ctx, SOL), Err(MarketError::PositionHealthy));
    ctx.debt_market.borrow_rate_per_slot_e18 = 2_000_000_000_000_000;
    let done = try_liquidate(&ctx, SOL).unwrap();
    assert_eq!(done.debt_position.borrowed, 8_976_000_000 - SOL);
}

#[test]
fn granted_withdrawal_does_not_open_to_liquidation() {
    let debt = position(key(4), 6, 0, 16 * SOL);
    let others = [
        position_account(key(62), &position(key(4), 7, 0, SOL)),
        update_account(&update(7, 0)),
        position_account(key(61), &debt),
        update_account(&update(6, 10 * DOLLAR)),
    ];
    let release = modify_with_price(position(key(4), 5, 3 * SOL, 0));
    let after = withdraw(&release, SOL, &clock_at(20), &others).unwrap().settled.unwrap();
    let mut ctx = underwater();
    ctx.debt_market = market(3, 6);
    ctx.debt_position_key = key(61);
    ctx.debt_position = debt;
    ctx.debt_price_update = update(6, 10 * DOLLAR);
    ctx.liquidator_debt_ata.mint = key(3);
    ctx.collateral_market = after.market;
    ctx.collateral_position_key = key(60);
    ctx.collateral_position = after.position;
    ctx.collateral_price_update = release.price_update;
    ctx.liquidator_collateral_ata.mint = key(2);
    assert_eq!(
        liquidate(&ctx, SOL, &clock_at(20), &others),
        Err(MarketError::PositionHealthy)
    );
    ctx.collateral_position.supplied -= 1;
    assert!(liquidate(&ctx, SOL, &clock_at(20), &others).is_ok());
}

#[test]
fn paying_in_improves_health() {
    // A liquidation goes through, but not once the debt or the collateral is
    // topped up.
    let ctx = underwater();
    assert!(try_liquidate(&ctx, SOL).is_ok());
    let paid = repay(&modify(ctx.debt_position), 2 * SOL, &clock_at(20)).unwrap();
    let mut repaid = ctx;
    repaid.debt_position = paid.settled.unwrap().position;
    assert_eq!(try_liquidate(&repaid, SOL), Err(MarketError::PositionHealthy));
    let added = supply(&modify(ctx.collateral_position), 2 * SOL, &clock_at(20)).unwrap();
    let mut supplied = ctx;
    supplied.collateral_position = added.settled.unwrap().position;
    assert_eq!(try_liquidate(&supplied, SOL), Err(MarketError::PositionHealthy));
}

#[test]
fn books_stay_balanced() {
    // Two holders of a market's 100 tokens: 97 and 3. The vault holds 50 and 50
    // are lent out.
    let holders = 97 * SOL;
    let covered = |vault: u64, m: &Market| vault + m.total_borrowed >= m.total_supplied;
    let start = market(2, 5);
    let pending = supply(&modify(position(key(4), 5, 3 * SOL, 0)), SOL, &clock_at(20)).unwrap();
    let vault = 50 * SOL + pending.transfer.amount;
    let update = pending.settled.unwrap();
    assert!(covered(50 * SOL, &start) && covered(vault, &update.market));
    assert_eq!(update.market.total_supplied, holders + update.position.supplied);
    let mut ctx = modify_with_price(update.position);
    ctx.market = update.market;
    let pending = withdraw(&ctx, 4 * SOL, &clock_at(20), &[]).unwrap();
    let vault = vault - pending.transfer.amount;
    let update = pending.settled.unwrap();
    assert!(covered(vault, &update.market));
    assert_eq!(update.market.total_supplied, holders + update.position.supplied);
    let mut ctx = modify_with_price(update.position);
    ctx.market = update.market;
    let pending = borrow(&ctx, SOL, &clock_at(20), &collateral()).unwrap();
    let vault = vault - pending.transfer.amount;
    let update = pending.settled.unwrap();
    assert!(covered(vault, &update.market));
    assert_eq!(update.market.total_supplied, holders + update.position.supplied);
}
