use anchor_lang::{AccountSerialize, AnchorSerialize};
use pyth_solana_receiver_sdk::price_update as posted;
use shadow_lend::chain::{AccountInfo, AuthoritySeeds, Clock};
use shadow_lend::errors::MarketError;
use shadow_lend::health::{
    accumulate_decoded, accumulate_position, accumulate_remaining, accumulate_remaining_skip,
    position_to_count,
};
use shadow_lend::keys::Pubkey;
use shadow_lend::layout::{POSITION_DISCRIMINATOR, UPDATE_DISCRIMINATOR};
use shadow_lend::oracle::{
    decode_updates, fresh_price, price_of_decoded, PriceFeedMessage, PriceUpdateV2,
    VerificationLevel,
};
use shadow_lend::state::{
    ClaimReceipt, Market, Position, UserStats, AUTH_SEED, CLAIM_SEED, ID, MARKET_SEED,
    POSITION_SEED, STATS_SEED, VAULT_SEED,
};
use shadow_lend::valuation::Price;

fn key(n: u8) -> Pubkey {
    Pubkey { bytes: [n; 32] }
}

fn program() -> Pubkey {
    Pubkey { bytes: ID }
}

fn receiver() -> Pubkey {
    Pubkey { bytes: pyth_solana_receiver_sdk::ID.to_bytes() }
}

fn clock_at(unix_timestamp: i64) -> Clock {
    Clock {
        slot: 1,
        epoch_start_timestamp: 2,
        epoch: 3,
        leader_schedule_epoch: 4,
        unix_timestamp,
    }
}

fn position(user: Pubkey, supplied: u64, borrowed: u64, feed: u8) -> Position {
    Position {
        user,
        market: key(77),
        supplied,
        borrowed,
        feed_id: [feed; 32],
        max_ltv_bps: 8_000,
        decimals: 9,
        bump: 254,
        borrow_index_snapshot_e18: 0x0102_0304_0506_0708_090a_0b0c_0d0e_0f10,
    }
}

fn position_data(p: &Position) -> Vec<u8> {
    let mut data = POSITION_DISCRIMINATOR.to_vec();
    let fields = (
        p.user.bytes,
        p.market.bytes,
        p.supplied,
        p.borrowed,
        p.feed_id,
        p.max_ltv_bps,
        p.decimals,
        p.bump,
        p.borrow_index_snapshot_e18,
    );
    fields.serialize(&mut data).unwrap();
    data
}

fn position_account(at: Pubkey, p: &Position) -> AccountInfo {
    AccountInfo { key: at, owner: program(), data: position_data(p) }
}

fn update(feed: u8, price: i64, publish_time: i64) -> PriceUpdateV2 {
    PriceUpdateV2 {
        write_authority: key(9),
        verification_level: VerificationLevel::Full,
        price_message: PriceFeedMessage {
            feed_id: [feed; 32],
            price,
            conf: 11,
            exponent: -8,
            publish_time,
            prev_publish_time: 12,
            ema_price: 13,
            ema_conf: 14,
        },
        posted_slot: 15,
    }
}

fn update_data(u: &PriceUpdateV2) -> Vec<u8> {
    let m = u.price_message;
    let account = posted::PriceUpdateV2 {
        write_authority: u.write_authority.bytes.into(),
        verification_level: match u.verification_level {
            VerificationLevel::Full => posted::VerificationLevel::Full,
            VerificationLevel::Partial { num_signatures } => {
                posted::VerificationLevel::Partial { num_signatures }
            }
        },
        price_message: posted::PriceFeedMessage {
            feed_id: m.feed_id,
            price: m.price,
            conf: m.conf,
            exponent: m.exponent,
            publish_time: m.publish_time,
            prev_publish_time: m.prev_publish_time,
            ema_price: m.ema_price,
            ema_conf: m.ema_conf,
        },
        posted_slot: u.posted_slot,
    };
    let mut data = Vec::new();
    account.try_serialize(&mut data).unwrap();
    data
}

fn update_account(u: &PriceUpdateV2) -> AccountInfo {
    AccountInfo { key: key(200), owner: receiver(), data: update_data(u) }
}

fn quote(p: i64) -> Price {
    Price { price: p, conf: 11, exponent: -8, publish_time: 1_000 }
}

// Keys and constants.

#[test]
fn keys_compare_by_all_bytes() {
    let mut other = key(7);
    assert!(other == key(7));
    other.bytes[31] = 8;
    assert!(other != key(7));
    assert_eq!(Pubkey::default().bytes, [0u8; 32]);
}

#[test]
fn seeds_spell_their_names() {
    assert_eq!(&MARKET_SEED, b"market");
    assert_eq!(&AUTH_SEED, b"auth");
    assert_eq!(&VAULT_SEED, b"vault");
    assert_eq!(&CLAIM_SEED, b"claim");
    assert_eq!(&POSITION_SEED, b"position");
    assert_eq!(&STATS_SEED, b"stats");
}

#[test]
fn program_id_is_its_address() {
    let address = anchor_lang::prelude::Pubkey::from_str_const(
        "5jqXbgExBEnKPahsQineFmMJHNcEvwnniiYvDy81bZCF",
    );
    assert_eq!(address.to_bytes(), ID);
}

#[test]
fn sizes_are_the_sums_of_their_fields() {
    assert_eq!(Market::SIZE, 164);
    assert_eq!(Position::SIZE, 132);
    assert_eq!(ClaimReceipt::SIZE, 81);
    assert_eq!(UserStats::SIZE, 91);
}

#[test]
fn authority_signs_with_mint_and_bump() {
    let seeds = AuthoritySeeds { mint: key(3), bump: 250 }.to_vecs();
    assert_eq!(seeds, vec![b"auth".to_vec(), vec![3u8; 32], vec![250u8]]);
}

// Position accounts.

#[test]
fn position_reads_back() {
    let p = position(key(1), 0x1122_3344_5566_7788, 42, 5);
    let mut data = position_data(&p);
    assert_eq!(data.len(), 8 + Position::SIZE);
    assert_eq!(Position::try_deserialize(&data), Some(p));
    data.push(1);
    assert_eq!(Position::try_deserialize(&data), Some(p));
}

#[test]
fn position_needs_its_discriminator_and_its_size() {
    let p = position(key(1), 1, 2, 5);
    let data = position_data(&p);
    assert_eq!(Position::try_deserialize(&data[..139].to_vec()), None);
    assert_eq!(Position::try_deserialize(&vec![]), None);
    let mut wrong = data.clone();
    wrong[7] ^= 1;
    assert_eq!(Position::try_deserialize(&wrong), None);
}

#[test]
fn position_to_count_checks_in_order() {
    let user = key(1);
    let mut account = position_account(key(50), &position(user, 5, 0, 5));
    assert_eq!(
        position_to_count(&account, &user, &[]),
        Ok(Some(position(user, 5, 0, 5)))
    );
    assert_eq!(
        position_to_count(&account, &key(2), &[]),
        Err(MarketError::BadPositionAccount)
    );
    account.owner = key(6);
    assert_eq!(
        position_to_count(&account, &user, &[]),
        Err(MarketError::BadPositionAccount)
    );
    assert_eq!(position_to_count(&account, &user, &[key(49), key(50)]), Ok(None));
    let idle = position_account(key(50), &position(user, 0, 0, 5));
    assert_eq!(position_to_count(&idle, &user, &[]), Ok(None));
    let junk = AccountInfo { key: key(50), owner: program(), data: vec![1, 2, 3] };
    assert_eq!(
        position_to_count(&junk, &user, &[]),
        Err(MarketError::BadPositionAccount)
    );
}

// Prices.

#[test]
fn price_is_taken_from_a_fresh_update() {
    let u = update(5, 123, 1_000);
    assert_eq!(fresh_price(&u, &clock_at(1_300), &[5; 32]), Ok(quote(123)));
    assert_eq!(
        fresh_price(&u, &clock_at(1_301), &[5; 32]),
        Err(MarketError::StalePrice)
    );
    // An update from the future is fresh.
    assert_eq!(fresh_price(&u, &clock_at(0), &[5; 32]), Ok(quote(123)));
}

#[test]
fn price_needs_its_feed_and_full_verification() {
    let mut u = update(5, 123, 1_000);
    assert_eq!(
        fresh_price(&u, &clock_at(1_000), &[6; 32]),
        Err(MarketError::BadPriceFeed)
    );
    let mut last_byte_differs = [5; 32];
    last_byte_differs[31] = 4;
    assert_eq!(
        fresh_price(&u, &clock_at(1_000), &last_byte_differs),
        Err(MarketError::BadPriceFeed)
    );
    // Whatever its age.
    assert_eq!(
        fresh_price(&u, &clock_at(9_000), &[6; 32]),
        Err(MarketError::BadPriceFeed)
    );
    u.verification_level = VerificationLevel::Partial { num_signatures: 255 };
    assert_eq!(
        fresh_price(&u, &clock_at(1_000), &[5; 32]),
        Err(MarketError::BadPriceFeed)
    );
    assert_eq!(
        fresh_price(&u, &clock_at(9_000), &[5; 32]),
        Err(MarketError::BadPriceFeed)
    );
}

#[test]
fn price_age_saturates() {
    let mut u = update(5, 123, i64::MAX);
    assert!(fresh_price(&u, &clock_at(i64::MAX), &[5; 32]).is_ok());
    u.price_message.publish_time = i64::MIN;
    assert!(fresh_price(&u, &clock_at(i64::MIN + 300), &[5; 32]).is_ok());
    assert!(fresh_price(&u, &clock_at(i64::MIN + 301), &[5; 32]).is_err());
}

#[test]
fn receiver_is_the_documented_address() {
    let bytes = [
        12, 183, 250, 187, 82, 247, 166, 72, 187, 91, 49, 125, 154, 1, 139, 144, 87, 203, 2, 71,
        116, 250, 254, 1, 230, 196, 223, 152, 204, 56, 88, 129,
    ];
    assert_eq!(pyth_solana_receiver_sdk::ID.to_bytes(), bytes);
    let u = update(5, 123, 1_000);
    assert_eq!(
        price_of_decoded(&Pubkey { bytes }, &Some(u), &clock_at(1_000), &[5; 32]),
        Ok(quote(123))
    );
}

#[test]
fn decoded_price_needs_the_receiver_and_an_update() {
    let u = update(5, 123, 1_000);
    let clock = clock_at(1_000);
    assert_eq!(
        price_of_decoded(&receiver(), &Some(u), &clock, &[5; 32]),
        Ok(quote(123))
    );
    assert_eq!(
        price_of_decoded(&program(), &Some(u), &clock, &[5; 32]),
        Err(MarketError::BadPriceFeed)
    );
    assert_eq!(
        price_of_decoded(&receiver(), &None, &clock, &[5; 32]),
        Err(MarketError::BadPriceFeed)
    );
    assert_eq!(
        price_of_decoded(&receiver(), &Some(u), &clock, &[6; 32]),
        Err(MarketError::BadPriceFeed)
    );
    assert_eq!(
        price_of_decoded(&receiver(), &Some(u), &clock_at(1_301), &[5; 32]),
        Err(MarketError::StalePrice)
    );
}

#[test]
fn updates_decode_from_their_accounts() {
    let full = update(5, -123, 1_000);
    let mut partial = update(6, 9, 2);
    partial.verification_level = VerificationLevel::Partial { num_signatures: 13 };
    let mut cut = update_account(&full);
    cut.data.pop();
    let accounts = [
        update_account(&full),
        update_account(&partial),
        cut,
        position_account(key(50), &position(key(1), 1, 2, 5)),
    ];
    assert_eq!(decode_updates(&accounts), vec![Some(full), Some(partial), None, None]);
}

#[test]
fn updates_lie_in_their_accounts_field_by_field() {
    let full = PriceUpdateV2 {
        write_authority: key(9),
        verification_level: VerificationLevel::Full,
        price_message: PriceFeedMessage {
            feed_id: [5; 32],
            price: -2,
            conf: 0x0102,
            exponent: -8,
            publish_time: 3,
            prev_publish_time: i64::MIN,
            ema_price: i64::MAX,
            ema_conf: u64::MAX,
        },
        posted_slot: 0x0800_0000_0000_0007,
    };
    let partial = PriceUpdateV2 {
        verification_level: VerificationLevel::Partial { num_signatures: 13 },
        ..full
    };
    let bytes = |level: &[u8]| {
        let mut data = UPDATE_DISCRIMINATOR.to_vec();
        data.extend([9; 32]);
        data.extend(level);
        data.extend([5; 32]);
        data.extend([254, 255, 255, 255, 255, 255, 255, 255]);
        data.extend([2, 1, 0, 0, 0, 0, 0, 0]);
        data.extend([248, 255, 255, 255]);
        data.extend([3, 0, 0, 0, 0, 0, 0, 0]);
        data.extend([0, 0, 0, 0, 0, 0, 0, 128]);
        data.extend([255, 255, 255, 255, 255, 255, 255, 127]);
        data.extend([255; 8]);
        data.extend([7, 0, 0, 0, 0, 0, 0, 8]);
        data
    };
    let holding = |data: Vec<u8>| AccountInfo { key: key(200), owner: receiver(), data };
    let mut followed = bytes(&[1]);
    followed.extend([1, 2, 3]);
    let mut mislabelled = bytes(&[1]);
    mislabelled[0] ^= 1;
    let mut cut = bytes(&[0, 13]);
    cut.pop();
    let accounts = [
        holding(bytes(&[1])),
        holding(bytes(&[0, 13])),
        holding(followed),
        holding(mislabelled),
        holding(cut),
        holding(bytes(&[2])),
        holding(vec![]),
    ];
    assert_eq!(
        decode_updates(&accounts),
        vec![Some(full), Some(partial), Some(full), None, None, None, None]
    );
}

// Totals.

#[test]
fn one_position_is_weighted_by_its_limit() {
    let mut collateral = 7u128;
    let mut debt = 8u128;
    // $200 of collateral at 80% and $50 of debt.
    accumulate_position(
        2_000_000_000,
        500_000_000,
        &quote(10_000_000_000),
        9,
        8_000,
        &mut collateral,
        &mut debt,
    );
    assert_eq!(collateral, 7 + 16_000_000_000);
    assert_eq!(debt, 8 + 5_000_000_000);
}

#[test]
fn totals_saturate() {
    let mut collateral = u128::MAX;
    let mut debt = u128::MAX - 1;
    accumulate_position(1, 2, &quote(1_000_000_000), 9, 10_000, &mut collateral, &mut debt);
    assert_eq!(collateral, u128::MAX);
    assert_eq!(debt, u128::MAX);
}

#[test]
fn other_accounts_are_summed() {
    let user = key(1);
    let accounts = [
        position_account(key(50), &position(user, 1_000_000_000, 0, 5)),
        update_account(&update(5, 10_000_000_000, 1_000)),
        // Nothing in it: its price is not looked at.
        position_account(key(51), &position(user, 0, 0, 6)),
        AccountInfo { key: key(201), owner: key(0), data: vec![] },
        position_account(key(52), &position(user, 0, 2_000_000_000, 7)),
        update_account(&update(7, 300_000_000, 1_000)),
    ];
    let clock = clock_at(1_000);
    let (mut c, mut d) = (0u128, 0u128);
    let walked = accumulate_remaining(&accounts, &user, key(99), &clock, &mut c, &mut d);
    assert_eq!((walked, c, d), (Ok(()), 8_000_000_000, 600_000_000));
    let (mut c, mut d) = (0u128, 0u128);
    let walked = accumulate_remaining(&accounts, &user, key(50), &clock, &mut c, &mut d);
    assert_eq!((walked, c, d), (Ok(()), 0, 600_000_000));
    // The walk covers what is listed: a pair that is listed twice counts twice.
    let twice = [
        position_account(key(50), &position(user, 1_000_000_000, 0, 5)),
        update_account(&update(5, 10_000_000_000, 1_000)),
        position_account(key(50), &position(user, 1_000_000_000, 0, 5)),
        update_account(&update(5, 10_000_000_000, 1_000)),
    ];
    let (mut c, mut d) = (0u128, 0u128);
    let walked = accumulate_remaining(&twice, &user, key(99), &clock, &mut c, &mut d);
    assert_eq!((walked, c, d), (Ok(()), 16_000_000_000, 0));
    let (mut c, mut d) = (1u128, 2u128);
    let skip = [key(50), key(52)];
    let walked = accumulate_remaining_skip(&accounts, &user, &skip, &clock, &mut c, &mut d);
    assert_eq!((walked, c, d), (Ok(()), 1, 2));
}

#[test]
fn decoded_accounts_are_summed_alike() {
    let user = key(1);
    let u = update(5, 10_000_000_000, 1_000);
    let accounts = [
        position_account(key(50), &position(user, 1_000_000_000, 0, 5)),
        update_account(&u),
    ];
    let (mut c, mut d) = (0u128, 0u128);
    let walked = accumulate_decoded(
        &accounts,
        &vec![None, Some(u)],
        &user,
        &[],
        &clock_at(1_000),
        &mut c,
        &mut d,
    );
    assert_eq!((walked, c, d), (Ok(()), 8_000_000_000, 0));
    let walked = accumulate_decoded(
        &accounts,
        &vec![None, None],
        &user,
        &[],
        &clock_at(1_000),
        &mut c,
        &mut d,
    );
    assert_eq!((walked, c, d), (Err(MarketError::BadPriceFeed), 8_000_000_000, 0));
}

#[test]
fn other_accounts_are_refused_at_the_first_bad_one() {
    let user = key(1);
    let good = || position_account(key(50), &position(user, 1_000_000_000, 0, 5));
    let priced = || update_account(&update(5, 10_000_000_000, 1_000));
    let clock = clock_at(1_000);
    let walk = |accounts: &[AccountInfo]| {
        let (mut c, mut d) = (0u128, 0u128);
        let walked = accumulate_remaining(accounts, &user, key(99), &clock, &mut c, &mut d);
        (walked, c, d)
    };
    assert_eq!(walk(&[]), (Ok(()), 0, 0));
    assert_eq!(walk(&[good()]), (Err(MarketError::BadRemainingAccounts), 0, 0));
    let foreign = position_account(key(51), &position(key(2), 1, 0, 5));
    assert_eq!(
        walk(&[good(), priced(), foreign, priced()]),
        (Err(MarketError::BadPositionAccount), 8_000_000_000, 0)
    );
    let mut unowned = priced();
    unowned.owner = program();
    assert_eq!(walk(&[good(), unowned]), (Err(MarketError::BadPriceFeed), 0, 0));
    let old = update_account(&update(5, 10_000_000_000, 699));
    assert_eq!(walk(&[good(), old]), (Err(MarketError::StalePrice), 0, 0));
    let other_feed = update_account(&update(6, 10_000_000_000, 1_000));
    assert_eq!(walk(&[good(), other_feed]), (Err(MarketError::BadPriceFeed), 0, 0));
    let mut partial = update(5, 10_000_000_000, 1_000);
    partial.verification_level = VerificationLevel::Partial { num_signatures: 13 };
    assert_eq!(
        walk(&[good(), update_account(&partial)]),
        (Err(MarketError::BadPriceFeed), 0, 0)
    );
}
