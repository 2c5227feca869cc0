//! Prices: updates as the oracle's receiver program posts them, and what
//! counts as a price that may be used.

use crate::chain::{AccountInfo, Clock};
use crate::errors::MarketError;
use crate::keys::Pubkey;
use crate::layout;
use crate::state::MAX_PRICE_AGE_SEC;
use crate::valuation::Price;
use anchor_lang::AccountDeserialize;
use pyth_solana_receiver_sdk::error::GetPriceError;
use pyth_solana_receiver_sdk::price_update as posted;
use vstd::prelude::*;

verus! {

/// How many guardian signatures of an update the receiver has checked.
#[derive(Clone, Copy, Debug, PartialEq, Eq)]
pub enum VerificationLevel {
    Partial { num_signatures: u8 },
    Full,
}

/// The price message that an update carries.
#[derive(Clone, Copy, Debug, PartialEq, Eq)]
pub struct PriceFeedMessage {
    pub feed_id: [u8; 32],
    pub price: i64,
    pub conf: u64,
    pub exponent: i32,
    pub publish_time: i64,
    pub prev_publish_time: i64,
    pub ema_price: i64,
    pub ema_conf: u64,
}

/// A price update account.
#[derive(Clone, Copy, Debug, PartialEq, Eq)]
pub struct PriceUpdateV2 {
    pub write_authority: Pubkey,
    pub verification_level: VerificationLevel,
    pub price_message: PriceFeedMessage,
    pub posted_slot: u64,
}

/// The oracle's own refusals, whose cases the program does not tell apart.
#[verifier::external_type_specification]
#[verifier::external_body]
pub struct ExGetPriceError(GetPriceError);

/// The framework's own errors, whose cases the program does not tell apart.
#[verifier::external_type_specification]
#[verifier::external_body]
pub struct ExAnchorError(anchor_lang::error::Error);

/// The price in `update` if it may be used: the update is fully verified, it is
/// for `feed_id`, and it was published no more than `max_age` seconds before
/// `now`.
pub open spec fn usable_price(
    update: PriceUpdateV2,
    now: i64,
    max_age: u64,
    feed_id: [u8; 32],
) -> Option<Price> {
    let message = update.price_message;
    if update.verification_level is Full && message.feed_id == feed_id && message.publish_time
        + max_age >= now {
        Some(
            Price {
                price: message.price,
                conf: message.conf,
                exponent: message.exponent,
                publish_time: message.publish_time,
            },
        )
    } else {
        None
    }
}

/// The bytes of the address of the oracle's receiver program,
/// `rec5EKMGg6MxZYaMdyBfgwp4d5rB9T1VQH5pJv5LtFJ`.
pub open spec fn receiver_id_bytes() -> Seq<u8> {
    seq![
        12, 183, 250, 187, 82, 247, 166, 72, 187, 91, 49, 125, 154, 1, 139, 144, 87, 203, 2, 71,
        116, 250, 254, 1, 230, 196, 223, 152, 204, 56, 88, 129,
    ]
}

/// Calls `PriceUpdateV2::get_price_no_older_than` of `pyth_solana_receiver_sdk`,
/// which gives the price of an update that is fully verified, for the feed
/// asked for, and whose publish time plus `maximum_age` (added with saturation)
/// is not before the clock's time; it fails on any other, and panics on an age
/// that does not fit in an `i64`. With which of its errors it fails is left
/// unsaid: the program asks only where age alone can fail.
#[verifier::external_body]
fn get_price_no_older_than(
    update: &PriceUpdateV2,
    clock: &Clock,
    maximum_age: u64,
    feed: &[u8; 32],
) -> (price: Result<Price, GetPriceError>)
    requires
        maximum_age <= i64::MAX,
    ensures
        match usable_price(*update, clock.unix_timestamp, maximum_age, *feed) {
            Some(found) => price matches Ok(given) && given == found,
            None => price is Err,
        },
{
    let verification_level = match update.verification_level {
        VerificationLevel::Partial { num_signatures } => posted::VerificationLevel::Partial { num_signatures },
        VerificationLevel::Full => posted::VerificationLevel::Full,
    };
    let PriceFeedMessage { feed_id, price, conf, exponent, publish_time, prev_publish_time, ema_price, ema_conf } = update.price_message;
    let price_message = posted::PriceFeedMessage { feed_id, price, conf, exponent, publish_time, prev_publish_time, ema_price, ema_conf };
    let u = posted::PriceUpdateV2 {
        write_authority: update.write_authority.bytes.into(),
        verification_level, price_message, posted_slot: update.posted_slot };
    let Clock { slot, epoch_start_timestamp, epoch, leader_schedule_epoch, unix_timestamp } = *clock;
    let c = anchor_lang::prelude::Clock { slot, epoch_start_timestamp, epoch, leader_schedule_epoch, unix_timestamp };
    let p = u.get_price_no_older_than(&c, maximum_age, feed)?;
    Ok(Price { price: p.price, conf: p.conf, exponent: p.exponent, publish_time: p.publish_time })
}

/// Calls `PriceUpdateV2::try_deserialize` of `pyth_solana_receiver_sdk`, which
/// reads an account's discriminator and fields out of its bytes: it gives the
/// update whose bytes the account begins with, whatever follows them, and fails
/// where there is none. With which error it fails is left unsaid.
#[verifier::external_body]
fn try_deserialize_price_update(data: &Vec<u8>) -> (update: Result<
    PriceUpdateV2,
    anchor_lang::error::Error,
>)
    ensures
        match update {
            Ok(found) => layout::holds_update(data@, found),
            Err(_) => forall|held: PriceUpdateV2| !layout::holds_update(data@, held),
        },
{
    let u = posted::PriceUpdateV2::try_deserialize(&mut data.as_slice())?;
    let verification_level = match u.verification_level {
        posted::VerificationLevel::Partial { num_signatures } => VerificationLevel::Partial { num_signatures },
        posted::VerificationLevel::Full => VerificationLevel::Full,
    };
    let posted::PriceFeedMessage { feed_id, price, conf, exponent, publish_time, prev_publish_time, ema_price, ema_conf } = u.price_message;
    let price_message = PriceFeedMessage { feed_id, price, conf, exponent, publish_time, prev_publish_time, ema_price, ema_conf };
    let write_authority = Pubkey { bytes: u.write_authority.to_bytes() };
    Ok(PriceUpdateV2 { write_authority, verification_level, price_message, posted_slot: u.posted_slot })
}

/// Reads `ID` of `pyth_solana_receiver_sdk`, the address of the oracle's
/// receiver program, whose bytes (without that crate's `pro-compatible`
/// feature) are `receiver_id_bytes`.
#[verifier::external_body]
fn receiver_id() -> (id: Pubkey)
    ensures
        id.bytes@ == receiver_id_bytes(),
{
    Pubkey { bytes: pyth_solana_receiver_sdk::ID.to_bytes() }
}

/// The price of an update account for `feed_id`, or the refusal: an update for
/// another feed, or one that is not fully verified, is a bad price feed; one
/// that is only too old is stale.
pub open spec fn price_or_refusal(update: PriceUpdateV2, now: i64, feed_id: [u8; 32]) -> Result<
    Price,
    MarketError,
> {
    match usable_price(update, now, MAX_PRICE_AGE_SEC, feed_id) {
        Some(price) => Ok(price),
        None => if update.price_message.feed_id@ != feed_id@ || !(update.verification_level
            is Full) {
            Err(MarketError::BadPriceFeed)
        } else {
            Err(MarketError::StalePrice)
        },
    }
}

/// The price in an unchecked account, whose bytes hold `decoded`: the receiver
/// program must own it and it must hold an update.
pub open spec fn price_in_account(
    owner: Pubkey,
    decoded: Option<PriceUpdateV2>,
    now: i64,
    feed_id: [u8; 32],
) -> Result<Price, MarketError> {
    if owner.bytes@ != receiver_id_bytes() {
        Err(MarketError::BadPriceFeed)
    } else {
        match decoded {
            None => Err(MarketError::BadPriceFeed),
            Some(update) => price_or_refusal(update, now, feed_id),
        }
    }
}

/// The price of `update` for `feed_id` at `clock`. Of the oracle's refusals, a
/// feed that does not match and a verification that is not full are told from
/// age before the oracle is asked.
pub fn fresh_price(update: &PriceUpdateV2, clock: &Clock, feed_id: &[u8; 32]) -> (price: Result<
    Price,
    MarketError,
>)
    ensures
        price == price_or_refusal(*update, clock.unix_timestamp, *feed_id),
{
    let posted_for = Pubkey { bytes: update.price_message.feed_id };
    let asked_for = Pubkey { bytes: *feed_id };
    if posted_for != asked_for {
        assert(posted_for.bytes@ != asked_for.bytes@) by {
            if posted_for.bytes@ == asked_for.bytes@ {
                assert(posted_for.bytes =~= asked_for.bytes);
            }
        }
        return Err(MarketError::BadPriceFeed);
    }
    match update.verification_level {
        VerificationLevel::Full => {},
        VerificationLevel::Partial { .. } => {
            return Err(MarketError::BadPriceFeed);
        },
    }
    match get_price_no_older_than(update, clock, MAX_PRICE_AGE_SEC, feed_id) {
        Ok(price) => Ok(price),
        Err(_) => Err(MarketError::StalePrice),
    }
}

/// The price in an account that `owner` owns and whose bytes hold `decoded`.
pub fn price_of_decoded(
    owner: &Pubkey,
    decoded: &Option<PriceUpdateV2>,
    clock: &Clock,
    feed_id: &[u8; 32],
) -> (price: Result<Price, MarketError>)
    ensures
        price == price_in_account(*owner, *decoded, clock.unix_timestamp, *feed_id),
{
    let receiver = receiver_id();
    if *owner != receiver {
        assert(owner.bytes@ != receiver.bytes@) by {
            if owner.bytes@ == receiver.bytes@ {
                assert(owner.bytes =~= receiver.bytes);
            }
        }
        return Err(MarketError::BadPriceFeed);
    }
    match decoded {
        Some(update) => fresh_price(update, clock, feed_id),
        None => Err(MarketError::BadPriceFeed),
    }
}

/// The price updates that the bytes of `accounts` hold, one by one.
pub open spec fn updates_in(accounts: Seq<AccountInfo>) -> Seq<Option<PriceUpdateV2>> {
    accounts.map_values(|account: AccountInfo| layout::price_update_in(account.data@))
}

/// Reads each of `accounts` as a price update.
pub fn decode_updates(accounts: &[AccountInfo]) -> (updates: Vec<Option<PriceUpdateV2>>)
    ensures
        updates@ == updates_in(accounts@),
{
    let mut updates: Vec<Option<PriceUpdateV2>> = Vec::new();
    let mut i: usize = 0;
    while i < accounts.len()
        invariant
            i <= accounts.len(),
            updates.len() == i,
            forall|j: int| 0 <= j < i ==> updates[j] == layout::price_update_in(
                accounts[j].data@,
            ),
        decreases accounts.len() - i,
    {
        let update: Option<PriceUpdateV2> = match try_deserialize_price_update(&accounts[i].data) {
            Ok(update) => {
                proof {
                    let data = accounts[i as int].data@;
                    let held = layout::price_update_in(data)->0;
                    layout::lemma_update_is_unique(data, held, update);
                }
                Some(update)
            },
            Err(_) => None,
        };
        updates.push(update);
        i = i + 1;
    }
    assert(updates@ =~= updates_in(accounts@));
    updates
}

/// A price may be used exactly where the update is fully verified, is for the
/// feed asked for, and was published at most 300 seconds before now; it is then
/// the price of the message. Age alone makes it stale, and anything else makes it
/// a bad price feed.
pub proof fn law_usable_price_is_fresh_and_for_its_feed(
    update: PriceUpdateV2,
    now: i64,
    feed_id: [u8; 32],
)
    ensures
        ({
            let price = price_or_refusal(update, now, feed_id);
            let message = update.price_message;
            let trusted = update.verification_level is Full && message.feed_id == feed_id;
            let age = now - message.publish_time;
            &&& price is Ok <==> trusted && age <= 300
            &&& price == Err::<Price, _>(MarketError::StalePrice) <==> trusted && age > 300
            &&& price == Err::<Price, _>(MarketError::BadPriceFeed) <==> !trusted
            &&& price matches Ok(found) ==> {
                &&& found.price == message.price
                &&& found.conf == message.conf
                &&& found.exponent == message.exponent
                &&& found.publish_time == message.publish_time
            }
        }),
{
    if update.price_message.feed_id@ == feed_id@ {
        assert(update.price_message.feed_id =~= feed_id);
    }
}

/// An unchecked account prices a position exactly as its update does, where the
/// receiver program owns it and it holds one; any other is a bad price feed.
pub proof fn law_price_account_is_the_receivers(
    owner: Pubkey,
    decoded: Option<PriceUpdateV2>,
    now: i64,
    feed_id: [u8; 32],
)
    ensures
        ({
            let price = price_in_account(owner, decoded, now, feed_id);
            let receivers = owner.bytes@ == seq![
                12u8, 183, 250, 187, 82, 247, 166, 72, 187, 91, 49, 125, 154, 1, 139, 144, 87, 203,
                2, 71, 116, 250, 254, 1, 230, 196, 223, 152, 204, 56, 88, 129,
            ];
            &&& receivers && decoded is Some ==> price == price_or_refusal(
                decoded->0,
                now,
                feed_id,
            )
            &&& !receivers || decoded is None ==> price == Err::<Price, _>(
                MarketError::BadPriceFeed,
            )
        }),
{
}

/// Each account is read for itself: as the update whose bytes it begins with,
/// and as none where there is no such update.
pub proof fn law_updates_are_read_one_by_one(
    accounts: Seq<AccountInfo>,
    i: int,
    update: PriceUpdateV2,
)
    requires
        0 <= i < accounts.len(),
    ensures
        updates_in(accounts).len() == accounts.len(),
        updates_in(accounts)[i] == Some(update) <==> layout::update_bytes(update).is_prefix_of(
            accounts[i].data@,
        ),
{
    let data = accounts[i].data@;
    if layout::update_bytes(update).is_prefix_of(data) {
        assert(layout::holds_update(data, update));
        layout::lemma_update_is_unique(data, layout::price_update_in(data)->0, update);
    }
    if updates_in(accounts)[i] == Some(update) {
        assert(layout::holds_update(data, update));
    }
}

} // verus!
