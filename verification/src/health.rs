//! A user's health: what their debts are worth against what their collateral
//! supports, over all the markets they act in.

use crate::chain::{AccountInfo, Clock};
use crate::errors::MarketError;
use crate::keys::Pubkey;
use crate::layout;
use crate::math;
use crate::oracle;
use crate::oracle::PriceUpdateV2;
use crate::state::{Position, BPS_DENOMINATOR, ID};
use crate::valuation;
use crate::valuation::Price;
use vstd::prelude::*;

verus! {

/// Collateral, weighted by the loan-to-value limits, and debt, both in the
/// eighth decimal of a dollar.
pub struct Totals {
    pub collateral_at_ltv: int,
    pub debt: int,
}

impl Totals {
    /// Nothing counted yet.
    pub open spec fn none() -> Totals {
        Totals { collateral_at_ltv: 0, debt: 0 }
    }

    /// The totals that the program holds in two integers.
    pub open spec fn of(collateral_at_ltv: u128, debt: u128) -> Totals {
        Totals { collateral_at_ltv: collateral_at_ltv as int, debt: debt as int }
    }

    /// The debt fits inside the collateral at LTV.
    pub open spec fn healthy(self) -> bool {
        self.debt <= self.collateral_at_ltv
    }

    /// Both totals are amounts that the program can hold.
    pub open spec fn wf(self) -> bool {
        &&& 0 <= self.collateral_at_ltv <= u128::MAX
        &&& 0 <= self.debt <= u128::MAX
    }
}

/// What `supplied` base units support as collateral under a limit of `ltv`.
pub open spec fn collateral_at_ltv(supplied: u64, price: Price, decimals: u8, ltv: u16) -> int {
    math::sat(valuation::usd_8dp(supplied as int, price, decimals) * ltv) / (BPS_DENOMINATOR as int)
}

/// `totals` with one position counted in.
pub open spec fn with_position(
    totals: Totals,
    supplied: u64,
    borrowed: u64,
    price: Price,
    decimals: u8,
    ltv: u16,
) -> Totals {
    Totals {
        collateral_at_ltv: math::sat(
            totals.collateral_at_ltv + collateral_at_ltv(supplied, price, decimals, ltv),
        ),
        debt: math::sat(totals.debt + valuation::usd_8dp(borrowed as int, price, decimals)),
    }
}

/// The position in `account` that is to be counted for `user`, if any: not one
/// to skip, and not one without collateral and debt. The program must own the
/// account and the position in it must be the user's.
pub open spec fn counted_position(
    account: AccountInfo,
    user: Pubkey,
    skip: Seq<Pubkey>,
) -> Result<Option<Position>, MarketError> {
    if skip.contains(account.key) {
        Ok(None)
    } else if account.owner.bytes@ != ID@ {
        Err(MarketError::BadPositionAccount)
    } else {
        match layout::position_in(account.data@) {
            None => Err(MarketError::BadPositionAccount),
            Some(position) => if position.user != user {
                Err(MarketError::BadPositionAccount)
            } else if position.supplied == 0 && position.borrowed == 0 {
                Ok(None)
            } else {
                Ok(Some(position))
            },
        }
    }
}

/// `totals` with the pairs of `accounts` counted in, in order, up to the first
/// that is refused, and the refusal. `updates` are the price updates that the
/// accounts hold.
pub open spec fn with_pairs(
    totals: Totals,
    accounts: Seq<AccountInfo>,
    updates: Seq<Option<PriceUpdateV2>>,
    user: Pubkey,
    skip: Seq<Pubkey>,
    now: i64,
) -> (Totals, Result<(), MarketError>)
    decreases accounts.len(),
{
    if accounts.len() < 2 {
        (totals, Ok(()))
    } else {
        let rest = accounts.skip(2);
        match counted_position(accounts[0], user, skip) {
            Err(refusal) => (totals, Err(refusal)),
            Ok(None) => with_pairs(totals, rest, updates.skip(2), user, skip, now),
            Ok(Some(position)) => match oracle::price_in_account(
                accounts[1].owner,
                updates[1],
                now,
                position.feed_id,
            ) {
                Err(refusal) => (totals, Err(refusal)),
                Ok(price) => with_pairs(
                    with_position(
                        totals,
                        position.supplied,
                        position.borrowed,
                        price,
                        position.decimals,
                        position.max_ltv_bps,
                    ),
                    rest,
                    updates.skip(2),
                    user,
                    skip,
                    now,
                ),
            },
        }
    }
}

/// `totals` with the other accounts counted in: (position, price update) pairs,
/// so their number must be even.
pub open spec fn with_others(
    totals: Totals,
    accounts: Seq<AccountInfo>,
    updates: Seq<Option<PriceUpdateV2>>,
    user: Pubkey,
    skip: Seq<Pubkey>,
    now: i64,
) -> (Totals, Result<(), MarketError>) {
    if accounts.len() % 2 != 0 {
        (totals, Err(MarketError::BadRemainingAccounts))
    } else {
        with_pairs(totals, accounts, updates, user, skip, now)
    }
}

/// Counts one position into the running totals.
pub fn accumulate_position(
    supplied: u64,
    borrowed: u64,
    price: &Price,
    decimals: u8,
    max_ltv_bps: u16,
    total_collat_at_ltv: &mut u128,
    total_debt: &mut u128,
)
    ensures
        Totals::of(*final(total_collat_at_ltv), *final(total_debt)) == with_position(
            Totals::of(*old(total_collat_at_ltv), *old(total_debt)),
            supplied,
            borrowed,
            *price,
            decimals,
            max_ltv_bps,
        ),
{
    let collat: u128 = valuation::token_usd_8dp(supplied, price, decimals);
    proof {
        math::lemma_mul_mono(0, 0, collat as int, max_ltv_bps as int);
    }
    let at_ltv: u128 = math::saturating_mul(collat, max_ltv_bps as u128) / BPS_DENOMINATOR;
    *total_collat_at_ltv = total_collat_at_ltv.saturating_add(at_ltv);
    *total_debt = total_debt.saturating_add(valuation::token_usd_8dp(borrowed, price, decimals));
}

/// Whether `key` is one of `keys`.
fn contains_key(keys: &[Pubkey], key: &Pubkey) -> (found: bool)
    ensures
        found == keys@.contains(*key),
{
    let mut i: usize = 0;
    while i < keys.len()
        invariant
            i <= keys.len(),
            forall|j: int| 0 <= j < i ==> keys[j] != *key,
        decreases keys.len() - i,
    {
        if keys[i] == *key {
            return true;
        }
        i = i + 1;
    }
    false
}

/// The position in `account` that is to be counted for `user`, if any.
pub fn position_to_count(account: &AccountInfo, user: &Pubkey, skip_keys: &[Pubkey]) -> (counted:
    Result<Option<Position>, MarketError>)
    ensures
        counted == counted_position(*account, *user, skip_keys@),
{
    if contains_key(skip_keys, &account.key) {
        return Ok(None);
    }
    let program = Pubkey { bytes: ID };
    if account.owner != program {
        assert(account.owner.bytes@ != program.bytes@) by {
            if account.owner.bytes@ == program.bytes@ {
                assert(account.owner.bytes =~= program.bytes);
            }
        }
        return Err(MarketError::BadPositionAccount);
    }
    match Position::try_deserialize(&account.data) {
        None => Err(MarketError::BadPositionAccount),
        Some(position) => {
            if position.user != *user {
                return Err(MarketError::BadPositionAccount);
            }
            if position.supplied == 0 && position.borrowed == 0 {
                return Ok(None);
            }
            Ok(Some(position))
        },
    }
}

/// Walks the other accounts as (position, price update) pairs, summing each
/// into the running collateral and debt totals. `updates` are the price updates
/// that the accounts hold. Skips any position whose key appears in `skip_keys`.
/// A refusal leaves the totals as they were when it was met. The pairs carry no
/// market and so no current borrow index: a debt in them counts as it was last
/// recorded, without the interest since. The walk covers the pairs it is given
/// and no others: a position that is not among them is not counted, and one that
/// is listed twice counts twice. The caller lists one pair for every other
/// market in which the user has activity.
pub fn accumulate_decoded(
    ras: &[AccountInfo],
    updates: &Vec<Option<PriceUpdateV2>>,
    user: &Pubkey,
    skip_keys: &[Pubkey],
    clock: &Clock,
    total_collat_at_ltv: &mut u128,
    total_debt: &mut u128,
) -> (walked: Result<(), MarketError>)
    requires
        updates.len() == ras.len(),
    ensures
        (Totals::of(*final(total_collat_at_ltv), *final(total_debt)), walked) == with_others(
            Totals::of(*old(total_collat_at_ltv), *old(total_debt)),
            ras@,
            updates@,
            *user,
            skip_keys@,
            clock.unix_timestamp,
        ),
{
    if ras.len() % 2 != 0 {
        return Err(MarketError::BadRemainingAccounts);
    }
    let ghost start = Totals::of(*total_collat_at_ltv, *total_debt);
    let mut i: usize = 0;
    assert(ras@.skip(0) =~= ras@);
    assert(updates@.skip(0) =~= updates@);
    while i < ras.len()
        invariant
            i <= ras.len(),
            i % 2 == 0,
            ras.len() % 2 == 0,
            updates.len() == ras.len(),
            start == Totals::of(*old(total_collat_at_ltv), *old(total_debt)),
            with_pairs(start, ras@, updates@, *user, skip_keys@, clock.unix_timestamp)
                == with_pairs(
                Totals::of(*total_collat_at_ltv, *total_debt),
                ras@.skip(i as int),
                updates@.skip(i as int),
                *user,
                skip_keys@,
                clock.unix_timestamp,
            ),
        decreases ras.len() - i,
    {
        let pos_ai = &ras[i];
        let pu_ai = &ras[i + 1];
        let update = &updates[i + 1];
        assert(ras@.skip(i as int).skip(2) =~= ras@.skip(i + 2));
        assert(updates@.skip(i as int).skip(2) =~= updates@.skip(i + 2));
        assert(ras@.skip(i as int)[0] == *pos_ai);
        assert(ras@.skip(i as int)[1] == *pu_ai);
        i = i + 2;
        match position_to_count(pos_ai, user, skip_keys) {
            Err(refusal) => {
                return Err(refusal);
            },
            Ok(None) => {},
            Ok(Some(position)) => {
                match oracle::price_of_decoded(&pu_ai.owner, update, clock, &position.feed_id) {
                    Err(refusal) => {
                        return Err(refusal);
                    },
                    Ok(price) => {
                        accumulate_position(
                            position.supplied,
                            position.borrowed,
                            &price,
                            position.decimals,
                            position.max_ltv_bps,
                            total_collat_at_ltv,
                            total_debt,
                        );
                    },
                }
            },
        }
    }
    Ok(())
}

/// Walks the other accounts as (position, price update) pairs, summing each
/// into the running collateral and debt totals. Skips any position whose key
/// appears in `skip_keys`.
pub fn accumulate_remaining_skip(
    ras: &[AccountInfo],
    user: &Pubkey,
    skip_keys: &[Pubkey],
    clock: &Clock,
    total_collat_at_ltv: &mut u128,
    total_debt: &mut u128,
) -> (walked: Result<(), MarketError>)
    ensures
        (Totals::of(*final(total_collat_at_ltv), *final(total_debt)), walked) == with_others(
            Totals::of(*old(total_collat_at_ltv), *old(total_debt)),
            ras@,
            oracle::updates_in(ras@),
            *user,
            skip_keys@,
            clock.unix_timestamp,
        ),
{
    let updates: Vec<Option<PriceUpdateV2>> = oracle::decode_updates(ras);
    accumulate_decoded(ras, &updates, user, skip_keys, clock, total_collat_at_ltv, total_debt)
}

/// Like `accumulate_remaining_skip`, with a single position to skip: the one
/// that is already counted from the main accounts.
pub fn accumulate_remaining(
    ras: &[AccountInfo],
    user: &Pubkey,
    skip: Pubkey,
    clock: &Clock,
    total_collat_at_ltv: &mut u128,
    total_debt: &mut u128,
) -> (walked: Result<(), MarketError>)
    ensures
        (Totals::of(*final(total_collat_at_ltv), *final(total_debt)), walked) == with_others(
            Totals::of(*old(total_collat_at_ltv), *old(total_debt)),
            ras@,
            oracle::updates_in(ras@),
            *user,
            seq![skip],
            clock.unix_timestamp,
        ),
{
    let skip_keys: [Pubkey; 1] = [skip];
    assert(skip_keys@ =~= seq![skip]);
    accumulate_remaining_skip(ras, user, &skip_keys, clock, total_collat_at_ltv, total_debt)
}

/// `better` supports at least the collateral of `worse`, and owes at most its
/// debt.
pub open spec fn no_worse(better: Totals, worse: Totals) -> bool {
    &&& worse.collateral_at_ltv <= better.collateral_at_ltv
    &&& better.debt <= worse.debt
}

/// Counting a position in keeps totals in range; more collateral and less debt
/// in it make no total worse.
pub proof fn law_position_counts_monotonically(
    better: Totals,
    worse: Totals,
    more_supplied: u64,
    less_supplied: u64,
    less_borrowed: u64,
    more_borrowed: u64,
    price: Price,
    decimals: u8,
    ltv: u16,
)
    requires
        better.wf(),
        worse.wf(),
        no_worse(better, worse),
        less_supplied <= more_supplied,
        less_borrowed <= more_borrowed,
    ensures
        ({
            let after = with_position(better, more_supplied, less_borrowed, price, decimals, ltv);
            let other = with_position(worse, less_supplied, more_borrowed, price, decimals, ltv);
            &&& after.wf()
            &&& other.wf()
            &&& no_worse(after, other)
        }),
{
    valuation::law_value_grows_with_amount(less_supplied, more_supplied, price, decimals);
    valuation::law_value_grows_with_amount(less_borrowed, more_borrowed, price, decimals);
    let less = valuation::usd_8dp(less_supplied as int, price, decimals);
    let more = valuation::usd_8dp(more_supplied as int, price, decimals);
    math::lemma_mul_mono(less, ltv as int, more, ltv as int);
    math::lemma_div_mono(
        math::sat(less * ltv),
        math::sat(more * ltv),
        BPS_DENOMINATOR as int,
    );
}

/// Counting the same other accounts in keeps better totals better, and meets
/// the same refusal.
pub proof fn law_others_count_monotonically(
    better: Totals,
    worse: Totals,
    accounts: Seq<AccountInfo>,
    updates: Seq<Option<PriceUpdateV2>>,
    user: Pubkey,
    skip: Seq<Pubkey>,
    now: i64,
)
    requires
        better.wf(),
        worse.wf(),
        no_worse(better, worse),
    ensures
        ({
            let after = with_others(better, accounts, updates, user, skip, now);
            let other = with_others(worse, accounts, updates, user, skip, now);
            &&& after.1 == other.1
            &&& after.0.wf()
            &&& other.0.wf()
            &&& no_worse(after.0, other.0)
            &&& other.0.healthy() ==> after.0.healthy()
        }),
{
    lemma_pairs_count_monotonically(better, worse, accounts, updates, user, skip, now);
}

proof fn lemma_pairs_count_monotonically(
    better: Totals,
    worse: Totals,
    accounts: Seq<AccountInfo>,
    updates: Seq<Option<PriceUpdateV2>>,
    user: Pubkey,
    skip: Seq<Pubkey>,
    now: i64,
)
    requires
        better.wf(),
        worse.wf(),
        no_worse(better, worse),
    ensures
        ({
            let after = with_pairs(better, accounts, updates, user, skip, now);
            let other = with_pairs(worse, accounts, updates, user, skip, now);
            &&& after.1 == other.1
            &&& after.0.wf()
            &&& other.0.wf()
            &&& no_worse(after.0, other.0)
        }),
    decreases accounts.len(),
{
    if accounts.len() >= 2 {
        let rest = accounts.skip(2);
        let later = updates.skip(2);
        match counted_position(accounts[0], user, skip) {
            Err(_) => {},
            Ok(None) => {
                lemma_pairs_count_monotonically(better, worse, rest, later, user, skip, now);
            },
            Ok(Some(p)) => {
                match oracle::price_in_account(accounts[1].owner, updates[1], now, p.feed_id) {
                    Err(_) => {},
                    Ok(price) => {
                        law_position_counts_monotonically(
                            better,
                            worse,
                            p.supplied,
                            p.supplied,
                            p.borrowed,
                            p.borrowed,
                            price,
                            p.decimals,
                            p.max_ltv_bps,
                        );
                        lemma_pairs_count_monotonically(
                            with_position(
                                better,
                                p.supplied,
                                p.borrowed,
                                price,
                                p.decimals,
                                p.max_ltv_bps,
                            ),
                            with_position(
                                worse,
                                p.supplied,
                                p.borrowed,
                                price,
                                p.decimals,
                                p.max_ltv_bps,
                            ),
                            rest,
                            later,
                            user,
                            skip,
                            now,
                        );
                    },
                }
            },
        }
    }
}

// What the totals say.

/// The two integers are the collateral and the debt, and a debt is covered
/// exactly where it is no more than the collateral.
pub proof fn law_totals_are_collateral_and_debt(collateral: u128, debt: u128)
    ensures
        Totals::of(collateral, debt).collateral_at_ltv == collateral,
        Totals::of(collateral, debt).debt == debt,
        Totals::of(collateral, debt).healthy() <==> debt <= collateral,
{
}

/// A position adds to the debt what its borrowings are worth, and to the
/// collateral the greatest whole number that does not exceed `ltv`
/// ten-thousandths of what its collateral is worth. A product or a total beyond
/// the largest `u128` counts as that.
pub proof fn law_position_counts_in_proportion_to_its_limit(
    totals: Totals,
    supplied: u64,
    borrowed: u64,
    price: Price,
    decimals: u8,
    ltv: u16,
)
    requires
        0 <= totals.collateral_at_ltv <= u128::MAX,
        0 <= totals.debt <= u128::MAX,
    ensures
        ({
            let after = with_position(totals, supplied, borrowed, price, decimals, ltv);
            let worth = valuation::usd_8dp(supplied as int, price, decimals);
            let owed = valuation::usd_8dp(borrowed as int, price, decimals);
            let support = after.collateral_at_ltv - totals.collateral_at_ltv;
            &&& totals.debt + owed <= u128::MAX ==> after.debt == totals.debt + owed
            &&& totals.debt + owed > u128::MAX ==> after.debt == u128::MAX
            &&& 0 <= support
            &&& after.collateral_at_ltv <= u128::MAX
            &&& support * 10_000 <= worth * ltv
            &&& support * 10_000 <= u128::MAX
            &&& after.collateral_at_ltv == u128::MAX || (support + 1) * 10_000 > worth * ltv || (
            support + 1) * 10_000 > u128::MAX
        }),
{
    let worth = valuation::usd_8dp(supplied as int, price, decimals);
    valuation::law_value_grows_with_amount(supplied, supplied, price, decimals);
    math::lemma_mul_mono(0, 0, worth, ltv as int);
}

/// A limit of nothing supports nothing, the full limit supports the full worth
/// (where neither the product nor the total clamps), and a higher limit never
/// supports less.
pub proof fn law_higher_limit_supports_no_less(
    totals: Totals,
    supplied: u64,
    borrowed: u64,
    price: Price,
    decimals: u8,
    lower: u16,
    higher: u16,
)
    requires
        0 <= totals.collateral_at_ltv <= u128::MAX,
        0 <= totals.debt <= u128::MAX,
        lower <= higher,
    ensures
        ({
            let worth = valuation::usd_8dp(supplied as int, price, decimals);
            let at_nothing = with_position(totals, supplied, borrowed, price, decimals, 0);
            let in_full = with_position(totals, supplied, borrowed, price, decimals, 10_000);
            let at_lower = with_position(totals, supplied, borrowed, price, decimals, lower);
            let at_higher = with_position(totals, supplied, borrowed, price, decimals, higher);
            &&& at_nothing.collateral_at_ltv == totals.collateral_at_ltv
            &&& worth * 10_000 <= u128::MAX && totals.collateral_at_ltv + worth <= u128::MAX
                ==> in_full.collateral_at_ltv == totals.collateral_at_ltv + worth
            &&& at_lower.collateral_at_ltv <= at_higher.collateral_at_ltv
            &&& at_lower.debt == at_higher.debt
        }),
{
    let worth = valuation::usd_8dp(supplied as int, price, decimals);
    valuation::law_value_grows_with_amount(supplied, supplied, price, decimals);
    math::lemma_mul_mono(0, 0, worth, lower as int);
    math::lemma_mul_mono(worth, lower as int, worth, higher as int);
    math::lemma_div_mono(
        math::sat(worth * lower),
        math::sat(worth * higher),
        BPS_DENOMINATOR as int,
    );
    assert(worth * 0 == 0);
}

/// A listed position is the one that the account begins with. It counts where
/// it is not to be skipped, the program owns the account, it is the user's, and
/// there is collateral or debt in it; it is passed over where it is to be skipped
/// or there is nothing in it; and otherwise it is refused.
pub proof fn law_listed_position_is_the_users_own(
    account: AccountInfo,
    user: Pubkey,
    skip: Seq<Pubkey>,
    position: Position,
)
    ensures
        ({
            let counted = counted_position(account, user, skip);
            let listed = skip.contains(account.key);
            let ours = account.owner.bytes@ == ID@;
            let holds = layout::position_bytes(position).is_prefix_of(account.data@);
            let empty = position.supplied == 0 && position.borrowed == 0;
            &&& listed ==> counted == Ok::<Option<Position>, MarketError>(None)
            &&& !listed && !ours ==> counted == Err::<Option<Position>, _>(
                MarketError::BadPositionAccount,
            )
            &&& !listed && ours && holds && position.user != user ==> counted == Err::<
                Option<Position>,
                _,
            >(MarketError::BadPositionAccount)
            &&& !listed && ours && holds && position.user == user && empty ==> counted == Ok::<
                Option<Position>,
                MarketError,
            >(None)
            &&& !listed && ours && holds && position.user == user && !empty ==> counted == Ok::<
                _,
                MarketError,
            >(Some(position))
            &&& !listed && ours && counted is Ok ==> layout::position_in(account.data@) is Some
            &&& !listed && counted is Err ==> counted == Err::<Option<Position>, _>(
                MarketError::BadPositionAccount,
            )
            &&& counted == Ok::<_, MarketError>(Some(position)) ==> {
                &&& !listed && ours && holds
                &&& position.user == user
                &&& !empty
            }
        }),
{
    layout::law_what_is_read_is_there(account.data@, position);
}

/// The walk goes pair by pair. With no accounts it changes nothing, with an odd
/// number of them it is refused outright, and otherwise one part of it after the
/// other comes to the same as both at once: a refusal ends it, with the totals as
/// they then are.
pub proof fn law_walk_goes_pair_by_pair(
    totals: Totals,
    first: Seq<AccountInfo>,
    first_updates: Seq<Option<PriceUpdateV2>>,
    rest: Seq<AccountInfo>,
    rest_updates: Seq<Option<PriceUpdateV2>>,
    user: Pubkey,
    skip: Seq<Pubkey>,
    now: i64,
)
    requires
        first.len() == first_updates.len(),
        rest.len() == rest_updates.len(),
    ensures
        ({
            let (middle, walked) = with_others(totals, first, first_updates, user, skip, now);
            let whole = with_others(
                totals,
                first + rest,
                first_updates + rest_updates,
                user,
                skip,
                now,
            );
            &&& first.len() == 0 ==> middle == totals && walked is Ok
            &&& first.len() % 2 == 1 ==> middle == totals && walked == Err::<(), _>(
                MarketError::BadRemainingAccounts,
            )
            &&& first.len() % 2 == 0 && rest.len() % 2 == 0 && walked is Err ==> whole == (
                middle,
                walked,
            )
            &&& first.len() % 2 == 0 && rest.len() % 2 == 0 && walked is Ok ==> whole
                == with_others(middle, rest, rest_updates, user, skip, now)
        }),
{
    if first.len() % 2 == 0 && rest.len() % 2 == 0 {
        lemma_pairs_compose(
            totals,
            first,
            first_updates,
            rest,
            rest_updates,
            user,
            skip,
            now,
        );
    }
}

proof fn lemma_pairs_compose(
    totals: Totals,
    first: Seq<AccountInfo>,
    first_updates: Seq<Option<PriceUpdateV2>>,
    rest: Seq<AccountInfo>,
    rest_updates: Seq<Option<PriceUpdateV2>>,
    user: Pubkey,
    skip: Seq<Pubkey>,
    now: i64,
)
    requires
        first.len() == first_updates.len(),
        first.len() % 2 == 0,
    ensures
        ({
            let (middle, walked) = with_pairs(totals, first, first_updates, user, skip, now);
            let whole = with_pairs(
                totals,
                first + rest,
                first_updates + rest_updates,
                user,
                skip,
                now,
            );
            &&& walked is Err ==> whole == (middle, walked)
            &&& walked is Ok ==> whole == with_pairs(middle, rest, rest_updates, user, skip, now)
        }),
    decreases first.len(),
{
    let all = first + rest;
    let updates = first_updates + rest_updates;
    if first.len() == 0 {
        assert(all =~= rest);
        assert(updates =~= rest_updates);
    } else {
        let later = first.skip(2);
        let later_updates = first_updates.skip(2);
        assert(all.skip(2) =~= later + rest);
        assert(updates.skip(2) =~= later_updates + rest_updates);
        assert(all[0] == first[0] && all[1] == first[1] && updates[1] == first_updates[1]);
        match counted_position(first[0], user, skip) {
            Err(_) => {},
            Ok(None) => {
                lemma_pairs_compose(
                    totals,
                    later,
                    later_updates,
                    rest,
                    rest_updates,
                    user,
                    skip,
                    now,
                );
            },
            Ok(Some(p)) => {
                if let Ok(price) = oracle::price_in_account(
                    first[1].owner,
                    first_updates[1],
                    now,
                    p.feed_id,
                ) {
                    lemma_pairs_compose(
                        with_position(
                            totals,
                            p.supplied,
                            p.borrowed,
                            price,
                            p.decimals,
                            p.max_ltv_bps,
                        ),
                        later,
                        later_updates,
                        rest,
                        rest_updates,
                        user,
                        skip,
                        now,
                    );
                }
            },
        }
    }
}

/// One pair changes the totals only by the position in its first account, at
/// the price in its second for that position's feed; what either is refused for,
/// the walk is refused for.
pub proof fn law_pair_counts_its_position_at_its_price(
    totals: Totals,
    pair: Seq<AccountInfo>,
    updates: Seq<Option<PriceUpdateV2>>,
    user: Pubkey,
    skip: Seq<Pubkey>,
    now: i64,
)
    requires
        pair.len() == 2,
        updates.len() == 2,
    ensures
        ({
            let (after, walked) = with_others(totals, pair, updates, user, skip, now);
            let counted = counted_position(pair[0], user, skip);
            &&& counted matches Err(refusal) ==> after == totals && walked == Err::<(), _>(refusal)
            &&& counted == Ok::<Option<Position>, MarketError>(None) ==> after == totals
                && walked is Ok
            &&& counted matches Ok(Some(p)) ==> {
                let price = oracle::price_in_account(pair[1].owner, updates[1], now, p.feed_id);
                &&& price matches Err(refusal) ==> after == totals && walked == Err::<(), _>(
                    refusal,
                )
                &&& price matches Ok(quoted) ==> walked is Ok && after == with_position(
                    totals,
                    p.supplied,
                    p.borrowed,
                    quoted,
                    p.decimals,
                    p.max_ltv_bps,
                )
            }
        }),
{
    reveal_with_fuel(with_pairs, 2);
}

} // verus!
