//! Setting markets up, and their test-token faucets.

use crate::chain;
use crate::chain::{Clock, MintTo};
use crate::errors::{ClaimError, MarketError};
use crate::keys::Pubkey;
use crate::state::{
    ClaimReceipt, FaucetClaimed, Market, BPS_DENOMINATOR, CLAIM_SEED, RATE_SCALE_E18,
};
use vstd::prelude::*;

verus! {

/// What `initialize_market` is called with.
#[derive(Clone, Copy, Debug, PartialEq, Eq)]
pub struct InitializeMarket {
    pub admin: Pubkey,
    pub mint: Pubkey,
    pub market_bump: u8,
    pub authority_bump: u8,
}

/// What `set_claim_amount` is called with: the caller, and the market.
#[derive(Clone, Copy, Debug, PartialEq, Eq)]
pub struct AdminUpdate {
    pub admin: Pubkey,
    pub market: Market,
}

/// What `claim_faucet` is called with.
#[derive(Clone, Copy, Debug, PartialEq, Eq)]
pub struct ClaimFaucet {
    pub user: Pubkey,
    pub market: Market,
    pub mint: Pubkey,
    pub authority: Pubkey,
    pub recipient_ata: Pubkey,
    /// The receipt at the address that the user and the mint derive, if it is
    /// open.
    pub receipt: Option<ClaimReceipt>,
    pub receipt_bump: u8,
}

/// A claim that holds once its tokens are minted: the tokens to mint, and what
/// is then recorded or why the claim is refused after all.
#[derive(Clone, Copy, Debug, PartialEq, Eq)]
pub struct PendingClaim {
    pub mint_to: MintTo,
    pub settled: Result<ClaimUpdate, MarketError>,
}

/// What a claim records.
#[derive(Clone, Copy, Debug, PartialEq, Eq)]
pub struct ClaimUpdate {
    pub market: Market,
    pub receipt: ClaimReceipt,
    pub event: FaucetClaimed,
}

/// The market that a request creates, or why it creates none.
pub open spec fn initial_market(
    ctx: InitializeMarket,
    amount_per_claim: u64,
    max_ltv_bps: u16,
    feed_id: [u8; 32],
    borrow_rate_per_slot_e18: u64,
    clock: Clock,
) -> Result<Market, MarketError> {
    if 0 < max_ltv_bps < BPS_DENOMINATOR {
        Ok(
            Market {
                admin: ctx.admin,
                mint: ctx.mint,
                amount_per_claim,
                max_ltv_bps,
                feed_id,
                borrow_rate_per_slot_e18,
                borrow_index_e18: RATE_SCALE_E18,
                last_update_slot: clock.slot,
                total_supplied: 0,
                total_borrowed: 0,
                claim_count: 0,
                bump: ctx.market_bump,
                authority_bump: ctx.authority_bump,
            },
        )
    } else {
        Err(MarketError::BadLtv)
    }
}

/// Creates a market: the per-market config (faucet amount, LTV, price feed id,
/// rate) with an index of one and empty totals.
pub fn initialize_market(
    ctx: &InitializeMarket,
    amount_per_claim: u64,
    max_ltv_bps: u16,
    feed_id: [u8; 32],
    borrow_rate_per_slot_e18: u64,
    clock: &Clock,
) -> (created: Result<Market, MarketError>)
    ensures
        !(0 < max_ltv_bps < BPS_DENOMINATOR) ==> created == Err::<Market, _>(MarketError::BadLtv),
        0 < max_ltv_bps < BPS_DENOMINATOR ==> created == Ok::<_, MarketError>(
            Market {
                admin: ctx.admin,
                mint: ctx.mint,
                amount_per_claim,
                max_ltv_bps,
                feed_id,
                borrow_rate_per_slot_e18,
                borrow_index_e18: RATE_SCALE_E18,
                last_update_slot: clock.slot,
                total_supplied: 0,
                total_borrowed: 0,
                claim_count: 0,
                bump: ctx.market_bump,
                authority_bump: ctx.authority_bump,
            },
        ),
        created matches Ok(market) ==> market.wf(),
        created == initial_market(
            *ctx,
            amount_per_claim,
            max_ltv_bps,
            feed_id,
            borrow_rate_per_slot_e18,
            *clock,
        ),
{
    if !(max_ltv_bps > 0 && (max_ltv_bps as u128) < BPS_DENOMINATOR) {
        return Err(MarketError::BadLtv);
    }
    Ok(
        Market {
            admin: ctx.admin,
            mint: ctx.mint,
            amount_per_claim,
            max_ltv_bps,
            feed_id,
            borrow_rate_per_slot_e18,
            borrow_index_e18: RATE_SCALE_E18,
            last_update_slot: clock.slot,
            total_supplied: 0,
            total_borrowed: 0,
            claim_count: 0,
            bump: ctx.market_bump,
            authority_bump: ctx.authority_bump,
        },
    )
}

/// `market` with a faucet that gives `amount` per claim.
pub open spec fn with_claim_amount(market: Market, amount: u64) -> Market {
    Market { amount_per_claim: amount, ..market }
}

/// What setting the claim amount comes to.
pub open spec fn set_claim_outcome(ctx: AdminUpdate, amount: u64) -> Result<Market, MarketError> {
    if ctx.market.admin == ctx.admin {
        Ok(with_claim_amount(ctx.market, amount))
    } else {
        Err(MarketError::NotAdmin)
    }
}

/// Sets what the faucet gives per claim. Only the market's admin may.
pub fn set_claim_amount(ctx: &AdminUpdate, amount: u64) -> (updated: Result<Market, MarketError>)
    ensures
        ctx.market.admin != ctx.admin ==> updated == Err::<Market, _>(MarketError::NotAdmin),
        ctx.market.admin == ctx.admin ==> updated == Ok::<_, MarketError>(
            with_claim_amount(ctx.market, amount),
        ),
        updated == set_claim_outcome(*ctx, amount),
{
    if ctx.market.admin != ctx.admin {
        return Err(MarketError::NotAdmin);
    }
    let mut market = ctx.market;
    market.amount_per_claim = amount;
    Ok(market)
}

/// What a claim of `ctx.user` records at `clock`, once its tokens are minted.
pub open spec fn settled_claim(ctx: ClaimFaucet, clock: Clock) -> Result<ClaimUpdate, MarketError> {
    if ctx.market.claim_count == u64::MAX {
        Err(MarketError::Overflow)
    } else {
        Ok(
            ClaimUpdate {
                market: Market { claim_count: (ctx.market.claim_count + 1) as u64, ..ctx.market },
                receipt: ClaimReceipt {
                    user: ctx.user,
                    mint: ctx.market.mint,
                    amount: ctx.market.amount_per_claim,
                    claimed_at: clock.unix_timestamp,
                    bump: ctx.receipt_bump,
                },
                event: FaucetClaimed {
                    user: ctx.user,
                    mint: ctx.market.mint,
                    amount: ctx.market.amount_per_claim,
                    claimed_at: clock.unix_timestamp,
                },
            },
        )
    }
}

/// What a claim comes to: the tokens to mint and what is then recorded, or why
/// it is refused before any are minted.
pub open spec fn decided_claim(ctx: ClaimFaucet, clock: Clock) -> Result<PendingClaim, ClaimError> {
    if ctx.receipt is Some {
        Err(ClaimError::AlreadyClaimed)
    } else if ctx.mint != ctx.market.mint {
        Err(ClaimError::Market(MarketError::MintMismatch))
    } else {
        Ok(
            PendingClaim {
                mint_to: MintTo {
                    mint: ctx.mint,
                    to: ctx.recipient_ata,
                    authority: ctx.authority,
                    amount: ctx.market.amount_per_claim,
                    signer: chain::authority_of(ctx.market),
                },
                settled: settled_claim(ctx, clock),
            },
        )
    }
}

/// Mints `amount_per_claim` of this market's test token to the caller. One
/// claim per (wallet, mint): a user whose receipt is open is refused.
pub fn claim_faucet(ctx: &ClaimFaucet, clock: &Clock) -> (claim: Result<PendingClaim, ClaimError>)
    ensures
        claim == decided_claim(*ctx, *clock),
{
    if ctx.receipt.is_some() {
        return Err(ClaimError::AlreadyClaimed);
    }
    if ctx.mint != ctx.market.mint {
        return Err(ClaimError::Market(MarketError::MintMismatch));
    }
    let amount: u64 = ctx.market.amount_per_claim;
    let mint_to = MintTo {
        mint: ctx.mint,
        to: ctx.recipient_ata,
        authority: ctx.authority,
        amount,
        signer: chain::authority_seeds(&ctx.market),
    };
    let settled = match ctx.market.claim_count.checked_add(1) {
        None => Err(MarketError::Overflow),
        Some(claim_count) => {
            let mut market = ctx.market;
            market.claim_count = claim_count;
            let claimed_at: i64 = clock.unix_timestamp;
            let mint = market.mint;
            Ok(
                ClaimUpdate {
                    market,
                    receipt: ClaimReceipt {
                        user: ctx.user,
                        mint,
                        amount,
                        claimed_at,
                        bump: ctx.receipt_bump,
                    },
                    event: FaucetClaimed { user: ctx.user, mint, amount, claimed_at },
                },
            )
        },
    };
    Ok(PendingClaim { mint_to, settled })
}

/// `a` and `b` have the same terms, index and totals.
pub open spec fn lends_alike(a: Market, b: Market) -> bool {
    b == (Market { amount_per_claim: b.amount_per_claim, claim_count: b.claim_count, ..a })
}

/// Neither a new faucet amount nor a claim touches what the market lends: its
/// terms, its index and its totals.
pub proof fn law_faucet_leaves_lending_alone(ctx: ClaimFaucet, amount: u64, clock: Clock)
    ensures
        lends_alike(ctx.market, with_claim_amount(ctx.market, amount)),
        settled_claim(ctx, clock) matches Ok(update) ==> lends_alike(ctx.market, update.market),
{
}

// Receipts.

/// What the address of a receipt is derived from, seed by seed: `claim`, the
/// user and the mint.
pub open spec fn receipt_parts(user: Pubkey, mint: Pubkey) -> Seq<Seq<u8>> {
    seq![CLAIM_SEED@, user.bytes@, mint.bytes@]
}

/// The seeds of the receipt of `user` for `mint`.
pub fn receipt_seeds(user: &Pubkey, mint: &Pubkey) -> (parts: Vec<Vec<u8>>)
    ensures
        parts.deep_view() == receipt_parts(*user, *mint),
{
    let seed: [u8; 5] = CLAIM_SEED;
    let mut parts: Vec<Vec<u8>> = Vec::new();
    parts.push(chain::bytes_to_vec(&seed));
    parts.push(chain::bytes_to_vec(&user.bytes));
    parts.push(chain::bytes_to_vec(&mint.bytes));
    assert(parts.deep_view() =~~= receipt_parts(*user, *mint));
    parts
}

/// Receipts have the same seeds exactly where both the user and the mint are
/// the same, seed by seed and with the seeds joined, as an address is derived
/// from them.
pub proof fn law_receipts_are_told_apart(a: Pubkey, a_mint: Pubkey, b: Pubkey, b_mint: Pubkey)
    ensures
        receipt_parts(a, a_mint) == receipt_parts(b, b_mint) <==> a == b && a_mint == b_mint,
        CLAIM_SEED@ + a.bytes@ + a_mint.bytes@ == CLAIM_SEED@ + b.bytes@ + b_mint.bytes@ <==> a == b
            && a_mint == b_mint,
{
    let x = receipt_parts(a, a_mint);
    let y = receipt_parts(b, b_mint);
    assert(x[1] == a.bytes@ && x[2] == a_mint.bytes@);
    assert(y[1] == b.bytes@ && y[2] == b_mint.bytes@);
    if x == y {
        assert(a.bytes =~= b.bytes);
        assert(a_mint.bytes =~= b_mint.bytes);
    }
    let s = CLAIM_SEED@ + a.bytes@ + a_mint.bytes@;
    let t = CLAIM_SEED@ + b.bytes@ + b_mint.bytes@;
    assert(s.subrange(5, 37) =~= a.bytes@ && s.subrange(37, 69) =~= a_mint.bytes@);
    assert(t.subrange(5, 37) =~= b.bytes@ && t.subrange(37, 69) =~= b_mint.bytes@);
    if s == t {
        assert(a.bytes =~= b.bytes);
        assert(a_mint.bytes =~= b_mint.bytes);
    }
}

/// The claim is granted: its tokens are minted and it is recorded.
pub open spec fn granted(ctx: ClaimFaucet, clock: Clock) -> bool {
    decided_claim(ctx, clock) matches Ok(pending) && pending.settled is Ok
}

/// The receipt of `user` for `mint` among the open ones, which are found by
/// their seeds.
pub open spec fn receipt_held(
    receipts: Map<Seq<Seq<u8>>, ClaimReceipt>,
    user: Pubkey,
    mint: Pubkey,
) -> Option<ClaimReceipt> {
    if receipts.contains_key(receipt_parts(user, mint)) {
        Some(receipts[receipt_parts(user, mint)])
    } else {
        None
    }
}

/// The open receipts after a claim: one more where it is granted.
pub open spec fn receipts_after(
    receipts: Map<Seq<Seq<u8>>, ClaimReceipt>,
    ctx: ClaimFaucet,
    clock: Clock,
) -> Map<Seq<Seq<u8>>, ClaimReceipt> {
    if granted(ctx, clock) {
        receipts.insert(
            receipt_parts(ctx.user, ctx.mint),
            decided_claim(ctx, clock)->Ok_0.settled->Ok_0.receipt,
        )
    } else {
        receipts
    }
}

/// The open receipts after a history of claims.
pub open spec fn receipts_of(history: Seq<(ClaimFaucet, Clock)>) -> Map<Seq<Seq<u8>>, ClaimReceipt>
    decreases history.len(),
{
    if history.len() == 0 {
        Map::empty()
    } else {
        receipts_after(receipts_of(history.drop_last()), history.last().0, history.last().1)
    }
}

/// Each claim of the history was made with the receipt that was then open.
pub open spec fn made_in_turn(history: Seq<(ClaimFaucet, Clock)>) -> bool {
    forall|i: int|
        0 <= i < history.len() ==> (#[trigger] history[i]).0.receipt == receipt_held(
            receipts_of(history.take(i)),
            history[i].0.user,
            history[i].0.mint,
        )
}

/// A granted claim's receipt stays open, and as it was recorded, through all
/// that follows.
proof fn lemma_receipt_stays(history: Seq<(ClaimFaucet, Clock)>, i: int, n: int)
    requires
        made_in_turn(history),
        0 <= i < n <= history.len(),
        granted(history[i].0, history[i].1),
    ensures
        receipt_held(receipts_of(history.take(n)), history[i].0.user, history[i].0.mint) == Some(
            decided_claim(history[i].0, history[i].1)->Ok_0.settled->Ok_0.receipt,
        ),
    decreases n,
{
    let (ctx, clock) = history[n - 1];
    assert(history.take(n).drop_last() =~= history.take(n - 1));
    assert(history.take(n).last() == history[n - 1]);
    if n > i + 1 {
        lemma_receipt_stays(history, i, n - 1);
        assert(ctx.receipt == receipt_held(receipts_of(history.take(n - 1)), ctx.user, ctx.mint));
    }
}

/// One claim per (wallet, mint): in any history of claims, one that follows a
/// granted claim of the same user for the same mint is refused, so that nothing
/// is minted or counted for it, and the receipts stay as they were.
pub proof fn law_one_claim_per_wallet_and_mint(
    history: Seq<(ClaimFaucet, Clock)>,
    i: int,
    j: int,
)
    requires
        made_in_turn(history),
        0 <= i < j < history.len(),
        granted(history[i].0, history[i].1),
        history[j].0.user == history[i].0.user,
        history[j].0.mint == history[i].0.mint,
    ensures
        decided_claim(history[j].0, history[j].1) == Err::<PendingClaim, _>(
            ClaimError::AlreadyClaimed,
        ),
        history[j].0.receipt == Some(
            decided_claim(history[i].0, history[i].1)->Ok_0.settled->Ok_0.receipt,
        ),
        receipts_of(history.take(j + 1)) == receipts_of(history.take(j)),
{
    lemma_receipt_stays(history, i, j);
    assert(history[j].0.receipt == receipt_held(
        receipts_of(history.take(j)),
        history[j].0.user,
        history[j].0.mint,
    ));
    assert(history.take(j + 1).drop_last() =~= history.take(j));
    assert(history.take(j + 1).last() == history[j]);
}

/// A claim leaves every other user's receipts, and the user's own for other
/// mints, as they were: it stands in nobody else's way.
pub proof fn law_claims_leave_others_alone(
    receipts: Map<Seq<Seq<u8>>, ClaimReceipt>,
    ctx: ClaimFaucet,
    clock: Clock,
    user: Pubkey,
    mint: Pubkey,
)
    requires
        user != ctx.user || mint != ctx.mint,
    ensures
        receipt_held(receipts_after(receipts, ctx, clock), user, mint) == receipt_held(
            receipts,
            user,
            mint,
        ),
{
    law_receipts_are_told_apart(user, mint, ctx.user, ctx.mint);
}

// What the instructions do.

/// A market is created exactly where its limit is between 1 and 9999 basis
/// points, on the terms asked for, for the admin who asks. Its index is one, as of
/// now; nothing is supplied, borrowed or claimed yet.
pub proof fn law_market_starts_empty_on_its_terms(
    ctx: InitializeMarket,
    amount_per_claim: u64,
    max_ltv_bps: u16,
    feed_id: [u8; 32],
    borrow_rate_per_slot_e18: u64,
    clock: Clock,
)
    ensures
        ({
            let created = initial_market(
                ctx,
                amount_per_claim,
                max_ltv_bps,
                feed_id,
                borrow_rate_per_slot_e18,
                clock,
            );
            &&& created is Ok <==> 1 <= max_ltv_bps <= 9_999
            &&& created is Err ==> created->Err_0 == MarketError::BadLtv
            &&& created matches Ok(market) ==> {
                &&& market.admin == ctx.admin
                &&& market.mint == ctx.mint
                &&& market.amount_per_claim == amount_per_claim
                &&& market.max_ltv_bps == max_ltv_bps
                &&& market.feed_id == feed_id
                &&& market.borrow_rate_per_slot_e18 == borrow_rate_per_slot_e18
                &&& market.borrow_index_e18 == 1_000_000_000_000_000_000
                &&& market.last_update_slot == clock.slot
                &&& market.total_supplied == 0
                &&& market.total_borrowed == 0
                &&& market.claim_count == 0
                &&& market.bump == ctx.market_bump
                &&& market.authority_bump == ctx.authority_bump
            }
        }),
{
}

/// The admin, and nobody else, sets the claim amount, and nothing else with it.
pub proof fn law_claim_amount_is_what_the_admin_set(ctx: AdminUpdate, amount: u64)
    ensures
        ({
            let outcome = set_claim_outcome(ctx, amount);
            &&& outcome is Ok <==> ctx.market.admin == ctx.admin
            &&& outcome is Err ==> outcome->Err_0 == MarketError::NotAdmin
            &&& outcome matches Ok(after) ==> {
                &&& after.amount_per_claim == amount
                &&& after == (Market { amount_per_claim: after.amount_per_claim, ..ctx.market })
            }
        }),
{
}

/// A claim is refused where the user has claimed before, and else where the mint
/// is not the market's; no other is. It mints the market's claim amount to the
/// user's account on the market's authority. What it then records is one claim
/// more, and a receipt and an event of just that amount, user, mint and time; it
/// records nothing where claims can no longer be counted.
pub proof fn law_claim_gives_the_claim_amount_once(ctx: ClaimFaucet, clock: Clock)
    ensures
        ({
            let claim = decided_claim(ctx, clock);
            &&& claim == Err::<PendingClaim, _>(ClaimError::AlreadyClaimed) <==> ctx.receipt is Some
            &&& claim == Err::<PendingClaim, _>(ClaimError::Market(MarketError::MintMismatch))
                <==> ctx.receipt is None && ctx.mint != ctx.market.mint
            &&& claim is Ok <==> ctx.receipt is None && ctx.mint == ctx.market.mint
            &&& claim matches Ok(pending) ==> {
                let mint_to = pending.mint_to;
                &&& mint_to.mint == ctx.market.mint
                &&& mint_to.to == ctx.recipient_ata
                &&& mint_to.authority == ctx.authority
                &&& mint_to.amount == ctx.market.amount_per_claim
                &&& mint_to.signer.mint == ctx.market.mint
                &&& mint_to.signer.bump == ctx.market.authority_bump
                &&& pending.settled is Err <==> ctx.market.claim_count == u64::MAX
                &&& pending.settled is Err ==> pending.settled == Err::<ClaimUpdate, _>(
                    MarketError::Overflow,
                )
                &&& pending.settled matches Ok(update) ==> {
                    &&& update.market.claim_count == ctx.market.claim_count + 1
                    &&& update.market == (Market {
                        claim_count: update.market.claim_count,
                        ..ctx.market
                    })
                    &&& update.receipt.user == ctx.user
                    &&& update.receipt.mint == ctx.mint
                    &&& update.receipt.amount == mint_to.amount
                    &&& update.receipt.claimed_at == clock.unix_timestamp
                    &&& update.receipt.bump == ctx.receipt_bump
                    &&& update.event.user == ctx.user
                    &&& update.event.mint == ctx.mint
                    &&& update.event.amount == mint_to.amount
                    &&& update.event.claimed_at == clock.unix_timestamp
                }
            }
        }),
{
}

/// A receipt is found by `claim`, its user and its mint.
pub proof fn law_receipt_is_found_by_user_and_mint(user: Pubkey, mint: Pubkey)
    ensures
        receipt_parts(user, mint) == seq![
            seq![99u8, 108, 97, 105, 109],
            user.bytes@,
            mint.bytes@,
        ],
{
    assert(CLAIM_SEED@ =~= seq![99u8, 108, 97, 105, 109]);
}

} // verus!
