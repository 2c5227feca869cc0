//! What the runtime hands to the program, and what the program asks the token
//! program to do.

use crate::keys::Pubkey;
use crate::state::{Market, AUTH_SEED};
use vstd::prelude::*;

verus! {

/// The network's time.
#[derive(Clone, Copy, Debug, PartialEq, Eq)]
pub struct Clock {
    pub slot: u64,
    pub epoch_start_timestamp: i64,
    pub epoch: u64,
    pub leader_schedule_epoch: u64,
    pub unix_timestamp: i64,
}

/// A token account as the token program keeps it.
#[derive(Clone, Copy, Debug, PartialEq, Eq)]
pub struct TokenAccount {
    pub key: Pubkey,
    pub mint: Pubkey,
    pub owner: Pubkey,
    pub amount: u64,
}

/// An account that comes along unchecked: its address, the program that owns
/// it, and its bytes.
#[derive(Debug)]
pub struct AccountInfo {
    pub key: Pubkey,
    pub owner: Pubkey,
    pub data: Vec<u8>,
}

/// What a market's authority signs with.
#[derive(Clone, Copy, Debug, PartialEq, Eq)]
pub struct AuthoritySeeds {
    pub mint: Pubkey,
    pub bump: u8,
}

/// A request to move tokens. `signer` is there where the authority is the
/// program's own, and not there where the authority signed the transaction.
#[derive(Clone, Copy, Debug, PartialEq, Eq)]
pub struct Transfer {
    pub from: Pubkey,
    pub to: Pubkey,
    pub authority: Pubkey,
    pub amount: u64,
    pub signer: Option<AuthoritySeeds>,
}

/// A request to mint tokens, which the market's authority signs.
#[derive(Clone, Copy, Debug, PartialEq, Eq)]
pub struct MintTo {
    pub mint: Pubkey,
    pub to: Pubkey,
    pub authority: Pubkey,
    pub amount: u64,
    pub signer: AuthoritySeeds,
}

/// The seeds that `market`'s authority signs with.
pub open spec fn authority_of(market: Market) -> AuthoritySeeds {
    AuthoritySeeds { mint: market.mint, bump: market.authority_bump }
}

/// The seeds that `market`'s authority signs with.
pub fn authority_seeds(market: &Market) -> (signer: AuthoritySeeds)
    ensures
        signer == authority_of(*market),
{
    AuthoritySeeds { mint: market.mint, bump: market.authority_bump }
}

impl AuthoritySeeds {
    /// The seeds one by one: `auth`, the mint, and the bump.
    pub open spec fn parts(self) -> Seq<Seq<u8>> {
        seq![AUTH_SEED@, self.mint.bytes@, seq![self.bump]]
    }

    /// The seeds one by one: `auth`, the mint, and the bump.
    pub fn to_vecs(&self) -> (parts: Vec<Vec<u8>>)
        ensures
            parts.deep_view() == self.parts(),
    {
        let seed: [u8; 4] = AUTH_SEED;
        let mut parts: Vec<Vec<u8>> = Vec::new();
        parts.push(bytes_to_vec(&seed));
        parts.push(bytes_to_vec(&self.mint.bytes));
        let mut bump: Vec<u8> = Vec::new();
        bump.push(self.bump);
        parts.push(bump);
        assert(parts.deep_view() =~~= self.parts());
        parts
    }
}

/// The bytes of an array, in a vector.
pub(crate) fn bytes_to_vec<const N: usize>(bytes: &[u8; N]) -> (copy: Vec<u8>)
    ensures
        copy@ == bytes@,
{
    let mut copy: Vec<u8> = Vec::new();
    let mut i: usize = 0;
    while i < N
        invariant
            i <= N,
            copy@ == bytes@.take(i as int),
        decreases N - i,
    {
        copy.push(bytes[i]);
        assert(copy@ =~= bytes@.take(i + 1));
        i = i + 1;
    }
    assert(bytes@.take(N as int) =~= bytes@);
    copy
}

/// A market's authority signs with `auth`, the market's mint and the bump that
/// the market keeps for it.
pub proof fn law_authority_signs_for_its_market(market: Market)
    ensures
        authority_of(market).mint == market.mint,
        authority_of(market).bump == market.authority_bump,
        authority_of(market).parts() == seq![
            seq![97u8, 117, 116, 104],
            market.mint.bytes@,
            seq![market.authority_bump],
        ],
{
    assert(AUTH_SEED@ =~= seq![97u8, 117, 116, 104]);
}

} // verus!
