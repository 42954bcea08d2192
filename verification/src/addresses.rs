//! Deterministic derivation of the stake addresses the reconciler works with.
//!
//! Three address families matter: the pool-owned stake account of each
//! validator, the pool's transient stake account used during a split or
//! merge, and the staker's own transient account used while a validator is
//! being added. All three are pure functions of the participating keys; the
//! derivations themselves are done by the chain client libraries.

use vstd::prelude::*;

use crate::model::Address;

verus! {

/// The base58 text of a vote address, as the chain displays it.
pub uninterp spec fn vote_address_text_of(key: Seq<u64>) -> Seq<u8>;

/// The stake account address derived from a base key and a seed, under the
/// stake program.
pub uninterp spec fn seed_address_of(base: Seq<u64>, seed: Seq<u8>) -> Seq<u64>;

/// The pool-owned stake account address for a validator's vote account.
pub uninterp spec fn validator_stake_address_of(vote: Seq<u64>, pool: Seq<u64>) -> Seq<u64>;

/// The pool's transient stake account address for a validator's vote account.
pub uninterp spec fn transient_stake_address_of(vote: Seq<u64>, pool: Seq<u64>) -> Seq<u64>;

#[verifier::external_type_specification]
#[verifier::external_body]
pub struct ExPubkey(solana_sdk::pubkey::Pubkey);

/// Relies on solana_sdk::pubkey::Pubkey::new_from_array: the key whose 32
/// bytes are the address's four words in little-endian order.
#[verifier::external_body]
fn pubkey_of(a: &Address) -> solana_sdk::pubkey::Pubkey {
    let mut b = [0u8; 32];
    b[0..8].copy_from_slice(&a.w0.to_le_bytes());
    b[8..16].copy_from_slice(&a.w1.to_le_bytes());
    b[16..24].copy_from_slice(&a.w2.to_le_bytes());
    b[24..32].copy_from_slice(&a.w3.to_le_bytes());
    solana_sdk::pubkey::Pubkey::new_from_array(b)
}

/// Relies on solana_sdk::pubkey::Pubkey::to_bytes: the key's 32 bytes, read
/// back as four little-endian words.
#[verifier::external_body]
fn address_of(k: &solana_sdk::pubkey::Pubkey) -> Address {
    let b = k.to_bytes();
    Address {
        w0: u64::from_le_bytes(b[0..8].try_into().unwrap()),
        w1: u64::from_le_bytes(b[8..16].try_into().unwrap()),
        w2: u64::from_le_bytes(b[16..24].try_into().unwrap()),
        w3: u64::from_le_bytes(b[24..32].try_into().unwrap()),
    }
}

/// Relies on the Display impl of solana_sdk::pubkey::Pubkey: the base58 text
/// of the key's bytes, a pure function of them, drawn from an alphabet of
/// ASCII characters.
#[verifier::external_body]
fn vote_address_text(vote: &Address) -> (r: Vec<u8>)
    ensures
        r@ == vote_address_text_of(vote@),
        forall|i: int| 0 <= i < r@.len() ==> r@[i] < 128,
{
    format!("{}", pubkey_of(vote)).into_bytes()
}

/// Relies on solana_sdk::pubkey::Pubkey::create_with_seed with the stake
/// program as owner: the derived address is a pure function of the base key
/// and the seed text; derivation succeeds whenever the seed is valid text of
/// at most 32 bytes (the stake program's id does not end in the marker bytes
/// that the derivation refuses as owner).
#[verifier::external_body]
fn derived_stake_address(base: &Address, seed: &Vec<u8>) -> (r: Option<Address>)
    ensures
        r matches Some(a) ==> a@ == seed_address_of(base@, seed@),
        (seed@.len() <= 32 && forall|i: int| 0 <= i < seed@.len() ==> seed@[i] < 128) ==> r
            is Some,
{
    let seed_text = match std::str::from_utf8(seed.as_slice()) {
        Ok(s) => s,
        Err(_) => {
            return None;
        },
    };
    match solana_sdk::pubkey::Pubkey::create_with_seed(
        &pubkey_of(base),
        seed_text,
        &solana_sdk::stake::program::id(),
    ) {
        Ok(pk) => Some(address_of(&pk)),
        Err(_) => None,
    }
}

/// Relies on spl_stake_pool::find_stake_program_address under the pool
/// program's id, without a validator seed suffix: a pure function of the vote
/// account and the pool address.
#[verifier::external_body]
pub(crate) fn find_validator_stake_address(vote: &Address, stake_pool_address: &Address) -> (r:
    Address)
    ensures
        r@ == validator_stake_address_of(vote@, stake_pool_address@),
{
    let (pk, _bump) = spl_stake_pool::find_stake_program_address(
        &spl_stake_pool::id(),
        &pubkey_of(vote),
        &pubkey_of(stake_pool_address),
        None,
    );
    address_of(&pk)
}

/// Relies on spl_stake_pool::find_transient_stake_program_address under the
/// pool program's id, with seed suffix zero: a pure function of the vote
/// account and the pool address.
#[verifier::external_body]
pub(crate) fn find_transient_stake_address(vote: &Address, stake_pool_address: &Address) -> (r:
    Address)
    ensures
        r@ == transient_stake_address_of(vote@, stake_pool_address@),
{
    let (pk, _bump) = spl_stake_pool::find_transient_stake_program_address(
        &spl_stake_pool::id(),
        &pubkey_of(vote),
        &pubkey_of(stake_pool_address),
        0,
    );
    address_of(&pk)
}

/// The seed for the staker's transient stake account: the first 32 bytes of
/// the vote address's base58 text. Yields nothing in the (never observed)
/// case of a shorter text.
pub fn staker_transient_stake_address_seed(vote_address: Address) -> (r: Option<Vec<u8>>)
    ensures
        vote_address_text_of(vote_address@).len() >= 32 ==> (r matches Some(s) && s@
            == vote_address_text_of(vote_address@).subrange(0, 32)),
        vote_address_text_of(vote_address@).len() < 32 ==> r is None,
        r matches Some(s) ==> s@.len() == 32 && forall|i: int| 0 <= i < s@.len() ==> s@[i] < 128,
{
    let text = vote_address_text(&vote_address);
    if text.len() < 32 {
        None
    } else {
        let mut seed: Vec<u8> = Vec::new();
        let mut i: usize = 0;
        while i < 32
            invariant
                0 <= i <= 32,
                text@.len() >= 32,
                forall|j: int| 0 <= j < text@.len() ==> text@[j] < 128,
                seed@ == text@.subrange(0, i as int),
            decreases 32 - i,
        {
            seed.push(text[i]);
            proof {
                assert(seed@ =~= text@.subrange(0, (i + 1) as int));
            }
            i = i + 1;
        }
        Some(seed)
    }
}

/// The staker's transient stake account for a validator being added.
///
/// When adding a new validator to the pool, a validator stake account is
/// created with the rent-exempt amount plus the enforced minimum balance and
/// delegated to the vote address. Separately, the pool enforces that a newly
/// added validator stake account holds exactly that amount; the rewards the
/// account earned while activating are first split off into this
/// deterministically derived, recoverable account.
pub fn staker_transient_stake_address(authorized_staker: Address, vote_address: Address) -> (r:
    Option<Address>)
    ensures
        vote_address_text_of(vote_address@).len() >= 32 ==> (r matches Some(a) && a@
            == seed_address_of(
            authorized_staker@,
            vote_address_text_of(vote_address@).subrange(0, 32),
        )),
        vote_address_text_of(vote_address@).len() < 32 ==> r is None,
{
    match staker_transient_stake_address_seed(vote_address) {
        None => None,
        Some(seed) => derived_stake_address(&authorized_staker, &seed),
    }
}

} // verus!
