//! Tests of the address derivations against the chain client libraries.

use solana_sdk::pubkey::Pubkey;
use stake_o_matic::addresses::{
    staker_transient_stake_address, staker_transient_stake_address_seed,
};
use stake_o_matic::model::{Address, StakeStatus, ValidatorEntry, ValidatorStake, ValidatorStakeState};
use stake_o_matic::phases::{pool_transient_stake_addresses, remove_validators_from_pool};

fn address_from_pubkey(pk: &Pubkey) -> Address {
    let b = pk.to_bytes();
    Address {
        w0: u64::from_le_bytes(b[0..8].try_into().unwrap()),
        w1: u64::from_le_bytes(b[8..16].try_into().unwrap()),
        w2: u64::from_le_bytes(b[16..24].try_into().unwrap()),
        w3: u64::from_le_bytes(b[24..32].try_into().unwrap()),
    }
}

fn pubkey_from_address(a: &Address) -> Pubkey {
    let mut b = [0u8; 32];
    b[0..8].copy_from_slice(&a.w0.to_le_bytes());
    b[8..16].copy_from_slice(&a.w1.to_le_bytes());
    b[16..24].copy_from_slice(&a.w2.to_le_bytes());
    b[24..32].copy_from_slice(&a.w3.to_le_bytes());
    Pubkey::new_from_array(b)
}

#[test]
fn the_address_words_round_trip() {
    let pk = Pubkey::new_unique();
    let a = address_from_pubkey(&pk);
    assert_eq!(pubkey_from_address(&a), pk);
}

#[test]
fn the_transient_seed_is_the_truncated_vote_text() {
    let vote = Pubkey::new_unique();
    let seed = staker_transient_stake_address_seed(address_from_pubkey(&vote)).unwrap();
    let expected = format!("{}", vote)[..32].to_string();
    assert_eq!(String::from_utf8(seed).unwrap(), expected);
}

#[test]
fn the_staker_transient_address_matches_the_seed_derivation() {
    let staker = Pubkey::new_unique();
    let vote = Pubkey::new_unique();
    let derived = staker_transient_stake_address(
        address_from_pubkey(&staker),
        address_from_pubkey(&vote),
    )
    .unwrap();
    let seed = format!("{}", vote)[..32].to_string();
    let expected =
        Pubkey::create_with_seed(&staker, &seed, &solana_sdk::stake::program::id()).unwrap();
    assert_eq!(pubkey_from_address(&derived), expected);
}

#[test]
fn removal_intents_carry_the_pool_derived_stake_address() {
    let vote = Pubkey::new_unique();
    let pool = Pubkey::new_unique();
    let list = vec![ValidatorEntry {
        vote_account_address: address_from_pubkey(&vote),
        stake_lamports: 5,
        status: StakeStatus::Active,
    }];
    let plan = remove_validators_from_pool(&list, &vec![], 10, &address_from_pubkey(&pool));
    assert_eq!(plan.len(), 1);
    let expected =
        spl_stake_pool::find_stake_program_address(&spl_stake_pool::id(), &vote, &pool, None).0;
    assert_eq!(pubkey_from_address(&plan[0].stake_address), expected);
    assert_eq!(plan[0].decrease_lamports, None);
}

#[test]
fn transient_queries_use_the_pool_derived_transient_address() {
    let vote = Pubkey::new_unique();
    let pool = Pubkey::new_unique();
    let desired = vec![ValidatorStake {
        identity: address_from_pubkey(&Pubkey::new_unique()),
        vote_address: address_from_pubkey(&vote),
        stake_state: ValidatorStakeState::Baseline,
    }];
    let addresses = pool_transient_stake_addresses(&desired, &address_from_pubkey(&pool));
    let expected = spl_stake_pool::find_transient_stake_program_address(
        &spl_stake_pool::id(),
        &vote,
        &pool,
        0,
    )
    .0;
    assert_eq!(addresses.len(), 1);
    assert_eq!(pubkey_from_address(&addresses[0]), expected);
}
