//! The reconciliation engine: configuration, the held pool snapshot, and the
//! per-run decisions that do not belong to a single phase.
//!
//! The engine holds no live chain handles. Its caller reads accounts, decodes
//! them into the plain snapshot types, submits the planned intents, and
//! reports each batch's outcome back; everything decided in between is here.

use vstd::prelude::*;

use crate::errors::Error;
use crate::errors::Phase;
use crate::model::Address;
use crate::model::PoolHeader;
use crate::model::ValidatorEntry;
use crate::model::ValidatorStake;
use crate::model::ValidatorStakeState;
use crate::MIN_STAKE_CHANGE_AMOUNT;

verus! {

/// The stake pool reconciliation engine.
pub struct StakePoolOMatic {
    /// The staker authority that signs every planned transaction.
    pub authorized_staker: Address,
    /// The lamports a baseline-tier validator is funded with.
    pub baseline_stake_amount: u64,
    /// The pool account's address.
    pub stake_pool_address: Address,
    /// The pool header as last read from the chain.
    pub stake_pool: PoolHeader,
    /// The pool's validator list as last read from the chain.
    pub validator_list: Vec<ValidatorEntry>,
}

/// Construct the engine from a decoded pool snapshot.
///
/// Refuses a baseline amount below the minimum worthwhile stake change: such
/// a baseline could never be funded by an adjustment the engine is willing
/// to issue.
pub fn new(
    authorized_staker: Address,
    stake_pool_address: Address,
    baseline_stake_amount: u64,
    stake_pool: PoolHeader,
    validator_list: Vec<ValidatorEntry>,
) -> (r: Result<StakePoolOMatic, Error>)
    ensures
        baseline_stake_amount < MIN_STAKE_CHANGE_AMOUNT ==> (r matches Err(e) && e
            == Error::BaselineTooSmall),
        baseline_stake_amount >= MIN_STAKE_CHANGE_AMOUNT ==> (r matches Ok(engine) && {
            &&& engine.authorized_staker == authorized_staker
            &&& engine.baseline_stake_amount == baseline_stake_amount
            &&& engine.stake_pool_address == stake_pool_address
            &&& engine.stake_pool == stake_pool
            &&& engine.validator_list@ == validator_list@
        }),
{
    if baseline_stake_amount < MIN_STAKE_CHANGE_AMOUNT {
        return Err(Error::BaselineTooSmall);
    }
    Ok(
        StakePoolOMatic {
            authorized_staker,
            baseline_stake_amount,
            stake_pool_address,
            stake_pool,
            validator_list,
        },
    )
}

impl StakePoolOMatic {
    /// Install a freshly read pool header and validator list.
    ///
    /// The caller re-reads both accounts from the chain and decodes them;
    /// this replaces the engine's snapshot and nothing else.
    pub fn update(&mut self, stake_pool: PoolHeader, validator_list: Vec<ValidatorEntry>)
        ensures
            final (self).stake_pool == stake_pool,
            final (self).validator_list@ == validator_list@,
            final (self).authorized_staker == old(self).authorized_staker,
            final (self).baseline_stake_amount == old(self).baseline_stake_amount,
            final (self).stake_pool_address == old(self).stake_pool_address,
    {
        self.stake_pool = stake_pool;
        self.validator_list = validator_list;
    }

    /// Settle the per-epoch pool accounting update and install the snapshot
    /// read after it.
    ///
    /// The pool update runs as two batches with a strict order: every list
    /// chunk must confirm before the single balance transaction is sent.
    /// `chunk_failures` and `balance_failures` are the failed-transaction
    /// counts of the two batches. Any failure aborts the run and leaves the
    /// snapshot as it was.
    pub fn epoch_update(
        &mut self,
        chunk_failures: usize,
        balance_failures: usize,
        stake_pool: PoolHeader,
        validator_list: Vec<ValidatorEntry>,
    ) -> (r: Result<(), Error>)
        ensures
            chunk_failures == 0 && balance_failures == 0 ==> (r matches Ok(()) && final (self).stake_pool
                == stake_pool && final (self).validator_list@ == validator_list@),
            !(chunk_failures == 0 && balance_failures == 0) ==> (r matches Err(e) && e
                == Error::TransactionsFailed(Phase::PoolUpdate) && *final (self) == *old(self)),
            final (self).authorized_staker == old(self).authorized_staker,
            final (self).baseline_stake_amount == old(self).baseline_stake_amount,
            final (self).stake_pool_address == old(self).stake_pool_address,
    {
        if chunk_failures != 0 || balance_failures != 0 {
            return Err(Error::TransactionsFailed(Phase::PoolUpdate));
        }
        self.update(stake_pool, validator_list);
        Ok(())
    }
}

/// Judge one phase's batch outcome: a batch with any failed transaction
/// aborts the run with an error naming the phase.
pub fn confirm_batch(phase: Phase, failed_transactions: usize) -> (r: Result<(), Error>)
    ensures
        failed_transactions == 0 ==> r matches Ok(()),
        failed_transactions != 0 ==> (r matches Err(e) && e == Error::TransactionsFailed(phase)),
{
    if failed_transactions == 0 {
        Ok(())
    } else {
        Err(Error::TransactionsFailed(phase))
    }
}

/// Reject a reconciliation mode the engine does not offer: a dry run is
/// reserved but not available.
pub fn check_reconcile_mode(dry_run: bool) -> (r: Result<(), Error>)
    ensures
        dry_run ==> (r matches Err(e) && e == Error::Unsupported),
        !dry_run ==> r matches Ok(()),
{
    if dry_run {
        Err(Error::Unsupported)
    } else {
        Ok(())
    }
}

/// How many desired validators sit in the tier.
pub open spec fn tier_count(desired: Seq<ValidatorStake>, tier: ValidatorStakeState) -> int {
    desired.filter(|v: ValidatorStake| v.stake_state == tier).len() as int
}

/// The bonus amount each bonus-tier validator is owed: the stake left over
/// once every baseline validator is funded, divided evenly.
pub open spec fn bonus_amount_of(
    total_stake_lamports: u64,
    baseline_stake_amount: u64,
    desired: Seq<ValidatorStake>,
) -> int {
    let bonus_nodes = tier_count(desired, ValidatorStakeState::Bonus);
    if bonus_nodes == 0 {
        0
    } else {
        (total_stake_lamports - tier_count(desired, ValidatorStakeState::Baseline)
            * baseline_stake_amount) / bonus_nodes
    }
}

/// Compute the per-validator bonus amount for the distribution phase, after
/// checking that the pool can honor its baseline promises.
///
/// Fails fast when the pool's total stake does not cover one baseline amount
/// per baseline-tier validator; no distribution is attempted then.
pub fn bonus_stake_amount(
    total_stake_lamports: u64,
    baseline_stake_amount: u64,
    desired: &Vec<ValidatorStake>,
) -> (r: Result<u64, Error>)
    ensures
        total_stake_lamports < tier_count(desired@, ValidatorStakeState::Baseline)
            * baseline_stake_amount ==> (r matches Err(e) && e == Error::InsufficientStake),
        total_stake_lamports >= tier_count(desired@, ValidatorStakeState::Baseline)
            * baseline_stake_amount ==> (r matches Ok(amount) && amount == bonus_amount_of(
            total_stake_lamports,
            baseline_stake_amount,
            desired@,
        )),
{
    let mut baseline_nodes: u64 = 0;
    let mut bonus_nodes: u64 = 0;
    let mut i: usize = 0;
    while i < desired.len()
        invariant
            0 <= i <= desired@.len(),
            baseline_nodes == tier_count(desired@.take(i as int), ValidatorStakeState::Baseline),
            bonus_nodes == tier_count(desired@.take(i as int), ValidatorStakeState::Bonus),
            baseline_nodes <= i,
            bonus_nodes <= i,
        decreases desired@.len() - i,
    {
        proof {
            reveal(Seq::filter);
            assert(desired@.take((i + 1) as int).drop_last() =~= desired@.take(i as int));
            assert(desired@.take((i + 1) as int).last() == desired@[i as int]);
        }
        match desired[i].stake_state {
            ValidatorStakeState::Baseline => {
                baseline_nodes = baseline_nodes + 1;
            },
            ValidatorStakeState::Bonus => {
                bonus_nodes = bonus_nodes + 1;
            },
            ValidatorStakeState::Nothing => {},
        }
        i = i + 1;
    }
    proof {
        assert(desired@.take(desired@.len() as int) =~= desired@);
    }
    let total_baseline = match baseline_nodes.checked_mul(baseline_stake_amount) {
        Some(t) => t,
        None => {
            proof {
                lemma_tier_count_bounds(desired@, ValidatorStakeState::Baseline);
            }
            return Err(Error::InsufficientStake);
        },
    };
    if total_stake_lamports < total_baseline {
        return Err(Error::InsufficientStake);
    }
    if bonus_nodes == 0 {
        Ok(0)
    } else {
        Ok((total_stake_lamports - total_baseline) / bonus_nodes)
    }
}

/// A tier's count never exceeds the desired list's length.
proof fn lemma_tier_count_bounds(desired: Seq<ValidatorStake>, tier: ValidatorStakeState)
    ensures
        0 <= tier_count(desired, tier) <= desired.len(),
{
    broadcast use vstd::seq_lib::group_filter_ensures;

    assert(desired.filter(|v: ValidatorStake| v.stake_state == tier).len() <= desired.len());
}

} // verus!
