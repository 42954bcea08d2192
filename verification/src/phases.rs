//! Planners for the first five phases of an epoch reconciliation.
//!
//! Each planner is a pure function from freshly observed chain state to the
//! transaction intents of one phase. The caller performs the reads, submits
//! the planned intents as one batch, and re-reads state before the next
//! phase.

use vstd::prelude::*;

use crate::addresses::find_transient_stake_address;
use crate::addresses::find_validator_stake_address;
use crate::addresses::seed_address_of;
use crate::addresses::staker_transient_stake_address;
use crate::addresses::transient_stake_address_of;
use crate::addresses::validator_stake_address_of;
use crate::addresses::vote_address_text_of;
use crate::model::addr_from_words;
use crate::model::Address;
use crate::model::ObservedStakeAccount;
use crate::model::StakeAccountObservation;
use crate::model::StakeActivationState;
use crate::model::StakeStatus;
use crate::model::ValidatorEntry;
use crate::model::ValidatorStake;
use crate::model::desired_contains_vote;
use crate::model::list_contains;
use crate::MIN_STAKE_ACCOUNT_BALANCE;

verus! {

/// Intent to withdraw a staker-owned stake account's whole balance back to
/// the staker.
#[derive(Clone, Copy, Debug, PartialEq, Eq, Structural)]
pub struct WithdrawStake {
    /// The account to drain.
    pub stake_address: Address,
    /// Its full balance.
    pub lamports: u64,
}

/// Intent to remove one validator from the pool: an optional stake decrease
/// down to the enforced minimum, the removal itself, and deactivation of the
/// stake account the staker takes over.
#[derive(Clone, Copy, Debug, PartialEq, Eq, Structural)]
pub struct RemoveValidator {
    /// The validator's vote account.
    pub vote_address: Address,
    /// The pool-owned stake account that the staker will take over.
    pub stake_address: Address,
    /// Lamports to decrease before removal, when the entry holds more than
    /// the rent-exempt amount.
    pub decrease_lamports: Option<u64>,
}

/// Intent to split reward surplus off a candidate's stake account into the
/// staker's transient account.
#[derive(Clone, Copy, Debug, PartialEq, Eq, Structural)]
pub struct StakerSplit {
    /// The staker's transient stake account to create and split into.
    pub transient_address: Address,
    /// The surplus over the balance the pool enforces at admission.
    pub lamports: u64,
}

/// Intent to admit one validator into the pool, with the optional surplus
/// split that brings its stake account down to the enforced balance.
#[derive(Clone, Copy, Debug, PartialEq, Eq, Structural)]
pub struct AddValidator {
    /// The validator's vote account.
    pub vote_address: Address,
    /// The surplus split, when the account earned rewards while activating.
    pub split: Option<StakerSplit>,
}

/// Intent to provision a validator stake account ahead of admission.
#[derive(Clone, Copy, Debug, PartialEq, Eq, Structural)]
pub enum ProvisionIntent {
    /// Create the pool-derived stake account for the vote address.
    CreateAccount { vote_address: Address },
    /// Delegate an existing, inactive stake account to its vote address.
    DelegateStake { stake_address: Address, vote_address: Address },
}

/// The withdrawals planned from a sweep over the staker's accounts: one per
/// inactive account, for its full balance.
pub open spec fn withdrawals_of(accounts: Seq<ObservedStakeAccount>) -> Seq<WithdrawStake>
    decreases accounts.len(),
{
    if accounts.len() == 0 {
        Seq::empty()
    } else {
        let rest = withdrawals_of(accounts.drop_last());
        let a = accounts.last();
        if a.state == StakeActivationState::Inactive {
            rest.push(WithdrawStake { stake_address: a.address, lamports: a.lamports })
        } else {
            rest
        }
    }
}

/// Withdraw from inactive stake accounts owned by the staker, back to the
/// staker.
///
/// The staker has two kinds of stake accounts to reclaim: stake accounts of
/// removed validators, and transient accounts created while adding a
/// validator. Every epoch, each such account that has gone inactive is
/// drained in full.
pub fn withdraw_inactive_stakes_to_staker(accounts: &Vec<ObservedStakeAccount>) -> (r: Vec<
    WithdrawStake,
>)
    ensures
        r@ == withdrawals_of(accounts@),
{
    let mut r: Vec<WithdrawStake> = Vec::new();
    let mut i: usize = 0;
    while i < accounts.len()
        invariant
            0 <= i <= accounts@.len(),
            r@ == withdrawals_of(accounts@.take(i as int)),
        decreases accounts@.len() - i,
    {
        let a = accounts[i];
        proof {
            assert(accounts@.take((i + 1) as int).drop_last() =~= accounts@.take(i as int));
            assert(accounts@.take((i + 1) as int).last() == accounts@[i as int]);
        }
        if matches!(a.state, StakeActivationState::Inactive) {
            r.push(WithdrawStake { stake_address: a.address, lamports: a.lamports });
        }
        i = i + 1;
    }
    proof {
        assert(accounts@.take(accounts@.len() as int) =~= accounts@);
    }
    r
}

/// The removal intent for one listed validator, if any: entries no longer
/// desired are removed while their status is still `Active`, with a prior
/// decrease whenever more than the rent-exempt amount is staked.
pub open spec fn removal_of(
    e: ValidatorEntry,
    desired: Seq<ValidatorStake>,
    stake_rent_exemption: u64,
    pool: Seq<u64>,
) -> Option<RemoveValidator> {
    if !desired_contains_vote(desired, e.vote_account_address) && e.status == StakeStatus::Active {
        Some(
            RemoveValidator {
                vote_address: e.vote_account_address,
                stake_address: addr_from_words(
                    validator_stake_address_of(e.vote_account_address@, pool),
                ),
                decrease_lamports: if e.stake_lamports > stake_rent_exemption {
                    Some(e.stake_lamports)
                } else {
                    None
                },
            },
        )
    } else {
        None
    }
}

/// The removals planned over a whole validator list.
pub open spec fn removals_of(
    list: Seq<ValidatorEntry>,
    desired: Seq<ValidatorStake>,
    stake_rent_exemption: u64,
    pool: Seq<u64>,
) -> Seq<RemoveValidator>
    decreases list.len(),
{
    if list.len() == 0 {
        Seq::empty()
    } else {
        let rest = removals_of(list.drop_last(), desired, stake_rent_exemption, pool);
        match removal_of(list.last(), desired, stake_rent_exemption, pool) {
            Some(intent) => rest.push(intent),
            None => rest,
        }
    }
}

/// Remove validators no longer present in the desired validator list.
///
/// To remove a validator properly, its stake account is first reduced down to
/// the rent-exempt minimum. The staker takes control of the stake account on
/// removal, so the intent also covers deactivating it, to be reclaimed next
/// epoch. Entries already in a non-active status are skipped.
pub fn remove_validators_from_pool(
    validator_list: &Vec<ValidatorEntry>,
    desired: &Vec<ValidatorStake>,
    stake_rent_exemption: u64,
    stake_pool_address: &Address,
) -> (r: Vec<RemoveValidator>)
    ensures
        r@ == removals_of(validator_list@, desired@, stake_rent_exemption, stake_pool_address@),
{
    let mut r: Vec<RemoveValidator> = Vec::new();
    let mut i: usize = 0;
    while i < validator_list.len()
        invariant
            0 <= i <= validator_list@.len(),
            r@ == removals_of(
                validator_list@.take(i as int),
                desired@,
                stake_rent_exemption,
                stake_pool_address@,
            ),
        decreases validator_list@.len() - i,
    {
        let e = validator_list[i];
        proof {
            assert(validator_list@.take((i + 1) as int).drop_last() =~= validator_list@.take(
                i as int,
            ));
            assert(validator_list@.take((i + 1) as int).last() == validator_list@[i as int]);
        }
        if !crate::model::desired_has_vote(desired, e.vote_account_address) && matches!(
            e.status,
            StakeStatus::Active,
        ) {
            let stake_address = find_validator_stake_address(
                &e.vote_account_address,
                stake_pool_address,
            );
            let decrease_lamports = if e.stake_lamports > stake_rent_exemption {
                Some(e.stake_lamports)
            } else {
                None
            };
            r.push(
                RemoveValidator { vote_address: e.vote_account_address, stake_address, decrease_lamports },
            );
        }
        i = i + 1;
    }
    proof {
        assert(validator_list@.take(validator_list@.len() as int) =~= validator_list@);
    }
    r
}

/// The admission intent for one desired validator, if any: a candidate not
/// yet listed, whose stake account exists and is fully active, is admitted;
/// any balance beyond the enforced admission balance is first split into the
/// staker's transient account. A candidate whose surplus cannot be split
/// (its derived seed is unavailable) is left for a later epoch.
pub open spec fn admission_of(
    v: ValidatorStake,
    ob: Option<StakeAccountObservation>,
    list: Seq<ValidatorEntry>,
    stake_rent_exemption: u64,
    staker: Seq<u64>,
) -> Option<AddValidator> {
    match ob {
        None => None,
        Some(o) => admission_of_observed(v, o, list, stake_rent_exemption, staker),
    }
}

/// The admission intent for one desired validator whose stake account exists.
pub open spec fn admission_of_observed(
    v: ValidatorStake,
    o: StakeAccountObservation,
    list: Seq<ValidatorEntry>,
    stake_rent_exemption: u64,
    staker: Seq<u64>,
) -> Option<AddValidator> {
    if !list_contains(list, v.vote_address) && o.state == StakeActivationState::Active {
        if o.lamports <= stake_rent_exemption + MIN_STAKE_ACCOUNT_BALANCE {
            Some(AddValidator { vote_address: v.vote_address, split: None })
        } else if vote_address_text_of(v.vote_address@).len() >= 32 {
            Some(
                AddValidator {
                    vote_address: v.vote_address,
                    split: Some(
                        StakerSplit {
                            transient_address: addr_from_words(
                                seed_address_of(
                                    staker,
                                    vote_address_text_of(v.vote_address@).subrange(0, 32),
                                ),
                            ),
                            lamports: (o.lamports - stake_rent_exemption
                                - MIN_STAKE_ACCOUNT_BALANCE) as u64,
                        },
                    ),
                },
            )
        } else {
            None
        }
    } else {
        None
    }
}

/// The admissions planned over the desired list and the observations of the
/// candidates' stake accounts.
pub open spec fn admissions_of(
    desired: Seq<ValidatorStake>,
    observations: Seq<Option<StakeAccountObservation>>,
    list: Seq<ValidatorEntry>,
    stake_rent_exemption: u64,
    staker: Seq<u64>,
) -> Seq<AddValidator>
    decreases desired.len(),
{
    if desired.len() == 0 {
        Seq::empty()
    } else {
        let rest = admissions_of(
            desired.drop_last(),
            observations.drop_last(),
            list,
            stake_rent_exemption,
            staker,
        );
        match admission_of(
            desired.last(),
            observations.last(),
            list,
            stake_rent_exemption,
            staker,
        ) {
            Some(intent) => rest.push(intent),
            None => rest,
        }
    }
}

/// Add validator stake accounts that have been created and delegated, but are
/// not yet included in the stake pool.
///
/// `observations[i]` is the candidate stake account of `desired[i]` as read
/// from the chain, or nothing when the account does not exist. Only fully
/// active accounts are admitted; the pool enforces that an admitted account
/// holds exactly the rent-exempt amount plus the minimum balance, so any
/// reward surplus is split into the staker's transient account first.
pub fn add_validators_to_pool(
    desired: &Vec<ValidatorStake>,
    observations: &Vec<Option<StakeAccountObservation>>,
    validator_list: &Vec<ValidatorEntry>,
    stake_rent_exemption: u64,
    authorized_staker: Address,
) -> (r: Vec<AddValidator>)
    requires
        observations@.len() == desired@.len(),
        stake_rent_exemption + MIN_STAKE_ACCOUNT_BALANCE <= u64::MAX,
    ensures
        r@ == admissions_of(
            desired@,
            observations@,
            validator_list@,
            stake_rent_exemption,
            authorized_staker@,
        ),
{
    let mut r: Vec<AddValidator> = Vec::new();
    let mut i: usize = 0;
    while i < desired.len()
        invariant
            0 <= i <= desired@.len(),
            observations@.len() == desired@.len(),
            stake_rent_exemption + MIN_STAKE_ACCOUNT_BALANCE <= u64::MAX,
            r@ == admissions_of(
                desired@.take(i as int),
                observations@.take(i as int),
                validator_list@,
                stake_rent_exemption,
                authorized_staker@,
            ),
        decreases desired@.len() - i,
    {
        let v = desired[i];
        let ob = observations[i];
        proof {
            assert(desired@.take((i + 1) as int).drop_last() =~= desired@.take(i as int));
            assert(observations@.take((i + 1) as int).drop_last() =~= observations@.take(i as int));
            assert(desired@.take((i + 1) as int).last() == desired@[i as int]);
            assert(observations@.take((i + 1) as int).last() == observations@[i as int]);
        }
        if !crate::model::list_has_vote(validator_list, v.vote_address) {
            if let Some(o) = ob {
                if matches!(o.state, StakeActivationState::Active) {
                    let min_admission_balance = stake_rent_exemption + MIN_STAKE_ACCOUNT_BALANCE;
                    if o.lamports <= min_admission_balance {
                        r.push(AddValidator { vote_address: v.vote_address, split: None });
                    } else {
                        match staker_transient_stake_address(authorized_staker, v.vote_address) {
                            Some(transient_address) => {
                                r.push(
                                    AddValidator {
                                        vote_address: v.vote_address,
                                        split: Some(
                                            StakerSplit {
                                                transient_address,
                                                lamports: o.lamports - min_admission_balance,
                                            },
                                        ),
                                    },
                                );
                            },
                            None => {},
                        }
                    }
                }
            }
        }
        i = i + 1;
    }
    proof {
        assert(desired@.take(desired@.len() as int) =~= desired@);
        assert(observations@.take(desired@.len() as int) =~= observations@);
    }
    r
}

/// The pool's transient stake addresses of the desired validators, in order.
///
/// The caller reads each address to learn whether an in-flight increase or
/// decrease from a prior epoch has not yet merged.
pub fn pool_transient_stake_addresses(desired: &Vec<ValidatorStake>, stake_pool_address: &Address) -> (r: Vec<Address>)
    ensures
        r@.len() == desired@.len(),
        forall|i: int|
            0 <= i < desired@.len() ==> #[trigger] r@[i]@ == transient_stake_address_of(
                desired@[i].vote_address@,
                stake_pool_address@,
            ),
{
    let mut r: Vec<Address> = Vec::new();
    let mut i: usize = 0;
    while i < desired.len()
        invariant
            0 <= i <= desired@.len(),
            r@.len() == i,
            forall|j: int|
                0 <= j < i ==> #[trigger] r@[j]@ == transient_stake_address_of(
                    desired@[j].vote_address@,
                    stake_pool_address@,
                ),
        decreases desired@.len() - i,
    {
        r.push(find_transient_stake_address(&desired[i].vote_address, stake_pool_address));
        i = i + 1;
    }
    r
}

/// The identities marked busy because the pool's transient stake account of
/// their vote address currently exists.
pub open spec fn transient_busy_of(
    desired: Seq<ValidatorStake>,
    has_transient: Seq<bool>,
) -> Seq<Address>
    decreases desired.len(),
{
    if desired.len() == 0 {
        Seq::empty()
    } else {
        let rest = transient_busy_of(desired.drop_last(), has_transient.drop_last());
        if has_transient.last() {
            rest.push(desired.last().identity)
        } else {
            rest
        }
    }
}

/// Mark as busy every desired validator whose pool transient stake account is
/// present: an increase or decrease from a prior epoch has not yet merged,
/// so its stake must not be adjusted this epoch.
///
/// `has_transient[i]` states whether the transient account of `desired[i]`
/// exists on chain.
pub fn add_unmerged_transient_stake_accounts(
    desired: &Vec<ValidatorStake>,
    has_transient: &Vec<bool>,
    busy_validators: &mut Vec<Address>,
) -> (r: ())
    requires
        has_transient@.len() == desired@.len(),
    ensures
        final(busy_validators)@ == old(busy_validators)@ + transient_busy_of(desired@, has_transient@),
{
    let mut i: usize = 0;
    while i < desired.len()
        invariant
            0 <= i <= desired@.len(),
            has_transient@.len() == desired@.len(),
            busy_validators@ == old(busy_validators)@ + transient_busy_of(
                desired@.take(i as int),
                has_transient@.take(i as int),
            ),
        decreases desired@.len() - i,
    {
        proof {
            assert(desired@.take((i + 1) as int).drop_last() =~= desired@.take(i as int));
            assert(has_transient@.take((i + 1) as int).drop_last() =~= has_transient@.take(
                i as int,
            ));
        }
        if has_transient[i] {
            busy_validators.push(desired[i].identity);
        }
        i = i + 1;
    }
    proof {
        assert(desired@.take(desired@.len() as int) =~= desired@);
        assert(has_transient@.take(desired@.len() as int) =~= has_transient@);
    }
}

/// One provisioning step: the planned intents, busy marks, and remaining
/// staker balance after handling one desired validator.
pub open spec fn provision_step(
    v: ValidatorStake,
    activation: Option<StakeActivationState>,
    balance: u64,
    stake_rent_exemption: u64,
    pool: Seq<u64>,
) -> (Seq<ProvisionIntent>, Seq<Address>, u64) {
    match activation {
        Some(StakeActivationState::Activating) | Some(StakeActivationState::Deactivating) => (
            Seq::empty(),
            seq![v.identity],
            balance,
        ),
        Some(StakeActivationState::Active) => (Seq::empty(), Seq::empty(), balance),
        Some(StakeActivationState::Inactive) => (
            seq![
                ProvisionIntent::DelegateStake {
                    stake_address: addr_from_words(
                        validator_stake_address_of(v.vote_address@, pool),
                    ),
                    vote_address: v.vote_address,
                },
            ],
            seq![v.identity],
            balance,
        ),
        None => {
            if balance >= stake_rent_exemption + MIN_STAKE_ACCOUNT_BALANCE {
                (
                    seq![ProvisionIntent::CreateAccount { vote_address: v.vote_address }],
                    seq![v.identity],
                    (balance - stake_rent_exemption - MIN_STAKE_ACCOUNT_BALANCE) as u64,
                )
            } else {
                (Seq::empty(), seq![v.identity], balance)
            }
        },
    }
}

/// The provisioning plan over the whole desired list: intents, busy marks,
/// and the staker balance left after the planned account creations.
pub open spec fn provision_of(
    desired: Seq<ValidatorStake>,
    activations: Seq<Option<StakeActivationState>>,
    staker_balance: u64,
    stake_rent_exemption: u64,
    pool: Seq<u64>,
) -> (Seq<ProvisionIntent>, Seq<Address>, u64)
    decreases desired.len(),
{
    if desired.len() == 0 {
        (Seq::empty(), Seq::empty(), staker_balance)
    } else {
        let prev = provision_of(
            desired.drop_last(),
            activations.drop_last(),
            staker_balance,
            stake_rent_exemption,
            pool,
        );
        let step = provision_step(
            desired.last(),
            activations.last(),
            prev.2,
            stake_rent_exemption,
            pool,
        );
        (prev.0 + step.0, prev.1 + step.1, step.2)
    }
}

/// Create or reactivate validator stake accounts that the desired validators
/// will need, and mark the affected validators busy.
///
/// `activations[i]` is the activation state of the pool-derived stake account
/// of `desired[i]`, or nothing when the account does not exist. A missing
/// account is created when the staker can fund it; an inactive one is
/// delegated anew; an account in motion only marks its validator busy. In
/// every one of these cases the validator is ineligible for stake adjustment
/// this epoch.
pub fn create_validator_stake_accounts(
    desired: &Vec<ValidatorStake>,
    activations: &Vec<Option<StakeActivationState>>,
    staker_balance: u64,
    stake_rent_exemption: u64,
    stake_pool_address: &Address,
    busy_validators: &mut Vec<Address>,
) -> (r: Vec<ProvisionIntent>)
    requires
        activations@.len() == desired@.len(),
        stake_rent_exemption + MIN_STAKE_ACCOUNT_BALANCE <= u64::MAX,
    ensures
        r@ == provision_of(
            desired@,
            activations@,
            staker_balance,
            stake_rent_exemption,
            stake_pool_address@,
        ).0,
        final(busy_validators)@ == old(busy_validators)@ + provision_of(
            desired@,
            activations@,
            staker_balance,
            stake_rent_exemption,
            stake_pool_address@,
        ).1,
{
    let mut r: Vec<ProvisionIntent> = Vec::new();
    let mut balance = staker_balance;
    let mut i: usize = 0;
    while i < desired.len()
        invariant
            0 <= i <= desired@.len(),
            activations@.len() == desired@.len(),
            stake_rent_exemption + MIN_STAKE_ACCOUNT_BALANCE <= u64::MAX,
            r@ == provision_of(
                desired@.take(i as int),
                activations@.take(i as int),
                staker_balance,
                stake_rent_exemption,
                stake_pool_address@,
            ).0,
            busy_validators@ == old(busy_validators)@ + provision_of(
                desired@.take(i as int),
                activations@.take(i as int),
                staker_balance,
                stake_rent_exemption,
                stake_pool_address@,
            ).1,
            balance == provision_of(
                desired@.take(i as int),
                activations@.take(i as int),
                staker_balance,
                stake_rent_exemption,
                stake_pool_address@,
            ).2,
        decreases desired@.len() - i,
    {
        let v = desired[i];
        proof {
            assert(desired@.take((i + 1) as int).drop_last() =~= desired@.take(i as int));
            assert(activations@.take((i + 1) as int).drop_last() =~= activations@.take(i as int));
            assert(desired@.take((i + 1) as int).last() == desired@[i as int]);
            assert(activations@.take((i + 1) as int).last() == activations@[i as int]);
        }
        match activations[i] {
            Some(StakeActivationState::Activating) | Some(StakeActivationState::Deactivating) => {
                busy_validators.push(v.identity);
            },
            Some(StakeActivationState::Active) => {},
            Some(StakeActivationState::Inactive) => {
                let stake_address = find_validator_stake_address(
                    &v.vote_address,
                    stake_pool_address,
                );
                r.push(
                    ProvisionIntent::DelegateStake { stake_address, vote_address: v.vote_address },
                );
                busy_validators.push(v.identity);
            },
            None => {
                let min_account_balance = stake_rent_exemption + MIN_STAKE_ACCOUNT_BALANCE;
                if balance >= min_account_balance {
                    balance = balance - min_account_balance;
                    r.push(ProvisionIntent::CreateAccount { vote_address: v.vote_address });
                }
                busy_validators.push(v.identity);
            },
        }
        i = i + 1;
    }
    proof {
        assert(desired@.take(desired@.len() as int) =~= desired@);
        assert(activations@.take(desired@.len() as int) =~= activations@);
    }
    r
}

/// The desired validators whose identity carries no busy mark.
pub open spec fn not_busy_of(
    desired: Seq<ValidatorStake>,
    busy: Seq<Address>,
) -> Seq<ValidatorStake> {
    desired.filter(|v: ValidatorStake| !busy.contains(v.identity))
}

/// The desired validators that no phase marked busy: the input of the stake
/// distribution phase.
pub fn not_busy_validators(desired: &Vec<ValidatorStake>, busy_validators: &Vec<Address>) -> (r:
    Vec<ValidatorStake>)
    ensures
        r@ == not_busy_of(desired@, busy_validators@),
{
    let mut r: Vec<ValidatorStake> = Vec::new();
    let mut i: usize = 0;
    while i < desired.len()
        invariant
            0 <= i <= desired@.len(),
            r@ == desired@.take(i as int).filter(
                |v: ValidatorStake| !busy_validators@.contains(v.identity),
            ),
        decreases desired@.len() - i,
    {
        let v = desired[i];
        proof {
            reveal(Seq::filter);
            assert(desired@.take((i + 1) as int).drop_last() =~= desired@.take(i as int));
            assert(desired@.take((i + 1) as int).last() == desired@[i as int]);
        }
        if !crate::model::contains_address(busy_validators, v.identity) {
            r.push(v);
        }
        i = i + 1;
    }
    proof {
        assert(desired@.take(desired@.len() as int) =~= desired@);
    }
    r
}

} // verus!
