//! The stake distribution phase: plan increases and decreases that drive
//! every eligible validator toward its tier target.
//!
//! Validators are processed tier by tier — unfunded first, then baseline,
//! then bonus — and within a tier from the smallest current balance up. Freed
//! lamports from tier-down validators thus flow back before tier-up
//! validators draw from the reserve, and when the reserve runs thin the
//! smallest accounts are funded first, maximizing the number of accounts that
//! reach their target.

use vstd::prelude::*;
use vstd::multiset::Multiset;

use crate::model::Address;
use crate::model::ValidatorEntry;
use crate::model::ValidatorStake;
use crate::model::ValidatorStakeState;
use crate::model::list_contains;
use crate::model::list_entry;
use crate::model::find_entry;
use crate::MIN_STAKE_CHANGE_AMOUNT;

verus! {

broadcast use vstd::seq_lib::group_to_multiset_ensures;

/// Intent to move stake between the reserve and one validator's account.
#[derive(Clone, Copy, Debug, PartialEq, Eq, Structural)]
pub enum StakeAdjustment {
    /// Move lamports from the reserve onto the validator.
    Increase { vote_address: Address, lamports: u64 },
    /// Move lamports off the validator back toward the reserve.
    Decrease { vote_address: Address, lamports: u64 },
}

/// The target balance of one validator under its tier.
pub open spec fn target_balance_of(
    tier: ValidatorStakeState,
    baseline_stake_amount: u64,
    bonus_stake_amount: u64,
) -> u64 {
    match tier {
        ValidatorStakeState::Nothing => 0,
        ValidatorStakeState::Baseline => baseline_stake_amount,
        ValidatorStakeState::Bonus => bonus_stake_amount,
    }
}

/// The decrease planned for one validator: its surplus over the target, when
/// at least the minimum worthwhile change.
pub open spec fn decrease_amount(balance: u64, target: u64) -> u64 {
    if balance > target && balance - target >= MIN_STAKE_CHANGE_AMOUNT {
        (balance - target) as u64
    } else {
        0
    }
}

/// The increase planned for one validator: its shortfall under the target,
/// capped by the reserve lamports still available, when both the shortfall
/// and the capped amount are at least the minimum worthwhile change.
pub open spec fn increase_amount(balance: u64, target: u64, available: u64) -> u64 {
    if balance < target && target - balance >= MIN_STAKE_CHANGE_AMOUNT {
        let capped = if target - balance > available {
            available
        } else {
            (target - balance) as u64
        };
        if capped >= MIN_STAKE_CHANGE_AMOUNT {
            capped
        } else {
            0
        }
    } else {
        0
    }
}

/// The adjustments planned over entries of `(current balance, validator)`,
/// processed in order while a running counter of available reserve lamports
/// funds the increases.
pub open spec fn distribution_plan(
    entries: Seq<(u64, ValidatorStake)>,
    baseline_stake_amount: u64,
    bonus_stake_amount: u64,
    available: u64,
) -> Seq<StakeAdjustment>
    decreases entries.len(),
{
    if entries.len() == 0 {
        Seq::empty()
    } else {
        let balance = entries[0].0;
        let v = entries[0].1;
        let target = target_balance_of(v.stake_state, baseline_stake_amount, bonus_stake_amount);
        let dec = decrease_amount(balance, target);
        let inc = increase_amount(balance, target, available);
        if dec > 0 {
            seq![StakeAdjustment::Decrease { vote_address: v.vote_address, lamports: dec }]
                + distribution_plan(
                entries.skip(1),
                baseline_stake_amount,
                bonus_stake_amount,
                available,
            )
        } else if inc > 0 {
            seq![StakeAdjustment::Increase { vote_address: v.vote_address, lamports: inc }]
                + distribution_plan(
                entries.skip(1),
                baseline_stake_amount,
                bonus_stake_amount,
                (available - inc) as u64,
            )
        } else {
            distribution_plan(
                entries.skip(1),
                baseline_stake_amount,
                bonus_stake_amount,
                available,
            )
        }
    }
}

/// The per-validator outcome of the distribution phase, reported alongside
/// the plan.
#[derive(Clone, Copy, Debug, PartialEq, Eq, Structural)]
pub enum DistributionOutcome {
    /// The balance already sits on the target.
    NoChange { vote_address: Address },
    /// The surplus was below the minimum worthwhile change; nothing issued.
    RemovalTooSmall { vote_address: Address, lamports: u64 },
    /// The shortfall was below the minimum worthwhile change; nothing issued.
    AdditionTooSmall { vote_address: Address, lamports: u64 },
    /// The reserve could not fund a worthwhile part of the shortfall.
    ReserveDepleted { vote_address: Address },
    /// Lamports are moved off the validator.
    Removing { vote_address: Address, lamports: u64 },
    /// Lamports are moved onto the validator.
    Adding { vote_address: Address, lamports: u64 },
}

/// The outcome reported for one validator at the given available reserve.
pub open spec fn outcome_of(
    balance: u64,
    v: ValidatorStake,
    target: u64,
    available: u64,
) -> DistributionOutcome {
    if balance > target {
        let amount = (balance - target) as u64;
        if amount < MIN_STAKE_CHANGE_AMOUNT {
            DistributionOutcome::RemovalTooSmall { vote_address: v.vote_address, lamports: amount }
        } else {
            DistributionOutcome::Removing { vote_address: v.vote_address, lamports: amount }
        }
    } else if balance < target {
        let amount = (target - balance) as u64;
        if amount < MIN_STAKE_CHANGE_AMOUNT {
            DistributionOutcome::AdditionTooSmall {
                vote_address: v.vote_address,
                lamports: amount,
            }
        } else {
            let capped = if amount > available {
                available
            } else {
                amount
            };
            if capped < MIN_STAKE_CHANGE_AMOUNT {
                DistributionOutcome::ReserveDepleted { vote_address: v.vote_address }
            } else {
                DistributionOutcome::Adding { vote_address: v.vote_address, lamports: capped }
            }
        }
    } else {
        DistributionOutcome::NoChange { vote_address: v.vote_address }
    }
}

/// The outcomes reported over the whole processing order, one per validator.
pub open spec fn distribution_outcomes(
    entries: Seq<(u64, ValidatorStake)>,
    baseline_stake_amount: u64,
    bonus_stake_amount: u64,
    available: u64,
) -> Seq<DistributionOutcome>
    decreases entries.len(),
{
    if entries.len() == 0 {
        Seq::empty()
    } else {
        let balance = entries[0].0;
        let v = entries[0].1;
        let target = target_balance_of(v.stake_state, baseline_stake_amount, bonus_stake_amount);
        let inc = increase_amount(balance, target, available);
        seq![outcome_of(balance, v, target, available)] + distribution_outcomes(
            entries.skip(1),
            baseline_stake_amount,
            bonus_stake_amount,
            (available - inc) as u64,
        )
    }
}

/// The reserve lamports still available once the whole plan is laid out.
pub open spec fn available_after(
    entries: Seq<(u64, ValidatorStake)>,
    baseline_stake_amount: u64,
    bonus_stake_amount: u64,
    available: u64,
) -> u64
    decreases entries.len(),
{
    if entries.len() == 0 {
        available
    } else {
        let balance = entries[0].0;
        let v = entries[0].1;
        let target = target_balance_of(v.stake_state, baseline_stake_amount, bonus_stake_amount);
        let dec = decrease_amount(balance, target);
        let inc = increase_amount(balance, target, available);
        if dec > 0 {
            available_after(entries.skip(1), baseline_stake_amount, bonus_stake_amount, available)
        } else {
            available_after(
                entries.skip(1),
                baseline_stake_amount,
                bonus_stake_amount,
                (available - inc) as u64,
            )
        }
    }
}

/// Lay out the stake adjustments over already ordered entries.
///
/// Returns the planned adjustments in processing order, one reported outcome
/// per validator, and the reserve lamports left available.
pub fn plan_distribution(
    entries: &Vec<(u64, ValidatorStake)>,
    baseline_stake_amount: u64,
    bonus_stake_amount: u64,
    available: u64,
) -> (r: (Vec<StakeAdjustment>, Vec<DistributionOutcome>, u64))
    ensures
        r.0@ == distribution_plan(entries@, baseline_stake_amount, bonus_stake_amount, available),
        r.1@ == distribution_outcomes(
            entries@,
            baseline_stake_amount,
            bonus_stake_amount,
            available,
        ),
        r.2 == available_after(entries@, baseline_stake_amount, bonus_stake_amount, available),
{
    let ghost whole = distribution_plan(
        entries@,
        baseline_stake_amount,
        bonus_stake_amount,
        available,
    );
    let ghost whole_outcomes = distribution_outcomes(
        entries@,
        baseline_stake_amount,
        bonus_stake_amount,
        available,
    );
    let mut r: Vec<StakeAdjustment> = Vec::new();
    let mut outcomes: Vec<DistributionOutcome> = Vec::new();
    let mut avail = available;
    let mut i: usize = 0;
    proof {
        assert(entries@.skip(0) =~= entries@);
        assert(r@ + whole =~= whole);
        assert(outcomes@ + whole_outcomes =~= whole_outcomes);
    }
    while i < entries.len()
        invariant
            0 <= i <= entries@.len(),
            whole == r@ + distribution_plan(
                entries@.skip(i as int),
                baseline_stake_amount,
                bonus_stake_amount,
                avail,
            ),
            whole_outcomes == outcomes@ + distribution_outcomes(
                entries@.skip(i as int),
                baseline_stake_amount,
                bonus_stake_amount,
                avail,
            ),
            available_after(entries@, baseline_stake_amount, bonus_stake_amount, available)
                == available_after(
                entries@.skip(i as int),
                baseline_stake_amount,
                bonus_stake_amount,
                avail,
            ),
        decreases entries@.len() - i,
    {
        let (balance, v) = entries[i];
        let target = match v.stake_state {
            ValidatorStakeState::Nothing => 0,
            ValidatorStakeState::Baseline => baseline_stake_amount,
            ValidatorStakeState::Bonus => bonus_stake_amount,
        };
        proof {
            assert(entries@.skip(i as int).len() > 0);
            assert(entries@.skip(i as int)[0] == entries@[i as int]);
            assert(entries@.skip(i as int).skip(1) =~= entries@.skip((i + 1) as int));
        }
        if balance > target {
            let amount_to_remove = balance - target;
            if amount_to_remove < MIN_STAKE_CHANGE_AMOUNT {
                outcomes.push(
                    DistributionOutcome::RemovalTooSmall {
                        vote_address: v.vote_address,
                        lamports: amount_to_remove,
                    },
                );
            } else {
                r.push(
                    StakeAdjustment::Decrease {
                        vote_address: v.vote_address,
                        lamports: amount_to_remove,
                    },
                );
                outcomes.push(
                    DistributionOutcome::Removing {
                        vote_address: v.vote_address,
                        lamports: amount_to_remove,
                    },
                );
            }
        } else if balance < target {
            let amount_to_add = target - balance;
            if amount_to_add < MIN_STAKE_CHANGE_AMOUNT {
                outcomes.push(
                    DistributionOutcome::AdditionTooSmall {
                        vote_address: v.vote_address,
                        lamports: amount_to_add,
                    },
                );
            } else {
                let capped = if amount_to_add > avail {
                    avail
                } else {
                    amount_to_add
                };
                if capped < MIN_STAKE_CHANGE_AMOUNT {
                    outcomes.push(
                        DistributionOutcome::ReserveDepleted { vote_address: v.vote_address },
                    );
                } else {
                    avail = avail - capped;
                    r.push(
                        StakeAdjustment::Increase {
                            vote_address: v.vote_address,
                            lamports: capped,
                        },
                    );
                    outcomes.push(
                        DistributionOutcome::Adding {
                            vote_address: v.vote_address,
                            lamports: capped,
                        },
                    );
                }
            }
        } else {
            outcomes.push(DistributionOutcome::NoChange { vote_address: v.vote_address });
        }
        i = i + 1;
    }
    proof {
        assert(entries@.skip(entries@.len() as int) =~= Seq::<(u64, ValidatorStake)>::empty());
        assert(whole =~= r@);
        assert(whole_outcomes =~= outcomes@);
    }
    (r, outcomes, avail)
}

/// Whether the entries stand in ascending order of current balance.
pub open spec fn sorted_by_balance(s: Seq<(u64, ValidatorStake)>) -> bool {
    forall|i: int, j: int| 0 <= i < j < s.len() ==> s[i].0 <= s[j].0
}

/// Order entries by ascending current balance.
fn sort_by_balance(entries: Vec<(u64, ValidatorStake)>) -> (r: Vec<(u64, ValidatorStake)>)
    ensures
        sorted_by_balance(r@),
        r@.to_multiset() == entries@.to_multiset(),
{
    let mut src = entries;
    let mut r: Vec<(u64, ValidatorStake)> = Vec::new();
    while src.len() > 0
        invariant
            sorted_by_balance(r@),
            r@.to_multiset().add(src@.to_multiset()) == entries@.to_multiset(),
            forall|k: int, m: int|
                0 <= k < r@.len() && 0 <= m < src@.len() ==> r@[k].0 <= src@[m].0,
        decreases src@.len(),
    {
        let mut min_index: usize = 0;
        let mut j: usize = 1;
        while j < src.len()
            invariant
                0 <= min_index < j <= src@.len(),
                forall|m: int| 0 <= m < j ==> src@[min_index as int].0 <= src@[m].0,
            decreases src@.len() - j,
        {
            if src[j].0 < src[min_index].0 {
                min_index = j;
            }
            j = j + 1;
        }
        let x = src.remove(min_index);
        r.push(x);
        proof {
            assert(r@.to_multiset().add(src@.to_multiset()) =~= entries@.to_multiset());
        }
    }
    proof {
        assert(src@.to_multiset() =~= Multiset::<(u64, ValidatorStake)>::empty());
        assert(r@.to_multiset() =~= entries@.to_multiset());
    }
    r
}

/// The `(current balance, validator)` pairs of the desired validators in one
/// tier that the pool's list knows, in desired order.
pub open spec fn tier_entries(
    list: Seq<ValidatorEntry>,
    desired: Seq<ValidatorStake>,
    tier: ValidatorStakeState,
) -> Seq<(u64, ValidatorStake)>
    decreases desired.len(),
{
    if desired.len() == 0 {
        Seq::empty()
    } else {
        let rest = tier_entries(list, desired.drop_last(), tier);
        let v = desired.last();
        if v.stake_state == tier && list_contains(list, v.vote_address) {
            rest.push((list_entry(list, v.vote_address).stake_lamports, v))
        } else {
            rest
        }
    }
}

/// Whether `order` is a valid processing order for the distribution phase:
/// first the unfunded tier, then baseline, then bonus — each block a
/// permutation of that tier's desired validators known to the list, in
/// ascending order of current balance. Desired validators the list does not
/// know are left out.
pub open spec fn distribution_order_ok(
    order: Seq<(u64, ValidatorStake)>,
    list: Seq<ValidatorEntry>,
    desired: Seq<ValidatorStake>,
) -> bool {
    exists|n0: int, n1: int|
        {
            &&& 0 <= n0 <= n1 <= order.len()
            &&& #[trigger] order.subrange(0, n0).to_multiset() == tier_entries(
                list,
                desired,
                ValidatorStakeState::Nothing,
            ).to_multiset()
            &&& sorted_by_balance(order.subrange(0, n0))
            &&& #[trigger] order.subrange(n0, n1).to_multiset() == tier_entries(
                list,
                desired,
                ValidatorStakeState::Baseline,
            ).to_multiset()
            &&& sorted_by_balance(order.subrange(n0, n1))
            &&& order.subrange(n1, order.len() as int).to_multiset() == tier_entries(
                list,
                desired,
                ValidatorStakeState::Bonus,
            ).to_multiset()
            &&& sorted_by_balance(order.subrange(n1, order.len() as int))
        }
}

/// Build the processing order of the distribution phase: join the desired
/// validators with their current balances from the pool's list, partition by
/// tier, and sort each tier from the smallest balance up.
pub fn build_distribution_order(
    validator_list: &Vec<ValidatorEntry>,
    desired: &Vec<ValidatorStake>,
) -> (r: Vec<(u64, ValidatorStake)>)
    ensures
        distribution_order_ok(r@, validator_list@, desired@),
{
    let mut min_stake: Vec<(u64, ValidatorStake)> = Vec::new();
    let mut baseline_stake: Vec<(u64, ValidatorStake)> = Vec::new();
    let mut bonus_stake: Vec<(u64, ValidatorStake)> = Vec::new();
    let mut i: usize = 0;
    while i < desired.len()
        invariant
            0 <= i <= desired@.len(),
            min_stake@ == tier_entries(
                validator_list@,
                desired@.take(i as int),
                ValidatorStakeState::Nothing,
            ),
            baseline_stake@ == tier_entries(
                validator_list@,
                desired@.take(i as int),
                ValidatorStakeState::Baseline,
            ),
            bonus_stake@ == tier_entries(
                validator_list@,
                desired@.take(i as int),
                ValidatorStakeState::Bonus,
            ),
        decreases desired@.len() - i,
    {
        let v = desired[i];
        proof {
            assert(desired@.take((i + 1) as int).drop_last() =~= desired@.take(i as int));
            assert(desired@.take((i + 1) as int).last() == desired@[i as int]);
        }
        match find_entry(validator_list, v.vote_address) {
            Some(entry) => {
                match v.stake_state {
                    ValidatorStakeState::Nothing => {
                        min_stake.push((entry.stake_lamports, v));
                    },
                    ValidatorStakeState::Baseline => {
                        baseline_stake.push((entry.stake_lamports, v));
                    },
                    ValidatorStakeState::Bonus => {
                        bonus_stake.push((entry.stake_lamports, v));
                    },
                }
            },
            None => {},
        }
        i = i + 1;
    }
    proof {
        assert(desired@.take(desired@.len() as int) =~= desired@);
    }
    let sorted_min = sort_by_balance(min_stake);
    let sorted_baseline = sort_by_balance(baseline_stake);
    let sorted_bonus = sort_by_balance(bonus_stake);
    let ghost n0 = sorted_min@.len() as int;
    let ghost n1 = (sorted_min@.len() + sorted_baseline@.len()) as int;
    let mut r = sorted_min;
    let mut rest = sorted_baseline;
    let mut rest2 = sorted_bonus;
    let ghost b0 = r@;
    let ghost b1 = rest@;
    let ghost b2 = rest2@;
    r.append(&mut rest);
    r.append(&mut rest2);
    proof {
        assert(r@ == b0 + b1 + b2);
        assert(r@.subrange(0, n0) =~= b0);
        assert(r@.subrange(n0, n1) =~= b1);
        assert(r@.subrange(n1, r@.len() as int) =~= b2);
        assert(distribution_order_ok(r@, validator_list@, desired@));
    }
    r
}

/// Plan the whole distribution phase over the validators no earlier phase
/// marked busy.
///
/// `available` is the reserve balance beyond what the reserve must keep.
/// Returns the planned adjustments, one reported outcome per processed
/// validator, and the available reserve lamports left.
pub fn distribute_validator_stake(
    validator_list: &Vec<ValidatorEntry>,
    desired: &Vec<ValidatorStake>,
    baseline_stake_amount: u64,
    bonus_stake_amount: u64,
    available: u64,
) -> (r: (Vec<StakeAdjustment>, Vec<DistributionOutcome>, u64))
    ensures
        exists|order: Seq<(u64, ValidatorStake)>|
            {
                &&& #[trigger] distribution_order_ok(order, validator_list@, desired@)
                &&& r.0@ == distribution_plan(
                    order,
                    baseline_stake_amount,
                    bonus_stake_amount,
                    available,
                )
                &&& r.1@ == distribution_outcomes(
                    order,
                    baseline_stake_amount,
                    bonus_stake_amount,
                    available,
                )
                &&& r.2 == available_after(
                    order,
                    baseline_stake_amount,
                    bonus_stake_amount,
                    available,
                )
            },
{
    let order = build_distribution_order(validator_list, desired);
    let r = plan_distribution(&order, baseline_stake_amount, bonus_stake_amount, available);
    proof {
        let w = order@;
        assert(distribution_order_ok(w, validator_list@, desired@) && r.0@ == distribution_plan(
            w,
            baseline_stake_amount,
            bonus_stake_amount,
            available,
        ) && r.1@ == distribution_outcomes(
            w,
            baseline_stake_amount,
            bonus_stake_amount,
            available,
        ) && r.2 == available_after(w, baseline_stake_amount, bonus_stake_amount, available));
    }
    r
}

} // verus!
