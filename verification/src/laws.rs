//! Laws of the reconciliation planners.
//!
//! Each proof function here states a guarantee of the engine as a whole:
//! what the distribution phase may take from the reserve, how large a
//! planned change must be, why a second run plans nothing, and how the
//! pool's membership moves toward the desired set.

use vstd::prelude::*;

use crate::model::Address;
use crate::model::StakeStatus;
use crate::model::ValidatorEntry;
use crate::model::ValidatorStake;
use crate::model::desired_contains_vote;
use crate::model::list_contains;
use crate::model::list_entry;
use crate::model::StakeAccountObservation;
use crate::distribute::StakeAdjustment;
use crate::distribute::available_after;
use crate::distribute::decrease_amount;
use crate::distribute::distribution_plan;
use crate::distribute::increase_amount;
use crate::distribute::target_balance_of;
use crate::phases::AddValidator;
use crate::phases::RemoveValidator;
use crate::phases::admission_of;
use crate::phases::admissions_of;
use crate::phases::removal_of;
use crate::phases::removals_of;
use crate::MIN_STAKE_CHANGE_AMOUNT;

verus! {

/// The lamports an adjustment moves.
pub open spec fn adjustment_lamports(a: StakeAdjustment) -> u64 {
    match a {
        StakeAdjustment::Increase { lamports, .. } => lamports,
        StakeAdjustment::Decrease { lamports, .. } => lamports,
    }
}

/// The total lamports the plan's increases draw from the reserve.
pub open spec fn planned_increase_total(plan: Seq<StakeAdjustment>) -> int
    decreases plan.len(),
{
    if plan.len() == 0 {
        0
    } else {
        (match plan[0] {
            StakeAdjustment::Increase { lamports, .. } => lamports as int,
            StakeAdjustment::Decrease { .. } => 0,
        }) + planned_increase_total(plan.skip(1))
    }
}

/// No planned increase or decrease moves less than the minimum worthwhile
/// change.
pub proof fn lemma_no_small_adjustment(
    entries: Seq<(u64, ValidatorStake)>,
    baseline_stake_amount: u64,
    bonus_stake_amount: u64,
    available: u64,
)
    ensures
        forall|k: int|
            0 <= k < distribution_plan(
                entries,
                baseline_stake_amount,
                bonus_stake_amount,
                available,
            ).len() ==> adjustment_lamports(
                #[trigger] distribution_plan(
                    entries,
                    baseline_stake_amount,
                    bonus_stake_amount,
                    available,
                )[k],
            ) >= MIN_STAKE_CHANGE_AMOUNT,
    decreases entries.len(),
{
    if entries.len() == 0 {
    } else {
        let balance = entries[0].0;
        let v = entries[0].1;
        let target = target_balance_of(v.stake_state, baseline_stake_amount, bonus_stake_amount);
        let dec = decrease_amount(balance, target);
        let inc = increase_amount(balance, target, available);
        let whole = distribution_plan(entries, baseline_stake_amount, bonus_stake_amount, available);
        if dec > 0 {
            lemma_no_small_adjustment(
                entries.skip(1),
                baseline_stake_amount,
                bonus_stake_amount,
                available,
            );
            let rest = distribution_plan(
                entries.skip(1),
                baseline_stake_amount,
                bonus_stake_amount,
                available,
            );
            assert forall|k: int|
                0 <= k < whole.len() implies adjustment_lamports(whole[k])
                >= MIN_STAKE_CHANGE_AMOUNT by {
                if k > 0 {
                    assert(whole[k] == rest[k - 1]);
                }
            }
        } else if inc > 0 {
            lemma_no_small_adjustment(
                entries.skip(1),
                baseline_stake_amount,
                bonus_stake_amount,
                (available - inc) as u64,
            );
            let rest = distribution_plan(
                entries.skip(1),
                baseline_stake_amount,
                bonus_stake_amount,
                (available - inc) as u64,
            );
            assert forall|k: int|
                0 <= k < whole.len() implies adjustment_lamports(whole[k])
                >= MIN_STAKE_CHANGE_AMOUNT by {
                if k > 0 {
                    assert(whole[k] == rest[k - 1]);
                }
            }
        } else {
            lemma_no_small_adjustment(
                entries.skip(1),
                baseline_stake_amount,
                bonus_stake_amount,
                available,
            );
        }
    }
}

/// The plan's increases take exactly what the running reserve counter gave
/// out, and never more than was available to begin with.
pub proof fn lemma_increases_within_reserve(
    entries: Seq<(u64, ValidatorStake)>,
    baseline_stake_amount: u64,
    bonus_stake_amount: u64,
    available: u64,
)
    ensures
        planned_increase_total(
            distribution_plan(entries, baseline_stake_amount, bonus_stake_amount, available),
        ) == available - available_after(
            entries,
            baseline_stake_amount,
            bonus_stake_amount,
            available,
        ),
        available_after(entries, baseline_stake_amount, bonus_stake_amount, available)
            <= available,
    decreases entries.len(),
{
    if entries.len() == 0 {
    } else {
        let balance = entries[0].0;
        let v = entries[0].1;
        let target = target_balance_of(v.stake_state, baseline_stake_amount, bonus_stake_amount);
        let dec = decrease_amount(balance, target);
        let inc = increase_amount(balance, target, available);
        let whole = distribution_plan(entries, baseline_stake_amount, bonus_stake_amount, available);
        if dec > 0 {
            lemma_increases_within_reserve(
                entries.skip(1),
                baseline_stake_amount,
                bonus_stake_amount,
                available,
            );
            let rest = distribution_plan(
                entries.skip(1),
                baseline_stake_amount,
                bonus_stake_amount,
                available,
            );
            assert(whole.skip(1) =~= rest);
        } else if inc > 0 {
            lemma_increases_within_reserve(
                entries.skip(1),
                baseline_stake_amount,
                bonus_stake_amount,
                (available - inc) as u64,
            );
            let rest = distribution_plan(
                entries.skip(1),
                baseline_stake_amount,
                bonus_stake_amount,
                (available - inc) as u64,
            );
            assert(whole.skip(1) =~= rest);
        } else {
            lemma_increases_within_reserve(
                entries.skip(1),
                baseline_stake_amount,
                bonus_stake_amount,
                available,
            );
        }
    }
}

/// After the distribution phase, the reserve still holds its required floor:
/// the planned increases draw at most the balance beyond it.
pub proof fn lemma_reserve_floor_preserved(
    entries: Seq<(u64, ValidatorStake)>,
    baseline_stake_amount: u64,
    bonus_stake_amount: u64,
    reserve_balance: u64,
    required_floor: u64,
)
    requires
        reserve_balance >= required_floor,
    ensures
        reserve_balance - planned_increase_total(
            distribution_plan(
                entries,
                baseline_stake_amount,
                bonus_stake_amount,
                (reserve_balance - required_floor) as u64,
            ),
        ) >= required_floor,
{
    lemma_increases_within_reserve(
        entries,
        baseline_stake_amount,
        bonus_stake_amount,
        (reserve_balance - required_floor) as u64,
    );
}

/// The entries the plan leaves untouched: no decrease and no increase was
/// planned for them, in processing order.
pub open spec fn untouched_entries(
    entries: Seq<(u64, ValidatorStake)>,
    baseline_stake_amount: u64,
    bonus_stake_amount: u64,
    available: u64,
) -> Seq<(u64, ValidatorStake)>
    decreases entries.len(),
{
    if entries.len() == 0 {
        Seq::empty()
    } else {
        let balance = entries[0].0;
        let v = entries[0].1;
        let target = target_balance_of(v.stake_state, baseline_stake_amount, bonus_stake_amount);
        let dec = decrease_amount(balance, target);
        let inc = increase_amount(balance, target, available);
        if dec > 0 {
            untouched_entries(
                entries.skip(1),
                baseline_stake_amount,
                bonus_stake_amount,
                available,
            )
        } else if inc > 0 {
            untouched_entries(
                entries.skip(1),
                baseline_stake_amount,
                bonus_stake_amount,
                (available - inc) as u64,
            )
        } else {
            seq![entries[0]] + untouched_entries(
                entries.skip(1),
                baseline_stake_amount,
                bonus_stake_amount,
                available,
            )
        }
    }
}

/// An increase that was not worth planning stays unplanned when even fewer
/// reserve lamports are available.
proof fn lemma_increase_monotone(balance: u64, target: u64, larger: u64, smaller: u64)
    requires
        smaller <= larger,
        increase_amount(balance, target, larger) == 0,
    ensures
        increase_amount(balance, target, smaller) == 0,
{
}

/// Every untouched entry is still not worth adjusting at the reserve level
/// the plan ends with.
proof fn lemma_untouched_at_final(
    entries: Seq<(u64, ValidatorStake)>,
    baseline_stake_amount: u64,
    bonus_stake_amount: u64,
    available: u64,
)
    ensures
        forall|k: int|
            0 <= k < untouched_entries(
                entries,
                baseline_stake_amount,
                bonus_stake_amount,
                available,
            ).len() ==> {
                let e = #[trigger] untouched_entries(
                    entries,
                    baseline_stake_amount,
                    bonus_stake_amount,
                    available,
                )[k];
                let target = target_balance_of(
                    e.1.stake_state,
                    baseline_stake_amount,
                    bonus_stake_amount,
                );
                decrease_amount(e.0, target) == 0 && increase_amount(
                    e.0,
                    target,
                    available_after(entries, baseline_stake_amount, bonus_stake_amount, available),
                ) == 0
            },
    decreases entries.len(),
{
    if entries.len() == 0 {
    } else {
        let balance = entries[0].0;
        let v = entries[0].1;
        let target = target_balance_of(v.stake_state, baseline_stake_amount, bonus_stake_amount);
        let dec = decrease_amount(balance, target);
        let inc = increase_amount(balance, target, available);
        if dec > 0 {
            lemma_untouched_at_final(
                entries.skip(1),
                baseline_stake_amount,
                bonus_stake_amount,
                available,
            );
        } else if inc > 0 {
            lemma_untouched_at_final(
                entries.skip(1),
                baseline_stake_amount,
                bonus_stake_amount,
                (available - inc) as u64,
            );
        } else {
            lemma_untouched_at_final(
                entries.skip(1),
                baseline_stake_amount,
                bonus_stake_amount,
                available,
            );
            lemma_increases_within_reserve(
                entries.skip(1),
                baseline_stake_amount,
                bonus_stake_amount,
                available,
            );
            lemma_increase_monotone(
                balance,
                target,
                available,
                available_after(entries, baseline_stake_amount, bonus_stake_amount, available),
            );
        }
    }
}

/// Over entries none of which is worth adjusting, the plan is empty.
proof fn lemma_all_untouched_plan_empty(
    entries: Seq<(u64, ValidatorStake)>,
    baseline_stake_amount: u64,
    bonus_stake_amount: u64,
    available: u64,
)
    requires
        forall|k: int|
            0 <= k < entries.len() ==> {
                let e = #[trigger] entries[k];
                let target = target_balance_of(
                    e.1.stake_state,
                    baseline_stake_amount,
                    bonus_stake_amount,
                );
                decrease_amount(e.0, target) == 0 && increase_amount(e.0, target, available) == 0
            },
    ensures
        distribution_plan(entries, baseline_stake_amount, bonus_stake_amount, available)
            == Seq::<StakeAdjustment>::empty(),
    decreases entries.len(),
{
    if entries.len() == 0 {
    } else {
        assert(decrease_amount(
            entries[0].0,
            target_balance_of(entries[0].1.stake_state, baseline_stake_amount, bonus_stake_amount),
        ) == 0);
        lemma_all_untouched_plan_empty(
            entries.skip(1),
            baseline_stake_amount,
            bonus_stake_amount,
            available,
        );
    }
}

/// Idempotence of the distribution phase.
///
/// A run plans an adjustment for a validator only by way of a transient
/// stake account that marks the validator busy until the adjustment merges,
/// so a second run over the same balances sees at most the validators the
/// first run left untouched, and at most the reserve lamports the first run
/// left available. Such a second run plans no adjustment at all.
pub proof fn lemma_second_run_plans_nothing(
    entries: Seq<(u64, ValidatorStake)>,
    baseline_stake_amount: u64,
    bonus_stake_amount: u64,
    available: u64,
    second_entries: Seq<(u64, ValidatorStake)>,
    second_available: u64,
)
    requires
        second_available <= available_after(
            entries,
            baseline_stake_amount,
            bonus_stake_amount,
            available,
        ),
        forall|k: int|
            0 <= k < second_entries.len() ==> untouched_entries(
                entries,
                baseline_stake_amount,
                bonus_stake_amount,
                available,
            ).contains(#[trigger] second_entries[k]),
    ensures
        distribution_plan(
            second_entries,
            baseline_stake_amount,
            bonus_stake_amount,
            second_available,
        ) == Seq::<StakeAdjustment>::empty(),
{
    lemma_untouched_at_final(entries, baseline_stake_amount, bonus_stake_amount, available);
    assert forall|k: int| 0 <= k < second_entries.len() implies {
        let e = #[trigger] second_entries[k];
        let target = target_balance_of(e.1.stake_state, baseline_stake_amount, bonus_stake_amount);
        decrease_amount(e.0, target) == 0 && increase_amount(e.0, target, second_available) == 0
    } by {
        let u = untouched_entries(entries, baseline_stake_amount, bonus_stake_amount, available);
        let e = second_entries[k];
        let m = choose|m: int| 0 <= m < u.len() && u[m] == e;
        let target = target_balance_of(e.1.stake_state, baseline_stake_amount, bonus_stake_amount);
        lemma_increase_monotone(
            e.0,
            target,
            available_after(entries, baseline_stake_amount, bonus_stake_amount, available),
            second_available,
        );
    }
    lemma_all_untouched_plan_empty(
        second_entries,
        baseline_stake_amount,
        bonus_stake_amount,
        second_available,
    );
}

/// The balances after the planned adjustments settle: each planned decrease
/// or increase lands in full on its validator.
pub open spec fn applied_entries(
    entries: Seq<(u64, ValidatorStake)>,
    baseline_stake_amount: u64,
    bonus_stake_amount: u64,
    available: u64,
) -> Seq<(u64, ValidatorStake)>
    decreases entries.len(),
{
    if entries.len() == 0 {
        Seq::empty()
    } else {
        let balance = entries[0].0;
        let v = entries[0].1;
        let target = target_balance_of(v.stake_state, baseline_stake_amount, bonus_stake_amount);
        let dec = decrease_amount(balance, target);
        let inc = increase_amount(balance, target, available);
        if dec > 0 {
            seq![((balance - dec) as u64, v)] + applied_entries(
                entries.skip(1),
                baseline_stake_amount,
                bonus_stake_amount,
                available,
            )
        } else if inc > 0 {
            seq![((balance + inc) as u64, v)] + applied_entries(
                entries.skip(1),
                baseline_stake_amount,
                bonus_stake_amount,
                (available - inc) as u64,
            )
        } else {
            seq![entries[0]] + applied_entries(
                entries.skip(1),
                baseline_stake_amount,
                bonus_stake_amount,
                available,
            )
        }
    }
}

/// The lamports the entries fall short of their targets by, counting only
/// shortfalls worth adjusting.
pub open spec fn shortfall_total(
    entries: Seq<(u64, ValidatorStake)>,
    baseline_stake_amount: u64,
    bonus_stake_amount: u64,
) -> int
    decreases entries.len(),
{
    if entries.len() == 0 {
        0
    } else {
        let balance = entries[0].0;
        let target = target_balance_of(
            entries[0].1.stake_state,
            baseline_stake_amount,
            bonus_stake_amount,
        );
        (if balance < target && target - balance >= MIN_STAKE_CHANGE_AMOUNT {
            target - balance
        } else {
            0
        }) + shortfall_total(entries.skip(1), baseline_stake_amount, bonus_stake_amount)
    }
}

/// Convergence in one pass when the reserve suffices.
///
/// When the available reserve covers every worthwhile shortfall, one
/// distribution pass moves every validator either onto its target or within
/// the minimum worthwhile change of it, and a pass over the settled balances
/// plans nothing more, whatever reserve it sees.
pub proof fn lemma_convergence_with_sufficient_reserve(
    entries: Seq<(u64, ValidatorStake)>,
    baseline_stake_amount: u64,
    bonus_stake_amount: u64,
    available: u64,
    second_available: u64,
)
    requires
        shortfall_total(entries, baseline_stake_amount, bonus_stake_amount) <= available,
    ensures
        distribution_plan(
            applied_entries(entries, baseline_stake_amount, bonus_stake_amount, available),
            baseline_stake_amount,
            bonus_stake_amount,
            second_available,
        ) == Seq::<StakeAdjustment>::empty(),
    decreases entries.len(),
{
    lemma_applied_entries_untouched(
        entries,
        baseline_stake_amount,
        bonus_stake_amount,
        available,
        second_available,
    );
    lemma_all_untouched_plan_empty(
        applied_entries(entries, baseline_stake_amount, bonus_stake_amount, available),
        baseline_stake_amount,
        bonus_stake_amount,
        second_available,
    );
}

/// After a pass with a sufficient reserve, no settled entry is worth
/// adjusting.
proof fn lemma_applied_entries_untouched(
    entries: Seq<(u64, ValidatorStake)>,
    baseline_stake_amount: u64,
    bonus_stake_amount: u64,
    available: u64,
    second_available: u64,
)
    requires
        shortfall_total(entries, baseline_stake_amount, bonus_stake_amount) <= available,
    ensures
        forall|k: int|
            0 <= k < applied_entries(
                entries,
                baseline_stake_amount,
                bonus_stake_amount,
                available,
            ).len() ==> {
                let e = #[trigger] applied_entries(
                    entries,
                    baseline_stake_amount,
                    bonus_stake_amount,
                    available,
                )[k];
                let target = target_balance_of(
                    e.1.stake_state,
                    baseline_stake_amount,
                    bonus_stake_amount,
                );
                decrease_amount(e.0, target) == 0 && increase_amount(
                    e.0,
                    target,
                    second_available,
                ) == 0
            },
    decreases entries.len(),
{
    if entries.len() == 0 {
    } else {
        let balance = entries[0].0;
        let v = entries[0].1;
        let target = target_balance_of(v.stake_state, baseline_stake_amount, bonus_stake_amount);
        let dec = decrease_amount(balance, target);
        let inc = increase_amount(balance, target, available);
        lemma_shortfall_nonnegative(
            entries.skip(1),
            baseline_stake_amount,
            bonus_stake_amount,
        );
        if dec > 0 {
            lemma_applied_entries_untouched(
                entries.skip(1),
                baseline_stake_amount,
                bonus_stake_amount,
                available,
                second_available,
            );
        } else if inc > 0 {
            lemma_applied_entries_untouched(
                entries.skip(1),
                baseline_stake_amount,
                bonus_stake_amount,
                (available - inc) as u64,
                second_available,
            );
        } else {
            lemma_applied_entries_untouched(
                entries.skip(1),
                baseline_stake_amount,
                bonus_stake_amount,
                available,
                second_available,
            );
        }
    }
}

/// Shortfalls never total below zero.
proof fn lemma_shortfall_nonnegative(
    entries: Seq<(u64, ValidatorStake)>,
    baseline_stake_amount: u64,
    bonus_stake_amount: u64,
)
    ensures
        shortfall_total(entries, baseline_stake_amount, bonus_stake_amount) >= 0,
    decreases entries.len(),
{
    if entries.len() == 0 {
    } else {
        lemma_shortfall_nonnegative(entries.skip(1), baseline_stake_amount, bonus_stake_amount);
    }
}

/// The total lamports the plan's decreases free back toward the reserve.
pub open spec fn planned_decrease_total(plan: Seq<StakeAdjustment>) -> int
    decreases plan.len(),
{
    if plan.len() == 0 {
        0
    } else {
        (match plan[0] {
            StakeAdjustment::Decrease { lamports, .. } => lamports as int,
            StakeAdjustment::Increase { .. } => 0,
        }) + planned_decrease_total(plan.skip(1))
    }
}

/// One pass shrinks the total worthwhile shortfall by at least its planned
/// increases.
proof fn lemma_applied_shortfall(
    entries: Seq<(u64, ValidatorStake)>,
    baseline_stake_amount: u64,
    bonus_stake_amount: u64,
    available: u64,
)
    ensures
        shortfall_total(
            applied_entries(entries, baseline_stake_amount, bonus_stake_amount, available),
            baseline_stake_amount,
            bonus_stake_amount,
        ) <= shortfall_total(entries, baseline_stake_amount, bonus_stake_amount)
            - planned_increase_total(
            distribution_plan(entries, baseline_stake_amount, bonus_stake_amount, available),
        ),
    decreases entries.len(),
{
    if entries.len() == 0 {
    } else {
        let balance = entries[0].0;
        let v = entries[0].1;
        let target = target_balance_of(v.stake_state, baseline_stake_amount, bonus_stake_amount);
        let dec = decrease_amount(balance, target);
        let inc = increase_amount(balance, target, available);
        let whole = distribution_plan(entries, baseline_stake_amount, bonus_stake_amount, available);
        let applied = applied_entries(
            entries,
            baseline_stake_amount,
            bonus_stake_amount,
            available,
        );
        if dec > 0 {
            lemma_applied_shortfall(
                entries.skip(1),
                baseline_stake_amount,
                bonus_stake_amount,
                available,
            );
            let rest = distribution_plan(
                entries.skip(1),
                baseline_stake_amount,
                bonus_stake_amount,
                available,
            );
            assert(whole.skip(1) =~= rest);
            assert(applied.skip(1) =~= applied_entries(
                entries.skip(1),
                baseline_stake_amount,
                bonus_stake_amount,
                available,
            ));
        } else if inc > 0 {
            lemma_applied_shortfall(
                entries.skip(1),
                baseline_stake_amount,
                bonus_stake_amount,
                (available - inc) as u64,
            );
            let rest = distribution_plan(
                entries.skip(1),
                baseline_stake_amount,
                bonus_stake_amount,
                (available - inc) as u64,
            );
            assert(whole.skip(1) =~= rest);
            assert(applied.skip(1) =~= applied_entries(
                entries.skip(1),
                baseline_stake_amount,
                bonus_stake_amount,
                (available - inc) as u64,
            ));
        } else {
            lemma_applied_shortfall(
                entries.skip(1),
                baseline_stake_amount,
                bonus_stake_amount,
                available,
            );
            assert(applied.skip(1) =~= applied_entries(
                entries.skip(1),
                baseline_stake_amount,
                bonus_stake_amount,
                available,
            ));
        }
    }
}

/// Convergence within two passes.
///
/// A pass's decreases land in the reserve at the next epoch boundary. When
/// the pool as a whole can fund every worthwhile shortfall — the reserve
/// already available plus what this pass frees — then the next pass, run
/// with that returned reserve, settles every validator, and a third pass
/// plans nothing at all, whatever reserve it sees.
pub proof fn lemma_convergence_within_two_passes(
    entries: Seq<(u64, ValidatorStake)>,
    baseline_stake_amount: u64,
    bonus_stake_amount: u64,
    available: u64,
    second_available: u64,
    third_available: u64,
)
    requires
        shortfall_total(entries, baseline_stake_amount, bonus_stake_amount) <= available
            + planned_decrease_total(
            distribution_plan(entries, baseline_stake_amount, bonus_stake_amount, available),
        ),
        second_available >= available_after(
            entries,
            baseline_stake_amount,
            bonus_stake_amount,
            available,
        ) + planned_decrease_total(
            distribution_plan(entries, baseline_stake_amount, bonus_stake_amount, available),
        ),
    ensures
        distribution_plan(
            applied_entries(
                applied_entries(entries, baseline_stake_amount, bonus_stake_amount, available),
                baseline_stake_amount,
                bonus_stake_amount,
                second_available,
            ),
            baseline_stake_amount,
            bonus_stake_amount,
            third_available,
        ) == Seq::<StakeAdjustment>::empty(),
{
    lemma_applied_shortfall(entries, baseline_stake_amount, bonus_stake_amount, available);
    lemma_increases_within_reserve(entries, baseline_stake_amount, bonus_stake_amount, available);
    lemma_convergence_with_sufficient_reserve(
        applied_entries(entries, baseline_stake_amount, bonus_stake_amount, available),
        baseline_stake_amount,
        bonus_stake_amount,
        second_available,
        third_available,
    );
}

/// Whether the planned removals name the vote address.
pub open spec fn removals_name_vote(plan: Seq<RemoveValidator>, vote: Address) -> bool {
    exists|k: int| 0 <= k < plan.len() && plan[k].vote_address == vote
}

/// Whether the planned admissions name the vote address.
pub open spec fn admissions_name_vote(plan: Seq<AddValidator>, vote: Address) -> bool {
    exists|k: int| 0 <= k < plan.len() && plan[k].vote_address == vote
}

/// The planned removals name a vote address exactly when the list holds it
/// in active status and the desired set no longer names it.
proof fn lemma_removals_name_exactly(
    list: Seq<ValidatorEntry>,
    desired: Seq<ValidatorStake>,
    stake_rent_exemption: u64,
    pool: Seq<u64>,
    vote: Address,
)
    ensures
        removals_name_vote(removals_of(list, desired, stake_rent_exemption, pool), vote) <==> (
        exists|i: int|
            0 <= i < list.len() && (#[trigger] list[i]).vote_account_address == vote && list[i].status
                == StakeStatus::Active && !desired_contains_vote(desired, vote)),
    decreases list.len(),
{
    if list.len() == 0 {
    } else {
        lemma_removals_name_exactly(
            list.drop_last(),
            desired,
            stake_rent_exemption,
            pool,
            vote,
        );
        let rest = removals_of(list.drop_last(), desired, stake_rent_exemption, pool);
        let whole = removals_of(list, desired, stake_rent_exemption, pool);
        match removal_of(list.last(), desired, stake_rent_exemption, pool) {
            Some(intent) => {
                assert(whole == rest.push(intent));
                if intent.vote_address == vote {
                    assert(list[list.len() - 1].vote_account_address == vote);
                    assert(removals_name_vote(whole, vote)) by {
                        assert(whole[whole.len() - 1] == intent);
                    };
                } else {
                    if removals_name_vote(whole, vote) {
                        let k = choose|k: int|
                            0 <= k < whole.len() && whole[k].vote_address == vote;
                        assert(k < rest.len() && whole[k] == rest[k]);
                        assert(removals_name_vote(rest, vote));
                    }
                    if removals_name_vote(rest, vote) {
                        let k = choose|k: int| 0 <= k < rest.len() && rest[k].vote_address == vote;
                        assert(whole[k] == rest[k]);
                        assert(removals_name_vote(whole, vote));
                    }
                }
            },
            None => {
                assert(whole == rest);
            },
        }
        if exists|i: int|
            0 <= i < list.len() && (#[trigger] list[i]).vote_account_address == vote && list[i].status
                == StakeStatus::Active && !desired_contains_vote(desired, vote) {
            let i = choose|i: int|
                0 <= i < list.len() && (#[trigger] list[i]).vote_account_address == vote
                    && list[i].status == StakeStatus::Active && !desired_contains_vote(
                    desired,
                    vote,
                );
            if i < list.len() - 1 {
                assert(list.drop_last()[i] == list[i]);
            }
        }
    }
}

/// The planned admissions name a vote address exactly when some desired
/// entry names it and its observed stake account qualifies for admission.
proof fn lemma_admissions_name_exactly(
    desired: Seq<ValidatorStake>,
    observations: Seq<Option<StakeAccountObservation>>,
    list: Seq<ValidatorEntry>,
    stake_rent_exemption: u64,
    staker: Seq<u64>,
    vote: Address,
)
    requires
        observations.len() == desired.len(),
    ensures
        admissions_name_vote(
            admissions_of(desired, observations, list, stake_rent_exemption, staker),
            vote,
        ) <==> (exists|i: int|
            0 <= i < desired.len() && (#[trigger] desired[i]).vote_address == vote && admission_of(
                desired[i],
                observations[i],
                list,
                stake_rent_exemption,
                staker,
            ) is Some),
    decreases desired.len(),
{
    if desired.len() == 0 {
    } else {
        lemma_admissions_name_exactly(
            desired.drop_last(),
            observations.drop_last(),
            list,
            stake_rent_exemption,
            staker,
            vote,
        );
        let rest = admissions_of(
            desired.drop_last(),
            observations.drop_last(),
            list,
            stake_rent_exemption,
            staker,
        );
        let whole = admissions_of(desired, observations, list, stake_rent_exemption, staker);
        let n = desired.len() - 1;
        match admission_of(
            desired.last(),
            observations.last(),
            list,
            stake_rent_exemption,
            staker,
        ) {
            Some(intent) => {
                assert(whole == rest.push(intent));
                assert(intent.vote_address == desired[n].vote_address);
                if intent.vote_address == vote {
                    assert(admissions_name_vote(whole, vote)) by {
                        assert(whole[whole.len() - 1] == intent);
                    };
                } else {
                    if admissions_name_vote(whole, vote) {
                        let k = choose|k: int|
                            0 <= k < whole.len() && whole[k].vote_address == vote;
                        assert(k < rest.len() && whole[k] == rest[k]);
                        assert(admissions_name_vote(rest, vote));
                    }
                    if admissions_name_vote(rest, vote) {
                        let k = choose|k: int| 0 <= k < rest.len() && rest[k].vote_address == vote;
                        assert(whole[k] == rest[k]);
                        assert(admissions_name_vote(whole, vote));
                    }
                }
            },
            None => {
                assert(whole == rest);
            },
        }
        if exists|i: int|
            0 <= i < desired.len() && (#[trigger] desired[i]).vote_address == vote && admission_of(
                desired[i],
                observations[i],
                list,
                stake_rent_exemption,
                staker,
            ) is Some {
            let i = choose|i: int|
                0 <= i < desired.len() && (#[trigger] desired[i]).vote_address == vote
                    && admission_of(
                    desired[i],
                    observations[i],
                    list,
                    stake_rent_exemption,
                    staker,
                ) is Some;
            if i < n {
                assert(desired.drop_last()[i] == desired[i]);
                assert(observations.drop_last()[i] == observations[i]);
            }
        }
    }
}

/// Whether a vote address is delegated stake in the pool after the planned
/// removals and admissions execute.
pub open spec fn in_pool_after(
    list: Seq<ValidatorEntry>,
    desired: Seq<ValidatorStake>,
    observations: Seq<Option<StakeAccountObservation>>,
    stake_rent_exemption: u64,
    staker: Seq<u64>,
    pool: Seq<u64>,
    vote: Address,
) -> bool {
    (list_contains(list, vote) && !removals_name_vote(
        removals_of(list, desired, stake_rent_exemption, pool),
        vote,
    )) || admissions_name_vote(
        admissions_of(desired, observations, list, stake_rent_exemption, staker),
        vote,
    )
}

/// Membership after one reconciliation: the pool's vote set moves to the
/// desired vote set, modulo validators whose stake account was not yet fully
/// active at admission time, and stale entries already on their way out.
///
/// Over a list with one entry per vote address: desired validators stay;
/// desired validators not yet listed arrive exactly when their observed
/// stake account qualifies; stale validators leave unless their entry
/// already left active status (such an entry is cleared by the pool's own
/// accounting update).
pub proof fn lemma_membership_after_reconcile(
    list: Seq<ValidatorEntry>,
    desired: Seq<ValidatorStake>,
    observations: Seq<Option<StakeAccountObservation>>,
    stake_rent_exemption: u64,
    staker: Seq<u64>,
    pool: Seq<u64>,
    vote: Address,
)
    requires
        observations.len() == desired.len(),
        forall|i: int, j: int|
            0 <= i < j < list.len() ==> (#[trigger] list[i]).vote_account_address != (
            #[trigger] list[j]).vote_account_address,
    ensures
        desired_contains_vote(desired, vote) && list_contains(list, vote) ==> in_pool_after(
            list,
            desired,
            observations,
            stake_rent_exemption,
            staker,
            pool,
            vote,
        ),
        desired_contains_vote(desired, vote) && !list_contains(list, vote) ==> (in_pool_after(
            list,
            desired,
            observations,
            stake_rent_exemption,
            staker,
            pool,
            vote,
        ) <==> exists|i: int|
            0 <= i < desired.len() && (#[trigger] desired[i]).vote_address == vote && admission_of(
                desired[i],
                observations[i],
                list,
                stake_rent_exemption,
                staker,
            ) is Some),
        !desired_contains_vote(desired, vote) ==> (in_pool_after(
            list,
            desired,
            observations,
            stake_rent_exemption,
            staker,
            pool,
            vote,
        ) <==> (list_contains(list, vote) && list_entry(list, vote).status
            != StakeStatus::Active)),
{
    lemma_removals_name_exactly(list, desired, stake_rent_exemption, pool, vote);
    lemma_admissions_name_exactly(
        desired,
        observations,
        list,
        stake_rent_exemption,
        staker,
        vote,
    );
    if !desired_contains_vote(desired, vote) {
        assert(!admissions_name_vote(
            admissions_of(desired, observations, list, stake_rent_exemption, staker),
            vote,
        ));
        if list_contains(list, vote) {
            let i = choose|i: int|
                0 <= i < list.len() && (#[trigger] list[i]).vote_account_address == vote;
            lemma_list_entry_unique(list, vote, i);
            if list[i].status == StakeStatus::Active {
                assert(removals_name_vote(
                    removals_of(list, desired, stake_rent_exemption, pool),
                    vote,
                ));
            } else {
                assert forall|j: int|
                    0 <= j < list.len() && (#[trigger] list[j]).vote_account_address
                        == vote implies list[j].status != StakeStatus::Active by {
                    assert(j == i);
                }
            }
        }
    }
    if desired_contains_vote(desired, vote) {
        assert(!(exists|i: int|
            0 <= i < list.len() && (#[trigger] list[i]).vote_account_address == vote
                && list[i].status == StakeStatus::Active && !desired_contains_vote(
                desired,
                vote,
            )));
    }
}

/// The entry `list_entry` finds for a vote address is the one at any index
/// that names it, when the list names each vote address at most once.
proof fn lemma_list_entry_unique(list: Seq<ValidatorEntry>, vote: Address, i: int)
    requires
        0 <= i < list.len(),
        list[i].vote_account_address == vote,
        forall|a: int, b: int|
            0 <= a < b < list.len() ==> (#[trigger] list[a]).vote_account_address != (
            #[trigger] list[b]).vote_account_address,
    ensures
        list_entry(list, vote) == list[i],
    decreases i,
{
    if i == 0 {
    } else {
        assert(list[0].vote_account_address != vote);
        lemma_list_entry_unique(list.skip(1), vote, i - 1);
        assert(list.skip(1)[i - 1] == list[i]);
    }
}

} // verus!
