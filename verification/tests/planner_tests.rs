//! Tests of the phase planners on concrete chain snapshots.

use stake_o_matic::distribute::{
    build_distribution_order, distribute_validator_stake, plan_distribution, DistributionOutcome,
    StakeAdjustment,
};
use stake_o_matic::engine::{bonus_stake_amount, check_reconcile_mode, confirm_batch, new};
use stake_o_matic::errors::{Error, Phase};
use stake_o_matic::get_available_stake_balance;
use stake_o_matic::model::{
    Address, ObservedStakeAccount, PoolHeader, StakeAccountObservation, StakeActivationState,
    StakeStatus, ValidatorEntry, ValidatorStake, ValidatorStakeState,
};
use stake_o_matic::phases::{
    add_unmerged_transient_stake_accounts, add_validators_to_pool, create_validator_stake_accounts,
    not_busy_validators, remove_validators_from_pool, withdraw_inactive_stakes_to_staker,
    ProvisionIntent,
};
use stake_o_matic::{LAMPORTS_PER_SOL, MIN_STAKE_ACCOUNT_BALANCE, MIN_STAKE_RESERVE_BALANCE};

fn addr(n: u64) -> Address {
    Address {
        w0: n,
        w1: n + 1,
        w2: n + 2,
        w3: n + 3,
    }
}

fn validator(id: u64, vote: u64, tier: ValidatorStakeState) -> ValidatorStake {
    ValidatorStake {
        identity: addr(id),
        vote_address: addr(vote),
        stake_state: tier,
    }
}

fn entry(vote: u64, stake_lamports: u64, status: StakeStatus) -> ValidatorEntry {
    ValidatorEntry {
        vote_account_address: addr(vote),
        stake_lamports,
        status,
    }
}

fn sol(n: u64) -> u64 {
    n * LAMPORTS_PER_SOL
}

const RENT: u64 = 2_282_880;

#[test]
fn withdraws_only_inactive_accounts_in_full() {
    let accounts = vec![
        ObservedStakeAccount {
            address: addr(100),
            lamports: sol(3),
            state: StakeActivationState::Inactive,
        },
        ObservedStakeAccount {
            address: addr(200),
            lamports: sol(5),
            state: StakeActivationState::Active,
        },
        ObservedStakeAccount {
            address: addr(300),
            lamports: 17,
            state: StakeActivationState::Deactivating,
        },
        ObservedStakeAccount {
            address: addr(400),
            lamports: 42,
            state: StakeActivationState::Inactive,
        },
    ];
    let plan = withdraw_inactive_stakes_to_staker(&accounts);
    assert_eq!(plan.len(), 2);
    assert_eq!(plan[0].stake_address, addr(100));
    assert_eq!(plan[0].lamports, sol(3));
    assert_eq!(plan[1].stake_address, addr(400));
    assert_eq!(plan[1].lamports, 42);
}

#[test]
fn removes_only_stale_active_entries() {
    let list = vec![
        entry(10, sol(7), StakeStatus::Active),
        entry(20, RENT, StakeStatus::Active),
        entry(30, sol(4), StakeStatus::DeactivatingTransient),
        entry(40, sol(2), StakeStatus::Active),
        entry(50, sol(1), StakeStatus::ReadyForRemoval),
    ];
    let desired = vec![validator(1, 40, ValidatorStakeState::Baseline)];
    let plan = remove_validators_from_pool(&list, &desired, RENT, &addr(1000));
    assert_eq!(plan.len(), 2);
    // The entry holding more than the rent-exempt amount is first decreased.
    assert_eq!(plan[0].vote_address, addr(10));
    assert_eq!(plan[0].decrease_lamports, Some(sol(7)));
    // The entry at exactly the rent-exempt amount is removed without one.
    assert_eq!(plan[1].vote_address, addr(20));
    assert_eq!(plan[1].decrease_lamports, None);
}

#[test]
fn empty_desired_list_removes_every_active_entry() {
    let list = vec![
        entry(10, sol(7), StakeStatus::Active),
        entry(20, sol(3), StakeStatus::Active),
    ];
    let plan = remove_validators_from_pool(&list, &vec![], RENT, &addr(1000));
    assert_eq!(plan.len(), 2);
    assert_eq!(plan[0].vote_address, addr(10));
    assert_eq!(plan[1].vote_address, addr(20));
}

#[test]
fn admits_only_active_unlisted_candidates() {
    let list = vec![entry(10, sol(1), StakeStatus::Active)];
    let desired = vec![
        // Already listed: skipped.
        validator(1, 10, ValidatorStakeState::Baseline),
        // Not listed, account active at the enforced balance: admitted plain.
        validator(2, 20, ValidatorStakeState::Baseline),
        // Not listed, account still activating: skipped.
        validator(3, 30, ValidatorStakeState::Baseline),
        // Not listed, no account at all: skipped.
        validator(4, 40, ValidatorStakeState::Baseline),
        // Not listed, active with reward surplus: admitted with a split.
        validator(5, 50, ValidatorStakeState::Bonus),
    ];
    let observations = vec![
        Some(StakeAccountObservation {
            lamports: sol(2),
            state: StakeActivationState::Active,
        }),
        Some(StakeAccountObservation {
            lamports: RENT + MIN_STAKE_ACCOUNT_BALANCE,
            state: StakeActivationState::Active,
        }),
        Some(StakeAccountObservation {
            lamports: RENT + MIN_STAKE_ACCOUNT_BALANCE,
            state: StakeActivationState::Activating,
        }),
        None,
        Some(StakeAccountObservation {
            lamports: RENT + MIN_STAKE_ACCOUNT_BALANCE + 30,
            state: StakeActivationState::Active,
        }),
    ];
    let plan = add_validators_to_pool(&desired, &observations, &list, RENT, addr(7000));
    assert_eq!(plan.len(), 2);
    assert_eq!(plan[0].vote_address, addr(20));
    assert!(plan[0].split.is_none());
    assert_eq!(plan[1].vote_address, addr(50));
    let split = plan[1].split.unwrap();
    assert_eq!(split.lamports, 30);
}

#[test]
fn transient_accounts_mark_validators_busy() {
    let desired = vec![
        validator(1, 10, ValidatorStakeState::Baseline),
        validator(2, 20, ValidatorStakeState::Baseline),
        validator(3, 30, ValidatorStakeState::Baseline),
    ];
    let has_transient = vec![true, false, true];
    let mut busy = Vec::new();
    add_unmerged_transient_stake_accounts(&desired, &has_transient, &mut busy);
    assert_eq!(busy, vec![addr(1), addr(3)]);
}

#[test]
fn provisions_accounts_and_marks_busy() {
    let desired = vec![
        validator(1, 10, ValidatorStakeState::Baseline),
        validator(2, 20, ValidatorStakeState::Baseline),
        validator(3, 30, ValidatorStakeState::Baseline),
        validator(4, 40, ValidatorStakeState::Baseline),
        validator(5, 50, ValidatorStakeState::Baseline),
    ];
    let activations = vec![
        Some(StakeActivationState::Activating),
        Some(StakeActivationState::Active),
        Some(StakeActivationState::Deactivating),
        Some(StakeActivationState::Inactive),
        None,
    ];
    let staker_balance = RENT + MIN_STAKE_ACCOUNT_BALANCE;
    let mut busy = Vec::new();
    let plan = create_validator_stake_accounts(
        &desired,
        &activations,
        staker_balance,
        RENT,
        &addr(1000),
        &mut busy,
    );
    // The inactive account is delegated anew; the missing one is created.
    assert_eq!(plan.len(), 2);
    assert!(matches!(
        plan[0],
        ProvisionIntent::DelegateStake { vote_address, .. } if vote_address == addr(40)
    ));
    assert!(matches!(
        plan[1],
        ProvisionIntent::CreateAccount { vote_address } if vote_address == addr(50)
    ));
    // Everyone but the fully active validator is busy.
    assert_eq!(busy, vec![addr(1), addr(3), addr(4), addr(5)]);
}

#[test]
fn creation_stops_when_the_staker_cannot_fund_it() {
    // Three missing accounts, funds for two: the first two in desired order
    // are created, all three are busy.
    let desired = vec![
        validator(1, 10, ValidatorStakeState::Baseline),
        validator(2, 20, ValidatorStakeState::Baseline),
        validator(3, 30, ValidatorStakeState::Baseline),
    ];
    let activations = vec![None, None, None];
    let staker_balance = 2 * (RENT + MIN_STAKE_ACCOUNT_BALANCE) + 5;
    let mut busy = Vec::new();
    let plan = create_validator_stake_accounts(
        &desired,
        &activations,
        staker_balance,
        RENT,
        &addr(1000),
        &mut busy,
    );
    assert_eq!(plan.len(), 2);
    assert!(matches!(
        plan[0],
        ProvisionIntent::CreateAccount { vote_address } if vote_address == addr(10)
    ));
    assert!(matches!(
        plan[1],
        ProvisionIntent::CreateAccount { vote_address } if vote_address == addr(20)
    ));
    assert_eq!(busy, vec![addr(1), addr(2), addr(3)]);
}

#[test]
fn busy_validators_are_left_out_of_distribution() {
    let desired = vec![
        validator(1, 10, ValidatorStakeState::Baseline),
        validator(2, 20, ValidatorStakeState::Baseline),
        validator(3, 30, ValidatorStakeState::Baseline),
    ];
    let busy = vec![addr(2)];
    let eligible = not_busy_validators(&desired, &busy);
    assert_eq!(eligible.len(), 2);
    assert_eq!(eligible[0].identity, addr(1));
    assert_eq!(eligible[1].identity, addr(3));
}

#[test]
fn promotes_all_to_baseline() {
    // Three freshly admitted validators, the reserve funded with 330 SOL
    // beyond its floor: each receives exactly the baseline.
    let list = vec![
        entry(10, 0, StakeStatus::Active),
        entry(20, 0, StakeStatus::Active),
        entry(30, 0, StakeStatus::Active),
    ];
    let desired = vec![
        validator(1, 10, ValidatorStakeState::Baseline),
        validator(2, 20, ValidatorStakeState::Baseline),
        validator(3, 30, ValidatorStakeState::Baseline),
    ];
    let (plan, _outcomes, left) = distribute_validator_stake(&list, &desired, sol(10), 0, sol(330));
    assert_eq!(plan.len(), 3);
    for (adjustment, vote) in plan.iter().zip([addr(10), addr(20), addr(30)]) {
        assert!(matches!(
            adjustment,
            StakeAdjustment::Increase { vote_address, lamports }
                if *vote_address == vote && *lamports == sol(10)
        ));
    }
    assert_eq!(left, sol(300));
}

#[test]
fn promotes_all_to_bonus() {
    // From the baseline state, everyone flips to bonus: each validator's
    // target becomes an equal share of the whole pool, draining the reserve.
    let list = vec![
        entry(10, sol(10), StakeStatus::Active),
        entry(20, sol(10), StakeStatus::Active),
        entry(30, sol(10), StakeStatus::Active),
    ];
    let desired = vec![
        validator(1, 10, ValidatorStakeState::Bonus),
        validator(2, 20, ValidatorStakeState::Bonus),
        validator(3, 30, ValidatorStakeState::Bonus),
    ];
    let bonus = bonus_stake_amount(sol(330), sol(10), &desired).unwrap();
    assert_eq!(bonus, sol(110));
    let (plan, _outcomes, left) = distribute_validator_stake(&list, &desired, sol(10), bonus, sol(300));
    assert_eq!(plan.len(), 3);
    for adjustment in &plan {
        assert!(matches!(
            adjustment,
            StakeAdjustment::Increase { lamports, .. } if *lamports == sol(100)
        ));
    }
    assert_eq!(left, 0);
}

#[test]
fn mixed_tiers_prioritize_freed_stake() {
    // Tiers [Nothing, Baseline, Bonus] over balances [110, 10, 110] SOL with
    // little reserve: the unfunded validator's stake is freed first, and the
    // bonus validator draws what the reserve can give now.
    let list = vec![
        entry(10, sol(110), StakeStatus::Active),
        entry(20, sol(10), StakeStatus::Active),
        entry(30, sol(110), StakeStatus::Active),
    ];
    let desired = vec![
        validator(1, 10, ValidatorStakeState::Nothing),
        validator(2, 20, ValidatorStakeState::Baseline),
        validator(3, 30, ValidatorStakeState::Bonus),
    ];
    let bonus = bonus_stake_amount(sol(330), sol(10), &desired).unwrap();
    assert_eq!(bonus, sol(320));
    let (plan, _outcomes, left) = distribute_validator_stake(&list, &desired, sol(10), bonus, sol(100));
    assert_eq!(plan.len(), 2);
    assert!(matches!(
        plan[0],
        StakeAdjustment::Decrease { vote_address, lamports }
            if vote_address == addr(10) && lamports == sol(110)
    ));
    assert!(matches!(
        plan[1],
        StakeAdjustment::Increase { vote_address, lamports }
            if vote_address == addr(30) && lamports == sol(100)
    ));
    assert_eq!(left, 0);
}

#[test]
fn within_a_tier_smaller_balances_are_funded_first() {
    let list = vec![
        entry(10, sol(6), StakeStatus::Active),
        entry(20, sol(2), StakeStatus::Active),
    ];
    let desired = vec![
        validator(1, 10, ValidatorStakeState::Baseline),
        validator(2, 20, ValidatorStakeState::Baseline),
    ];
    // Reserve can fund only one full shortfall: the smaller account first.
    let (plan, _outcomes, left) = distribute_validator_stake(&list, &desired, sol(10), 0, sol(9));
    assert_eq!(plan.len(), 2);
    assert!(matches!(
        plan[0],
        StakeAdjustment::Increase { vote_address, lamports }
            if vote_address == addr(20) && lamports == sol(8)
    ));
    assert!(matches!(
        plan[1],
        StakeAdjustment::Increase { vote_address, lamports }
            if vote_address == addr(10) && lamports == sol(1)
    ));
    assert_eq!(left, 0);
}

#[test]
fn changes_below_the_minimum_are_not_issued() {
    let list = vec![
        entry(10, sol(10) - 5, StakeStatus::Active),
        entry(20, sol(10) + 5, StakeStatus::Active),
    ];
    let desired = vec![
        validator(1, 10, ValidatorStakeState::Baseline),
        validator(2, 20, ValidatorStakeState::Baseline),
    ];
    let (plan, _outcomes, left) = distribute_validator_stake(&list, &desired, sol(10), 0, sol(100));
    assert!(plan.is_empty());
    assert_eq!(left, sol(100));
}

#[test]
fn a_depleted_reserve_skips_the_increase() {
    let list = vec![entry(10, 0, StakeStatus::Active)];
    let desired = vec![validator(1, 10, ValidatorStakeState::Baseline)];
    // Available reserve below the minimum worthwhile change: nothing issued.
    let (plan, _outcomes, left) = distribute_validator_stake(&list, &desired, sol(10), 0, sol(1) - 1);
    assert!(plan.is_empty());
    assert_eq!(left, sol(1) - 1);
}

#[test]
fn desired_validators_missing_from_the_list_are_skipped() {
    let list = vec![entry(10, 0, StakeStatus::Active)];
    let desired = vec![
        validator(1, 10, ValidatorStakeState::Baseline),
        validator(2, 20, ValidatorStakeState::Baseline),
    ];
    let (plan, _outcomes, _) = distribute_validator_stake(&list, &desired, sol(10), 0, sol(100));
    assert_eq!(plan.len(), 1);
    assert!(matches!(
        plan[0],
        StakeAdjustment::Increase { vote_address, .. } if vote_address == addr(10)
    ));
}

#[test]
fn a_second_run_over_untouched_validators_plans_nothing() {
    // First run: funds the first validator in full, leaves the second for
    // want of reserve. Second run sees the untouched validator and the
    // leftover reserve, and plans nothing.
    let list = vec![
        entry(10, 0, StakeStatus::Active),
        entry(20, sol(5), StakeStatus::Active),
    ];
    let desired = vec![
        validator(1, 10, ValidatorStakeState::Baseline),
        validator(2, 20, ValidatorStakeState::Baseline),
    ];
    let available = sol(10) + sol(1) / 2;
    let (plan, _outcomes, left) = distribute_validator_stake(&list, &desired, sol(10), 0, available);
    assert_eq!(plan.len(), 1);
    assert!(matches!(
        plan[0],
        StakeAdjustment::Increase { vote_address, lamports }
            if vote_address == addr(10) && lamports == sol(10)
    ));
    assert_eq!(left, sol(1) / 2);

    // The touched validator is busy next run; balances of the untouched one
    // are unchanged.
    let second_list = vec![
        entry(10, sol(10), StakeStatus::Active),
        entry(20, sol(5), StakeStatus::Active),
    ];
    let second_desired = vec![validator(2, 20, ValidatorStakeState::Baseline)];
    let (second_plan, _second_outcomes, second_left) =
        distribute_validator_stake(&second_list, &second_desired, sol(10), 0, left);
    assert!(second_plan.is_empty());
    assert_eq!(second_left, left);
}

#[test]
fn the_reserve_keeps_its_floor() {
    // However thin the reserve, planned increases never draw past the floor.
    let list = vec![
        entry(10, 0, StakeStatus::Active),
        entry(20, 0, StakeStatus::Active),
    ];
    let desired = vec![
        validator(1, 10, ValidatorStakeState::Bonus),
        validator(2, 20, ValidatorStakeState::Bonus),
    ];
    let reserve_balance = RENT + MIN_STAKE_RESERVE_BALANCE + sol(3);
    let floor = RENT + MIN_STAKE_RESERVE_BALANCE;
    let available = get_available_stake_balance(reserve_balance, floor).unwrap();
    assert_eq!(available, sol(3));
    let (plan, _outcomes, _) = distribute_validator_stake(&list, &desired, sol(10), sol(100), available);
    let drawn: u64 = plan
        .iter()
        .map(|a| match a {
            StakeAdjustment::Increase { lamports, .. } => *lamports,
            StakeAdjustment::Decrease { .. } => 0,
        })
        .sum();
    assert!(drawn <= available);
    assert!(reserve_balance - drawn >= floor);
}

#[test]
fn available_balance_requires_the_floor() {
    assert_eq!(get_available_stake_balance(100, 30), Ok(70));
    assert_eq!(get_available_stake_balance(30, 30), Ok(0));
    assert_eq!(
        get_available_stake_balance(29, 30),
        Err(Error::BalanceTooLow)
    );
}

#[test]
fn insufficient_stake_fails_before_distribution() {
    // A 5 SOL pool cannot promise 10 SOL to each of three baseline
    // validators.
    let desired = vec![
        validator(1, 10, ValidatorStakeState::Baseline),
        validator(2, 20, ValidatorStakeState::Baseline),
        validator(3, 30, ValidatorStakeState::Baseline),
    ];
    assert_eq!(
        bonus_stake_amount(sol(5), sol(10), &desired),
        Err(Error::InsufficientStake)
    );
}

#[test]
fn bonus_is_the_even_share_of_the_leftover() {
    let desired = vec![
        validator(1, 10, ValidatorStakeState::Baseline),
        validator(2, 20, ValidatorStakeState::Bonus),
        validator(3, 30, ValidatorStakeState::Bonus),
        validator(4, 40, ValidatorStakeState::Nothing),
    ];
    assert_eq!(
        bonus_stake_amount(sol(330), sol(10), &desired),
        Ok(sol(160))
    );
    // Without bonus validators the amount is zero.
    let baseline_only = vec![validator(1, 10, ValidatorStakeState::Baseline)];
    assert_eq!(bonus_stake_amount(sol(330), sol(10), &baseline_only), Ok(0));
}

#[test]
fn the_engine_refuses_a_small_baseline() {
    let header = PoolHeader {
        validator_list: addr(2),
        reserve_stake: addr(3),
        total_stake_lamports: sol(330),
    };
    let r = new(addr(1), addr(4), sol(1) - 1, header, vec![]);
    assert!(matches!(r, Err(Error::BaselineTooSmall)));
    let r = new(addr(1), addr(4), sol(1), header, vec![]);
    let engine = r.unwrap();
    assert_eq!(engine.baseline_stake_amount, sol(1));
    assert_eq!(engine.stake_pool.total_stake_lamports, sol(330));
}

#[test]
fn epoch_update_installs_the_fresh_snapshot() {
    let header = PoolHeader {
        validator_list: addr(2),
        reserve_stake: addr(3),
        total_stake_lamports: sol(330),
    };
    let mut engine = new(addr(1), addr(4), sol(10), header, vec![]).unwrap();
    let fresh = PoolHeader {
        validator_list: addr(2),
        reserve_stake: addr(3),
        total_stake_lamports: sol(331),
    };
    let list = vec![entry(10, sol(10), StakeStatus::Active)];
    assert!(engine.epoch_update(0, 0, fresh, list.clone()).is_ok());
    assert_eq!(engine.stake_pool.total_stake_lamports, sol(331));
    assert_eq!(engine.validator_list.len(), 1);

    // A failed chunk batch aborts the update and keeps the snapshot.
    let worse = PoolHeader {
        validator_list: addr(2),
        reserve_stake: addr(3),
        total_stake_lamports: sol(400),
    };
    let r = engine.epoch_update(1, 0, worse, vec![]);
    assert_eq!(r, Err(Error::TransactionsFailed(Phase::PoolUpdate)));
    assert_eq!(engine.stake_pool.total_stake_lamports, sol(331));
    assert_eq!(engine.validator_list.len(), 1);
}

#[test]
fn update_replaces_the_snapshot() {
    let header = PoolHeader {
        validator_list: addr(2),
        reserve_stake: addr(3),
        total_stake_lamports: sol(1),
    };
    let mut engine = new(addr(1), addr(4), sol(10), header, vec![]).unwrap();
    let fresh = PoolHeader {
        validator_list: addr(2),
        reserve_stake: addr(3),
        total_stake_lamports: sol(2),
    };
    engine.update(fresh, vec![entry(10, 7, StakeStatus::Active)]);
    assert_eq!(engine.stake_pool.total_stake_lamports, sol(2));
    assert_eq!(engine.validator_list[0].stake_lamports, 7);
}

#[test]
fn batches_with_failures_abort_their_phase() {
    assert!(confirm_batch(Phase::Reclaim, 0).is_ok());
    assert_eq!(
        confirm_batch(Phase::Distribute, 2),
        Err(Error::TransactionsFailed(Phase::Distribute))
    );
}

#[test]
fn dry_run_is_unsupported() {
    assert_eq!(check_reconcile_mode(true), Err(Error::Unsupported));
    assert!(check_reconcile_mode(false).is_ok());
}

#[test]
fn the_distribution_order_lists_tiers_in_turn() {
    let list = vec![
        entry(10, sol(5), StakeStatus::Active),
        entry(20, sol(1), StakeStatus::Active),
        entry(30, sol(9), StakeStatus::Active),
        entry(40, sol(2), StakeStatus::Active),
    ];
    let desired = vec![
        validator(1, 10, ValidatorStakeState::Bonus),
        validator(2, 20, ValidatorStakeState::Baseline),
        validator(3, 30, ValidatorStakeState::Nothing),
        validator(4, 40, ValidatorStakeState::Baseline),
    ];
    let order = build_distribution_order(&list, &desired);
    let balances: Vec<u64> = order.iter().map(|e| e.0).collect();
    assert_eq!(balances, vec![sol(9), sol(1), sol(2), sol(5)]);
    assert_eq!(order[0].1.stake_state, ValidatorStakeState::Nothing);
    assert_eq!(order[3].1.stake_state, ValidatorStakeState::Bonus);
}

#[test]
fn an_initial_run_only_provisions_accounts() {
    // Three fresh validators, nothing on chain yet: no admissions, three
    // account creations, everyone busy, and the distribution phase has
    // nothing to do — the reserve stays where it was.
    let list: Vec<ValidatorEntry> = vec![];
    let desired = vec![
        validator(1, 10, ValidatorStakeState::Nothing),
        validator(2, 20, ValidatorStakeState::Nothing),
        validator(3, 30, ValidatorStakeState::Nothing),
    ];
    let observations = vec![None, None, None];
    let admissions = add_validators_to_pool(&desired, &observations, &list, RENT, addr(7000));
    assert!(admissions.is_empty());

    let mut busy = Vec::new();
    let activations = vec![None, None, None];
    let staker_balance = sol(100);
    let provisions = create_validator_stake_accounts(
        &desired,
        &activations,
        staker_balance,
        RENT,
        &addr(1000),
        &mut busy,
    );
    assert_eq!(provisions.len(), 3);
    assert_eq!(busy, vec![addr(1), addr(2), addr(3)]);

    let eligible = not_busy_validators(&desired, &busy);
    assert!(eligible.is_empty());
    let available = MIN_STAKE_RESERVE_BALANCE;
    let (plan, _outcomes, left) = distribute_validator_stake(&list, &eligible, sol(10), 0, available);
    assert!(plan.is_empty());
    assert_eq!(left, available);
}

#[test]
fn mixed_tiers_converge_over_two_epochs() {
    // Tiers [Nothing, Baseline, Bonus] over a 330 SOL pool, baseline 10 SOL:
    // the bonus target is 320 SOL. The first epoch frees the unfunded
    // validator's stake and spends what the reserve holds; once the freed
    // stake merges back, the second epoch tops the bonus validator up; a
    // third pass plans nothing.
    let desired = vec![
        validator(1, 10, ValidatorStakeState::Nothing),
        validator(2, 20, ValidatorStakeState::Baseline),
        validator(3, 30, ValidatorStakeState::Bonus),
    ];
    let bonus = bonus_stake_amount(sol(330), sol(10), &desired).unwrap();
    assert_eq!(bonus, sol(320));

    // Epoch one, starting from an evenly funded pool: balances 110/110/110
    // and nothing available beyond the reserve floor. The two tier-down
    // validators free their surplus; the bonus validator must wait.
    let list = vec![
        entry(10, sol(110), StakeStatus::Active),
        entry(20, sol(110), StakeStatus::Active),
        entry(30, sol(110), StakeStatus::Active),
    ];
    let (plan, _outcomes, left) = distribute_validator_stake(&list, &desired, sol(10), bonus, 0);
    assert_eq!(plan.len(), 2);
    assert!(matches!(
        plan[0],
        StakeAdjustment::Decrease { vote_address, lamports }
            if vote_address == addr(10) && lamports == sol(110)
    ));
    assert!(matches!(
        plan[1],
        StakeAdjustment::Decrease { vote_address, lamports }
            if vote_address == addr(20) && lamports == sol(100)
    ));
    assert_eq!(left, 0);

    // Epoch two: balances 0/10/110 and the freed 210 SOL merged back into
    // the reserve. The bonus validator draws its whole shortfall.
    let second_list = vec![
        entry(10, 0, StakeStatus::Active),
        entry(20, sol(10), StakeStatus::Active),
        entry(30, sol(110), StakeStatus::Active),
    ];
    let (second_plan, _second_outcomes, second_left) =
        distribute_validator_stake(&second_list, &desired, sol(10), bonus, sol(210));
    assert_eq!(second_plan.len(), 1);
    assert!(matches!(
        second_plan[0],
        StakeAdjustment::Increase { vote_address, lamports }
            if vote_address == addr(30) && lamports == sol(210)
    ));
    assert_eq!(second_left, 0);

    // Third pass: every validator sits on its target; nothing is planned.
    let third_list = vec![
        entry(10, 0, StakeStatus::Active),
        entry(20, sol(10), StakeStatus::Active),
        entry(30, sol(320), StakeStatus::Active),
    ];
    let (third_plan, _third_outcomes, _) = distribute_validator_stake(&third_list, &desired, sol(10), bonus, 0);
    assert!(third_plan.is_empty());
}

#[test]
fn draining_the_pool_reclaims_every_account() {
    // An empty desired list first removes every validator; next epoch the
    // deactivated accounts are withdrawn back to the staker in full.
    let list = vec![
        entry(10, sol(110), StakeStatus::Active),
        entry(20, sol(10), StakeStatus::Active),
    ];
    let removals = remove_validators_from_pool(&list, &vec![], RENT, &addr(1000));
    assert_eq!(removals.len(), 2);

    let reclaimed = vec![
        ObservedStakeAccount {
            address: addr(100),
            lamports: sol(110) + RENT,
            state: StakeActivationState::Inactive,
        },
        ObservedStakeAccount {
            address: addr(200),
            lamports: sol(10) + RENT,
            state: StakeActivationState::Inactive,
        },
    ];
    let withdrawals = withdraw_inactive_stakes_to_staker(&reclaimed);
    assert_eq!(withdrawals.len(), 2);
    assert_eq!(withdrawals[0].lamports, sol(110) + RENT);
    assert_eq!(withdrawals[1].lamports, sol(10) + RENT);
}

#[test]
fn membership_moves_to_the_desired_set() {
    // In the pool: a stale active entry, a kept entry, and a stale entry
    // already deactivating. Desired: the kept one, an active candidate, and
    // a candidate whose account is still activating.
    let list = vec![
        entry(10, sol(5), StakeStatus::Active),
        entry(20, sol(5), StakeStatus::Active),
        entry(30, sol(5), StakeStatus::DeactivatingTransient),
    ];
    let desired = vec![
        validator(2, 20, ValidatorStakeState::Baseline),
        validator(4, 40, ValidatorStakeState::Baseline),
        validator(5, 50, ValidatorStakeState::Baseline),
    ];
    let observations = vec![
        None,
        Some(StakeAccountObservation {
            lamports: RENT + MIN_STAKE_ACCOUNT_BALANCE,
            state: StakeActivationState::Active,
        }),
        Some(StakeAccountObservation {
            lamports: RENT + MIN_STAKE_ACCOUNT_BALANCE,
            state: StakeActivationState::Activating,
        }),
    ];
    let removals = remove_validators_from_pool(&list, &desired, RENT, &addr(1000));
    let admissions = add_validators_to_pool(&desired, &observations, &list, RENT, addr(7000));

    // Only the stale active entry leaves; only the active candidate arrives.
    assert_eq!(removals.len(), 1);
    assert_eq!(removals[0].vote_address, addr(10));
    assert_eq!(admissions.len(), 1);
    assert_eq!(admissions[0].vote_address, addr(40));

    // The votes in the pool afterwards: kept and arrived, plus the stale
    // entry already on its way out, which the pool's own accounting clears.
    let mut after: Vec<Address> = list
        .iter()
        .map(|e| e.vote_account_address)
        .filter(|v| !removals.iter().any(|r| r.vote_address == *v))
        .collect();
    after.extend(admissions.iter().map(|a| a.vote_address));
    assert_eq!(after, vec![addr(20), addr(30), addr(40)]);
}

#[test]
fn each_validator_gets_a_reported_outcome() {
    let list = vec![
        entry(10, sol(10), StakeStatus::Active),
        entry(20, sol(10) + 5, StakeStatus::Active),
        entry(30, 0, StakeStatus::Active),
        entry(40, 0, StakeStatus::Active),
    ];
    let desired = vec![
        validator(1, 10, ValidatorStakeState::Baseline),
        validator(2, 20, ValidatorStakeState::Baseline),
        validator(3, 30, ValidatorStakeState::Baseline),
        validator(4, 40, ValidatorStakeState::Baseline),
    ];
    let (plan, outcomes, left) =
        distribute_validator_stake(&list, &desired, sol(10), 0, sol(10) + 5);
    assert_eq!(plan.len(), 1);
    assert_eq!(
        outcomes,
        vec![
            DistributionOutcome::Adding {
                vote_address: addr(30),
                lamports: sol(10),
            },
            DistributionOutcome::ReserveDepleted {
                vote_address: addr(40),
            },
            DistributionOutcome::NoChange {
                vote_address: addr(10),
            },
            DistributionOutcome::RemovalTooSmall {
                vote_address: addr(20),
                lamports: 5,
            },
        ]
    );
    assert_eq!(left, 5);
}

#[test]
fn planning_follows_the_given_order() {
    let order = vec![
        (sol(4), validator(1, 10, ValidatorStakeState::Nothing)),
        (0, validator(2, 20, ValidatorStakeState::Baseline)),
    ];
    let (plan, _outcomes, left) = plan_distribution(&order, sol(10), 0, sol(6));
    assert_eq!(plan.len(), 2);
    assert!(matches!(
        plan[0],
        StakeAdjustment::Decrease { vote_address, lamports }
            if vote_address == addr(10) && lamports == sol(4)
    ));
    assert!(matches!(
        plan[1],
        StakeAdjustment::Increase { vote_address, lamports }
            if vote_address == addr(20) && lamports == sol(6)
    ));
    assert_eq!(left, 0);
}
