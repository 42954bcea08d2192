//! Client-side reconciliation engine for an on-chain stake pool.
//!
//! Each epoch the engine compares the pool's live state (a reserve account
//! plus one delegated stake account per validator) against a desired
//! assignment of funding tiers, and plans the state-transition messages that
//! drive the pool toward that assignment. The engine is pure with respect to
//! the chain: its caller reads accounts, hands the decoded values in, submits
//! the planned intents, and reports each batch's outcome back, so that every
//! decision the engine takes is a verified function of plain values.
//!
//! The pieces:
//! - [`model`] holds the plain-value snapshot types the planners read;
//! - [`addresses`] derives the stake account addresses deterministically;
//! - [`phases`] plans reclaiming, pruning, admission and provisioning;
//! - [`distribute`] plans the stake increases and decreases of a run;
//! - [`engine`] holds the configuration, the snapshot, and the run-wide
//!   decisions; [`errors`] names everything that can go wrong;
//! - [`laws`] proves the engine's guarantees: the reserve keeps its floor,
//!   no change is below the worthwhile minimum, increases never oversubscribe
//!   the reserve, a second run plans nothing, reconciliation converges, and
//!   membership moves to the desired set.

use vstd::prelude::*;

verus! {

/// Lamports per SOL.
pub const LAMPORTS_PER_SOL: u64 = 1_000_000_000;

/// Minimum amount of lamports in a validator stake account, on top of the
/// rent-exempt amount.
pub const MIN_STAKE_ACCOUNT_BALANCE: u64 = LAMPORTS_PER_SOL;

/// Minimum amount of lamports in the stake pool reserve, on top of the
/// rent-exempt amount.
pub const MIN_STAKE_RESERVE_BALANCE: u64 = 1;

/// Don't bother adjusting stake if less than this amount of lamports will be
/// affected (must be >= MIN_STAKE_ACCOUNT_BALANCE).
pub const MIN_STAKE_CHANGE_AMOUNT: u64 = MIN_STAKE_ACCOUNT_BALANCE;

/// Get the balance of the reserve stake account that is available for
/// distribution, excluding the part that must stay behind.
///
/// Fails when the account does not even hold the required floor.
pub fn get_available_stake_balance(balance: u64, reserve_stake_balance: u64) -> (r: Result<
    u64,
    crate::errors::Error,
>)
    ensures
        balance >= reserve_stake_balance ==> r == Ok::<u64, crate::errors::Error>(
            (balance - reserve_stake_balance) as u64,
        ),
        balance < reserve_stake_balance ==> r == Err::<u64, crate::errors::Error>(
            crate::errors::Error::BalanceTooLow,
        ),
{
    if balance < reserve_stake_balance {
        Err(crate::errors::Error::BalanceTooLow)
    } else {
        Ok(balance - reserve_stake_balance)
    }
}

} // verus!

pub mod addresses;
pub mod distribute;
pub mod engine;
pub mod errors;
pub mod laws;
pub mod model;
pub mod phases;

pub use engine::new;
pub use engine::StakePoolOMatic;
