//! Error kinds surfaced by the reconciliation engine.

use vstd::prelude::*;

verus! {

/// The reconciliation phase during which a batch of transactions was
/// submitted.
#[derive(Clone, Copy, Debug, PartialEq, Eq, Structural)]
pub enum Phase {
    /// Withdraw inactive staker-owned accounts back to the staker.
    Reclaim,
    /// Per-epoch pool accounting update.
    PoolUpdate,
    /// Removal of validators no longer desired.
    Prune,
    /// Admission of newly desired validators.
    Admit,
    /// Creation and delegation of validator stake accounts.
    Provision,
    /// Stake increases and decreases toward the tier targets.
    Distribute,
}

/// Everything that can go wrong while constructing the engine or running a
/// reconciliation.
#[derive(Clone, Copy, Debug, PartialEq, Eq, Structural)]
pub enum Error {
    /// The caller-supplied baseline amount is below the minimum stake change.
    BaselineTooSmall,
    /// The pool account body did not parse.
    InvalidPool,
    /// The validator list account body did not parse.
    InvalidValidatorList,
    /// The underlying RPC endpoint was unreachable.
    Network,
    /// The underlying RPC call timed out.
    RpcTimeout,
    /// An account body did not decode.
    AccountDecode,
    /// The pool does not hold enough stake to fund every baseline validator.
    InsufficientStake,
    /// An account held less than the balance it must keep.
    BalanceTooLow,
    /// Dry-run mode is reserved but not available.
    Unsupported,
    /// One or more transactions of a phase's batch failed to execute.
    TransactionsFailed(Phase),
}

} // verus!
