//! Plain-value model of the on-chain state that the reconciler reads.
//!
//! The engine never holds live chain objects: every reconciliation run is fed
//! freshly observed values (balances, activation states, the pool's validator
//! list) and plans from those alone.

use vstd::prelude::*;

verus! {

/// A 32-byte account address, held as four 64-bit little-endian words.
#[derive(Clone, Copy, Debug, PartialEq, Eq, Hash, Structural)]
pub struct Address {
    pub w0: u64,
    pub w1: u64,
    pub w2: u64,
    pub w3: u64,
}

impl View for Address {
    type V = Seq<u64>;

    open spec fn view(&self) -> Seq<u64> {
        seq![self.w0, self.w1, self.w2, self.w3]
    }
}

/// The address whose view is the given four-word sequence.
pub open spec fn addr_from_words(s: Seq<u64>) -> Address {
    Address { w0: s[0], w1: s[1], w2: s[2], w3: s[3] }
}

/// Funding tier desired for one validator.
#[derive(Clone, Copy, Debug, PartialEq, Eq, Structural)]
pub enum ValidatorStakeState {
    /// No stake beyond the enforced account minimum.
    Nothing,
    /// The caller-supplied baseline amount.
    Baseline,
    /// An equal share of whatever stake the baseline tier leaves over.
    Bonus,
}

/// One entry of the desired validator assignment.
#[derive(Clone, Copy, Debug, PartialEq, Eq, Structural)]
pub struct ValidatorStake {
    /// Identity account of the validator node.
    pub identity: Address,
    /// The validator's vote account.
    pub vote_address: Address,
    /// Desired funding tier.
    pub stake_state: ValidatorStakeState,
}

/// Status of one validator's stake account within the pool's list.
#[derive(Clone, Copy, Debug, PartialEq, Eq, Structural)]
pub enum StakeStatus {
    /// The validator stake account is active.
    Active,
    /// Only a deactivating transient stake account remains.
    DeactivatingTransient,
    /// The entry awaits removal at the next pool accounting update.
    ReadyForRemoval,
}

/// One entry of the pool's validator list.
#[derive(Clone, Copy, Debug, PartialEq, Eq, Structural)]
pub struct ValidatorEntry {
    /// The validator's vote account.
    pub vote_account_address: Address,
    /// Lamports delegated through this entry's stake account.
    pub stake_lamports: u64,
    /// Accounting status of the entry.
    pub status: StakeStatus,
}

/// The pool header fields the reconciler reads.
#[derive(Clone, Copy, Debug, PartialEq, Eq, Structural)]
pub struct PoolHeader {
    /// Address of the validator list account.
    pub validator_list: Address,
    /// Address of the reserve stake account.
    pub reserve_stake: Address,
    /// Total stake under the pool's management.
    pub total_stake_lamports: u64,
}

/// Epoch-boundary activation state of a stake account.
#[derive(Clone, Copy, Debug, PartialEq, Eq, Structural)]
pub enum StakeActivationState {
    /// Delegated this epoch; active from the next boundary on.
    Activating,
    /// Fully active.
    Active,
    /// Deactivated this epoch; inactive from the next boundary on.
    Deactivating,
    /// Holds no active stake.
    Inactive,
}

/// A staker-owned stake account as observed on chain.
#[derive(Clone, Copy, Debug, PartialEq, Eq, Structural)]
pub struct ObservedStakeAccount {
    /// The account's address.
    pub address: Address,
    /// The account's full lamport balance.
    pub lamports: u64,
    /// The account's activation state.
    pub state: StakeActivationState,
}

/// A validator stake account observed while deciding admission.
#[derive(Clone, Copy, Debug, PartialEq, Eq, Structural)]
pub struct StakeAccountObservation {
    /// The account's full lamport balance.
    pub lamports: u64,
    /// The account's activation state.
    pub state: StakeActivationState,
}

/// Whether the list holds an entry for the vote address.
pub open spec fn list_contains(list: Seq<ValidatorEntry>, vote: Address) -> bool {
    exists|i: int| 0 <= i < list.len() && list[i].vote_account_address == vote
}

/// The first list entry for the vote address.
pub open spec fn list_entry(list: Seq<ValidatorEntry>, vote: Address) -> ValidatorEntry
    recommends
        list_contains(list, vote),
    decreases list.len(),
{
    if list.len() == 0 {
        ValidatorEntry {
            vote_account_address: vote,
            stake_lamports: 0,
            status: StakeStatus::Active,
        }
    } else if list[0].vote_account_address == vote {
        list[0]
    } else {
        list_entry(list.skip(1), vote)
    }
}

/// Whether some desired entry names the vote address.
pub open spec fn desired_contains_vote(desired: Seq<ValidatorStake>, vote: Address) -> bool {
    exists|i: int| 0 <= i < desired.len() && desired[i].vote_address == vote
}

/// Find the first entry of the pool's validator list for a vote address.
pub fn find_entry(list: &Vec<ValidatorEntry>, vote: Address) -> (r: Option<ValidatorEntry>)
    ensures
        r matches Some(e) ==> list_contains(list@, vote) && e == list_entry(list@, vote),
        r is None ==> !list_contains(list@, vote),
{
    let mut i: usize = 0;
    while i < list.len()
        invariant
            0 <= i <= list@.len(),
            forall|j: int| 0 <= j < i ==> list@[j].vote_account_address != vote,
        decreases list@.len() - i,
    {
        if list[i].vote_account_address == vote {
            proof {
                lemma_list_entry_skip(list@, vote, i as int);
            }
            return Some(list[i]);
        }
        i = i + 1;
    }
    None
}

/// `list_entry` looked up past an unmatched prefix is the entry at the first
/// match.
proof fn lemma_list_entry_skip(list: Seq<ValidatorEntry>, vote: Address, i: int)
    requires
        0 <= i < list.len(),
        forall|j: int| 0 <= j < i ==> list[j].vote_account_address != vote,
        list[i].vote_account_address == vote,
    ensures
        list_contains(list, vote),
        list_entry(list, vote) == list[i],
    decreases i,
{
    if i == 0 {
    } else {
        lemma_list_entry_skip(list.skip(1), vote, i - 1);
        assert(list.skip(1)[i - 1] == list[i]);
    }
}

/// Whether the pool's validator list holds an entry for the vote address.
pub fn list_has_vote(list: &Vec<ValidatorEntry>, vote: Address) -> (r: bool)
    ensures
        r == list_contains(list@, vote),
{
    let mut i: usize = 0;
    while i < list.len()
        invariant
            0 <= i <= list@.len(),
            forall|j: int| 0 <= j < i ==> list@[j].vote_account_address != vote,
        decreases list@.len() - i,
    {
        if list[i].vote_account_address == vote {
            return true;
        }
        i = i + 1;
    }
    false
}

/// Whether the vector holds the address.
pub fn contains_address(v: &Vec<Address>, a: Address) -> (r: bool)
    ensures
        r == v@.contains(a),
{
    let mut i: usize = 0;
    while i < v.len()
        invariant
            0 <= i <= v@.len(),
            forall|j: int| 0 <= j < i ==> v@[j] != a,
        decreases v@.len() - i,
    {
        if v[i] == a {
            return true;
        }
        i = i + 1;
    }
    false
}

/// Whether some desired entry names the vote address.
pub fn desired_has_vote(desired: &Vec<ValidatorStake>, vote: Address) -> (r: bool)
    ensures
        r == desired_contains_vote(desired@, vote),
{
    let mut i: usize = 0;
    while i < desired.len()
        invariant
            0 <= i <= desired@.len(),
            forall|j: int| 0 <= j < i ==> desired@[j].vote_address != vote,
        decreases desired@.len() - i,
    {
        if desired[i].vote_address == vote {
            return true;
        }
        i = i + 1;
    }
    false
}

} // verus!
