//! The stored record types of the bid space.
//!
//! Staked amounts are unsigned integers added with checked semantics:
//! overflow is an error, never wraparound. The one deliberate exception is
//! reward accumulation onto an already-departing unbond entry, which
//! saturates.

use vstd::prelude::*;

use crate::error::Error;
use crate::keys::{BidAddr, PublicKey, URef};

verus! {

/// The vesting schedule of a genesis bid: funds stay locked from the
/// initial release timestamp until the vesting period has elapsed.
#[derive(Clone, Copy, Debug, PartialEq, Eq)]
pub struct VestingSchedule {
    /// When the first locked tranche is released, in milliseconds.
    pub initial_release_timestamp_millis: u64,
    /// Whether the per-tranche amounts have been computed yet.
    pub initialized: bool,
}

impl VestingSchedule {
    /// Whether the schedule still locks the bid at `timestamp_millis`,
    /// given the configured vesting period.
    pub open spec fn spec_is_locked(self, timestamp_millis: u64, period_millis: u64) -> bool {
        (timestamp_millis as int) < self.initial_release_timestamp_millis + period_millis
    }

    /// Decides whether the schedule locks the bid at `timestamp_millis`.
    pub fn is_locked(&self, timestamp_millis: u64, period_millis: u64) -> (r: bool)
        ensures
            r == self.spec_is_locked(timestamp_millis, period_millis),
    {
        match self.initial_release_timestamp_millis.checked_add(period_millis) {
            Some(unlock_at) => timestamp_millis < unlock_at,
            None => true,
        }
    }

    /// Fixes the per-tranche release amounts from the staked amount, once.
    /// Returns true iff the schedule was uninitialized and is now initialized.
    pub fn initialize_with_schedule(
        &mut self,
        staked_amount: u128,
        vesting_schedule_period_millis: u64,
    ) -> (r: bool)
        ensures
            r == !old(self).initialized,
            final(self).initialized,
            final(self).initial_release_timestamp_millis == old(
                self,
            ).initial_release_timestamp_millis,
    {
        let was_initialized: bool = self.initialized;
        self.initialized = true;
        !was_initialized
    }
}

/// A validator's persistent bid record.
#[derive(Clone, Copy, Debug, PartialEq, Eq)]
pub struct ValidatorBid {
    /// The validator's identity.
    pub validator_public_key: PublicKey,
    /// The purse holding the validator's own staked funds.
    pub bonding_purse: URef,
    /// The validator's own staked amount.
    pub staked_amount: u128,
    /// The share of delegator rewards kept by the validator, in percent.
    pub delegation_rate: u8,
    /// An inactive bid is excluded from weight computation.
    pub inactive: bool,
    /// Present only on genesis bids whose funds vest over time.
    pub vesting_schedule: Option<VestingSchedule>,
    /// The smallest delegation this validator accepts.
    pub minimum_delegation_amount: u64,
    /// The largest delegation this validator accepts.
    pub maximum_delegation_amount: u64,
}

impl ValidatorBid {
    /// Whether the bid is locked by its vesting schedule at the era-end
    /// timestamp; a bid without a schedule is never locked.
    pub open spec fn spec_is_locked_with_vesting_schedule(
        self,
        timestamp_millis: u64,
        vesting_schedule_period_millis: u64,
    ) -> bool {
        match self.vesting_schedule {
            Some(schedule) => schedule.spec_is_locked(
                timestamp_millis,
                vesting_schedule_period_millis,
            ),
            None => false,
        }
    }

    /// Decides whether the bid is locked by its vesting schedule.
    pub fn is_locked_with_vesting_schedule(
        &self,
        timestamp_millis: u64,
        vesting_schedule_period_millis: u64,
    ) -> (r: bool)
        ensures
            r == self.spec_is_locked_with_vesting_schedule(
                timestamp_millis,
                vesting_schedule_period_millis,
            ),
    {
        match &self.vesting_schedule {
            Some(schedule) => schedule.is_locked(timestamp_millis, vesting_schedule_period_millis),
            None => false,
        }
    }

    /// Adds `amount` to the staked amount with checked semantics.
    pub fn increase_stake(&mut self, amount: u128) -> (r: Result<(), Error>)
        ensures
            old(self).staked_amount + amount <= u128::MAX ==> r == Ok::<(), Error>(())
                && *final(self) == (ValidatorBid {
                staked_amount: (old(self).staked_amount + amount) as u128,
                ..*old(self)
            }),
            old(self).staked_amount + amount > u128::MAX ==> r == Err::<(), Error>(
                Error::InvalidAmount,
            ) && *final(self) == *old(self),
    {
        match self.staked_amount.checked_add(amount) {
            Some(total) => {
                self.staked_amount = total;
                Ok(())
            },
            None => Err(Error::InvalidAmount),
        }
    }
}

/// A delegator's persistent bid record, tied to one validator.
#[derive(Clone, Copy, Debug, PartialEq, Eq)]
pub struct Delegator {
    /// The delegator's identity.
    pub delegator_public_key: PublicKey,
    /// The funds delegated to the validator.
    pub staked_amount: u128,
    /// The purse holding the delegated funds.
    pub bonding_purse: URef,
    /// The validator the stake is delegated to.
    pub validator_public_key: PublicKey,
    /// Present only on genesis delegations whose funds vest over time.
    pub vesting_schedule: Option<VestingSchedule>,
}

impl Delegator {
    /// A fresh delegation without a vesting schedule.
    pub fn unlocked(
        delegator_public_key: PublicKey,
        staked_amount: u128,
        bonding_purse: URef,
        validator_public_key: PublicKey,
    ) -> (r: Delegator)
        ensures
            r == (Delegator {
                delegator_public_key,
                staked_amount,
                bonding_purse,
                validator_public_key,
                vesting_schedule: None::<VestingSchedule>,
            }),
    {
        Delegator {
            delegator_public_key,
            staked_amount,
            bonding_purse,
            validator_public_key,
            vesting_schedule: None,
        }
    }

    /// Adds `amount` to the staked amount with checked semantics.
    pub fn increase_stake(&mut self, amount: u128) -> (r: Result<(), Error>)
        ensures
            old(self).staked_amount + amount <= u128::MAX ==> r == Ok::<(), Error>(())
                && *final(self) == (Delegator {
                staked_amount: (old(self).staked_amount + amount) as u128,
                ..*old(self)
            }),
            old(self).staked_amount + amount > u128::MAX ==> r == Err::<(), Error>(
                Error::InvalidAmount,
            ) && *final(self) == *old(self),
    {
        match self.staked_amount.checked_add(amount) {
            Some(total) => {
                self.staked_amount = total;
                Ok(())
            },
            None => Err(Error::InvalidAmount),
        }
    }
}

/// A per-validator, per-era accumulated stake credit.
#[derive(Clone, Copy, Debug, PartialEq, Eq)]
pub struct ValidatorCredit {
    /// The credited validator.
    pub validator_public_key: PublicKey,
    /// The era the credit belongs to; it is pruned at that era's end.
    pub era_id: u64,
    /// The credited amount.
    pub amount: u128,
}

/// A pointer from a rotated-away validator identity to its successor.
/// Bridge records are never pruned; they form a singly-linked chain.
#[derive(Clone, Copy, Debug, PartialEq, Eq)]
pub struct BridgeRecord {
    /// The identity that was rotated away.
    pub old_validator_public_key: PublicKey,
    /// The identity that replaced it.
    pub new_validator_public_key: PublicKey,
    /// The era the rotation happened in.
    pub era_id: u64,
}

/// Funds in the process of leaving a bid. With a target validator the
/// entry is a redelegation request; without one, a withdrawal request.
#[derive(Clone, Copy, Debug, PartialEq, Eq)]
pub struct UnbondingPurse {
    /// The purse the funds sit in while unbonding.
    pub bonding_purse: URef,
    /// The validator the funds were staked with.
    pub validator_public_key: PublicKey,
    /// The party the funds belong to.
    pub unbonder_public_key: PublicKey,
    /// The era the unbond request was made in.
    pub era_of_creation: u64,
    /// The amount leaving the bid.
    pub amount: u128,
    /// The validator to re-stake with once the entry matures, if any.
    pub new_validator: Option<PublicKey>,
}

impl UnbondingPurse {
    /// Builds an unbonding entry.
    pub fn new(
        bonding_purse: URef,
        validator_public_key: PublicKey,
        unbonder_public_key: PublicKey,
        era_of_creation: u64,
        amount: u128,
        new_validator: Option<PublicKey>,
    ) -> (r: UnbondingPurse)
        ensures
            r == (UnbondingPurse {
                bonding_purse,
                validator_public_key,
                unbonder_public_key,
                era_of_creation,
                amount,
                new_validator,
            }),
    {
        UnbondingPurse {
            bonding_purse,
            validator_public_key,
            unbonder_public_key,
            era_of_creation,
            amount,
            new_validator,
        }
    }

    /// Replaces the amount, keeping every other field.
    pub fn with_amount(&mut self, amount: u128)
        ensures
            *final(self) == (UnbondingPurse { amount, ..*old(self) }),
    {
        self.amount = amount;
    }
}

/// The staked amounts of one snapshot recipient: the validator's own
/// stake, its delegation rate, and each delegator's stake.
#[derive(Clone, Debug, PartialEq, Eq)]
pub struct SeigniorageRecipient {
    /// The validator's own stake.
    pub stake: u128,
    /// The share of delegator rewards kept by the validator, in percent.
    pub delegation_rate: u8,
    /// Each delegator's stake, keyed by delegator public key.
    pub delegator_stake: Vec<(PublicKey, u128)>,
}

/// The sum of the delegator stakes of a recipient, as an unbounded integer.
pub open spec fn delegator_stake_total(s: Seq<(PublicKey, u128)>) -> int
    decreases s.len(),
{
    if s.len() == 0 {
        0
    } else {
        s[0].1 + delegator_stake_total(s.drop_first())
    }
}

/// A partial delegator-stake sum never exceeds the whole: all summands
/// are non-negative.
pub proof fn lemma_delegator_stake_total_push(s: Seq<(PublicKey, u128)>, p: (PublicKey, u128))
    ensures
        delegator_stake_total(s.push(p)) == delegator_stake_total(s) + p.1,
    decreases s.len(),
{
    if s.len() == 0 {
        assert(s.push(p).drop_first() =~= s);
    } else {
        assert(s.push(p).drop_first() =~= s.drop_first().push(p));
        lemma_delegator_stake_total_push(s.drop_first(), p);
    }
}

impl SeigniorageRecipient {
    /// Builds a recipient.
    pub fn new(stake: u128, delegation_rate: u8, delegator_stake: Vec<(PublicKey, u128)>) -> (r:
        SeigniorageRecipient)
        ensures
            r.stake == stake,
            r.delegation_rate == delegation_rate,
            r.delegator_stake@ == delegator_stake@,
    {
        SeigniorageRecipient { stake, delegation_rate, delegator_stake }
    }

    /// The recipient's total stake: its own plus every delegator's.
    pub open spec fn spec_total_stake(self) -> int {
        self.stake + delegator_stake_total(self.delegator_stake@)
    }

    /// Sums the recipient's own stake and every delegator's stake with
    /// checked semantics; absent on overflow.
    pub fn total_stake(&self) -> (r: Option<u128>)
        ensures
            self.spec_total_stake() <= u128::MAX ==> r == Some(self.spec_total_stake() as u128),
            self.spec_total_stake() > u128::MAX ==> r is None,
    {
        let mut sum: u128 = self.stake;
        let mut i: usize = 0;
        while i < self.delegator_stake.len()
            invariant
                i <= self.delegator_stake@.len(),
                sum == self.stake + delegator_stake_total(self.delegator_stake@.take(i as int)),
            decreases self.delegator_stake@.len() - i,
        {
            proof {
                assert(self.delegator_stake@.take(i + 1 as int) =~= self.delegator_stake@.take(
                    i as int,
                ).push(self.delegator_stake@[i as int]));
                lemma_delegator_stake_total_push(
                    self.delegator_stake@.take(i as int),
                    self.delegator_stake@[i as int],
                );
            }
            match sum.checked_add(self.delegator_stake[i].1) {
                Some(total) => {
                    sum = total;
                },
                None => {
                    proof {
                        lemma_delegator_stake_partial_le(self.delegator_stake@, i + 1);
                    }
                    return None;
                },
            }
            i = i + 1;
        }
        proof {
            assert(self.delegator_stake@.take(self.delegator_stake@.len() as int)
                =~= self.delegator_stake@);
        }
        Some(sum)
    }
}

/// A prefix sum of delegator stakes never exceeds the full sum.
pub proof fn lemma_delegator_stake_partial_le(s: Seq<(PublicKey, u128)>, i: int)
    requires
        0 <= i <= s.len(),
    ensures
        delegator_stake_total(s.take(i)) <= delegator_stake_total(s),
    decreases s.len() - i,
{
    if i < s.len() {
        assert(s.take(i + 1) =~= s.take(i).push(s[i]));
        lemma_delegator_stake_total_push(s.take(i), s[i]);
        lemma_delegator_stake_partial_le(s, i + 1);
    } else {
        assert(s.take(i) =~= s);
    }
}

/// A recorded attribution of minted reward to a specific recipient.
#[derive(Clone, Copy, Debug, PartialEq, Eq)]
pub enum SeigniorageAllocation {
    /// Reward paid toward a validator's own stake.
    Validator {
        /// The rewarded validator.
        validator_public_key: PublicKey,
        /// The rewarded amount.
        amount: u128,
    },
    /// Reward paid toward one delegation.
    Delegator {
        /// The rewarded delegator.
        delegator_public_key: PublicKey,
        /// The validator the delegation points at.
        validator_public_key: PublicKey,
        /// The rewarded amount.
        amount: u128,
    },
}

/// A tagged union over every record stored in the bid space.
#[derive(Clone, Copy, Debug, PartialEq, Eq)]
pub enum BidKind {
    /// A validator's own bid.
    Validator(ValidatorBid),
    /// A delegator's bid.
    Delegator(Delegator),
    /// A per-era validator credit.
    Credit(ValidatorCredit),
    /// An identity-rotation pointer.
    Bridge(BridgeRecord),
}

} // verus!
