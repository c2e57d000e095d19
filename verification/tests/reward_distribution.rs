//! Reward distribution: onto live stakes, and onto the highest-era
//! unbond entry once the stake is gone.

use auction::error::Error;
use auction::keys::{AccountHash, BidAddr, PublicKey, URef};
use auction::records::{
    BidKind, Delegator, SeigniorageAllocation, UnbondingPurse, ValidatorBid,
};
use auction::rewards::{distribute_delegator_rewards, distribute_validator_rewards};
use auction::store::Store;

fn validator_bid(pk: PublicKey, purse: URef, staked: u128) -> ValidatorBid {
    ValidatorBid {
        validator_public_key: pk,
        bonding_purse: purse,
        staked_amount: staked,
        delegation_rate: 0,
        inactive: false,
        vesting_schedule: None,
        minimum_delegation_amount: 0,
        maximum_delegation_amount: u64::MAX,
    }
}

#[test]
fn validator_reward_grows_stake() {
    let mut store = Store::new();
    let validator = PublicKey { id: 1 };
    let bonding = store.create_purse().unwrap();
    store.write_bid(
        BidAddr::Validator(validator),
        BidKind::Validator(validator_bid(validator, bonding, 100)),
    );
    let mut allocations = Vec::new();
    let r = distribute_validator_rewards(&mut store, &mut allocations, validator, 25);
    assert_eq!(r, Ok(bonding));
    match store.read_bid(BidAddr::Validator(validator)) {
        Some(BidKind::Validator(b)) => assert_eq!(b.staked_amount, 125),
        _ => panic!("validator bid missing"),
    }
    assert_eq!(allocations.len(), 1);
    match allocations[0] {
        SeigniorageAllocation::Validator {
            validator_public_key,
            amount,
        } => {
            assert_eq!(validator_public_key, validator);
            assert_eq!(amount, 25);
        }
        _ => panic!("wrong allocation kind"),
    }
}

#[test]
fn distribute_to_already_unbonded_validator() {
    // The validator's bid has no stake left; the reward tops up its
    // unbond entry, saturating, and the allocation is still recorded.
    let mut store = Store::new();
    let validator = PublicKey { id: 1 };
    let bonding = store.create_purse().unwrap();
    store.write_bid(
        BidAddr::Validator(validator),
        BidKind::Validator(validator_bid(validator, bonding, 0)),
    );
    let entry = UnbondingPurse::new(bonding, validator, validator, 5, 10, None);
    let mut list = Vec::new();
    list.push(entry);
    store.write_unbonds(AccountHash { value: 1 }, list);
    let mut allocations = Vec::new();
    let r = distribute_validator_rewards(&mut store, &mut allocations, validator, 7);
    assert_eq!(r, Ok(bonding));
    let unbonds = store.read_unbonds(AccountHash { value: 1 });
    assert_eq!(unbonds[0].amount, 17);
    assert_eq!(allocations.len(), 1);
}

#[test]
fn reward_falls_on_highest_era_unbond() {
    let mut store = Store::new();
    let validator = PublicKey { id: 1 };
    let p1 = store.create_purse().unwrap();
    let p2 = store.create_purse().unwrap();
    let mut list = Vec::new();
    list.push(UnbondingPurse::new(p1, validator, validator, 5, 10, None));
    list.push(UnbondingPurse::new(p2, validator, validator, 9, 20, None));
    store.write_unbonds(AccountHash { value: 1 }, list);
    let mut allocations = Vec::new();
    // No bid exists at all: the fallback picks the era-9 entry.
    let r = distribute_validator_rewards(&mut store, &mut allocations, validator, 3);
    assert_eq!(r, Ok(p2));
    let unbonds = store.read_unbonds(AccountHash { value: 1 });
    assert_eq!(unbonds[0].amount, 10);
    assert_eq!(unbonds[1].amount, 23);
}

#[test]
fn rewarding_a_vanished_validator_fails() {
    let mut store = Store::new();
    let mut allocations = Vec::new();
    let r = distribute_validator_rewards(&mut store, &mut allocations, PublicKey { id: 1 }, 3);
    assert_eq!(r, Err(Error::ValidatorNotFound));
    assert!(allocations.is_empty());
}

#[test]
fn delegator_rewards_preserve_order() {
    let mut store = Store::new();
    let validator = PublicKey { id: 1 };
    let bonding = store.create_purse().unwrap();
    store.write_bid(
        BidAddr::Validator(validator),
        BidKind::Validator(validator_bid(validator, bonding, 100)),
    );
    let d1 = PublicKey { id: 10 };
    let d2 = PublicKey { id: 11 };
    let p1 = store.create_purse().unwrap();
    let p2 = store.create_purse().unwrap();
    for (d, p, stake) in [(d1, p1, 40u128), (d2, p2, 60u128)] {
        store.write_bid(
            BidAddr::Delegator(validator, d),
            BidKind::Delegator(Delegator {
                delegator_public_key: d,
                staked_amount: stake,
                bonding_purse: p,
                validator_public_key: validator,
                vesting_schedule: None,
            }),
        );
    }
    let mut allocations = Vec::new();
    let mut rewards = Vec::new();
    rewards.push((d2, 6u128));
    rewards.push((d1, 4u128));
    let payouts =
        distribute_delegator_rewards(&mut store, &mut allocations, validator, rewards).unwrap();
    assert_eq!(payouts.len(), 2);
    assert_eq!(payouts[0], (AccountHash { value: 11 }, 6, p2));
    assert_eq!(payouts[1], (AccountHash { value: 10 }, 4, p1));
    assert_eq!(allocations.len(), 2);
    match allocations[0] {
        SeigniorageAllocation::Delegator {
            delegator_public_key,
            validator_public_key,
            amount,
        } => {
            assert_eq!(delegator_public_key, d2);
            assert_eq!(validator_public_key, validator);
            assert_eq!(amount, 6);
        }
        _ => panic!("wrong allocation kind"),
    }
    match store.read_bid(BidAddr::Delegator(validator, d1)) {
        Some(BidKind::Delegator(db)) => assert_eq!(db.staked_amount, 44),
        _ => panic!("delegator bid missing"),
    }
    match store.read_bid(BidAddr::Delegator(validator, d2)) {
        Some(BidKind::Delegator(db)) => assert_eq!(db.staked_amount, 66),
        _ => panic!("delegator bid missing"),
    }
}

#[test]
fn delegator_reward_falls_on_matching_unbond() {
    let mut store = Store::new();
    let validator = PublicKey { id: 1 };
    let other = PublicKey { id: 2 };
    let delegator = PublicKey { id: 10 };
    let p1 = store.create_purse().unwrap();
    let p2 = store.create_purse().unwrap();
    let mut list = Vec::new();
    // The later entry points at another validator and must be skipped.
    list.push(UnbondingPurse::new(p1, validator, delegator, 5, 10, None));
    list.push(UnbondingPurse::new(p2, other, delegator, 9, 20, None));
    store.write_unbonds(AccountHash { value: 10 }, list);
    let mut allocations = Vec::new();
    let mut rewards = Vec::new();
    rewards.push((delegator, 3u128));
    let payouts =
        distribute_delegator_rewards(&mut store, &mut allocations, validator, rewards).unwrap();
    assert_eq!(payouts[0].2, p1);
    let unbonds = store.read_unbonds(AccountHash { value: 10 });
    assert_eq!(unbonds[0].amount, 13);
    assert_eq!(unbonds[1].amount, 20);
}

#[test]
fn repeated_delegator_rewards_accumulate() {
    // The same delegator may be rewarded twice in one batch; the second
    // reward lands on the stake the first one left behind.
    let mut store = Store::new();
    let validator = PublicKey { id: 1 };
    let bonding = store.create_purse().unwrap();
    store.write_bid(
        BidAddr::Validator(validator),
        BidKind::Validator(validator_bid(validator, bonding, 100)),
    );
    let delegator = PublicKey { id: 10 };
    let purse = store.create_purse().unwrap();
    store.write_bid(
        BidAddr::Delegator(validator, delegator),
        BidKind::Delegator(Delegator {
            delegator_public_key: delegator,
            staked_amount: 40,
            bonding_purse: purse,
            validator_public_key: validator,
            vesting_schedule: None,
        }),
    );
    let mut allocations = Vec::new();
    let mut rewards = Vec::new();
    rewards.push((delegator, 5u128));
    rewards.push((delegator, 7u128));
    let payouts =
        distribute_delegator_rewards(&mut store, &mut allocations, validator, rewards).unwrap();
    assert_eq!(payouts.len(), 2);
    match store.read_bid(BidAddr::Delegator(validator, delegator)) {
        Some(BidKind::Delegator(db)) => assert_eq!(db.staked_amount, 52),
        _ => panic!("delegator bid missing"),
    }
    assert_eq!(allocations.len(), 2);
}

#[test]
fn missing_delegator_reward_target_fails() {
    let mut store = Store::new();
    let validator = PublicKey { id: 1 };
    let mut allocations = Vec::new();
    let mut rewards = Vec::new();
    rewards.push((PublicKey { id: 10 }, 3u128));
    let r = distribute_delegator_rewards(&mut store, &mut allocations, validator, rewards);
    assert_eq!(r, Err(Error::DelegatorNotFound));
}
