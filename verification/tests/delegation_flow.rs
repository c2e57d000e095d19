//! Delegation scenarios: growing and creating delegations, the
//! per-validator limit, and the rejection paths.

use auction::delegation::{create_unbonding_purse, handle_delegation};
use auction::error::Error;
use auction::keys::{AccountHash, BidAddr, PublicKey, URef};
use auction::records::{BidKind, ValidatorBid};
use auction::store::{NamedValue, Store};

fn validator_bid(pk: PublicKey, purse: URef, staked: u128) -> ValidatorBid {
    ValidatorBid {
        validator_public_key: pk,
        bonding_purse: purse,
        staked_amount: staked,
        delegation_rate: 0,
        inactive: false,
        vesting_schedule: None,
        minimum_delegation_amount: 0,
        maximum_delegation_amount: u64::MAX,
    }
}

/// A store with validator 1 staked at 100 and a source purse with 50.
fn setup() -> (Store, PublicKey, URef) {
    let mut store = Store::new();
    let validator = PublicKey { id: 1 };
    let bonding = store.create_purse().unwrap();
    store.write_bid(
        BidAddr::Validator(validator),
        BidKind::Validator(validator_bid(validator, bonding, 100)),
    );
    let source = store.create_purse().unwrap();
    store.set_balance(source, 50);
    (store, validator, source)
}

#[test]
fn simple_delegation() {
    let (mut store, validator, source) = setup();
    let delegator = PublicKey { id: 10 };
    let r = handle_delegation(&mut store, delegator, validator, source, 20, 2, 10);
    assert_eq!(r, Ok(20));
    let bid = store.read_bid(BidAddr::Delegator(validator, delegator));
    match bid {
        Some(BidKind::Delegator(db)) => {
            assert_eq!(db.staked_amount, 20);
            assert_eq!(store.available_balance(db.bonding_purse), Some(20));
        }
        _ => panic!("delegator bid missing"),
    }
    assert_eq!(store.available_balance(source), Some(30));
    // A follow-up below the minimum is rejected.
    let r = handle_delegation(&mut store, delegator, validator, source, 5, 2, 10);
    assert_eq!(r, Err(Error::DelegationAmountTooSmall));
}

#[test]
fn growing_delegation_adds_exactly_the_amount() {
    let (mut store, validator, source) = setup();
    let delegator = PublicKey { id: 10 };
    assert_eq!(
        handle_delegation(&mut store, delegator, validator, source, 20, 2, 10),
        Ok(20)
    );
    assert_eq!(
        handle_delegation(&mut store, delegator, validator, source, 15, 2, 10),
        Ok(35)
    );
    match store.read_bid(BidAddr::Delegator(validator, delegator)) {
        Some(BidKind::Delegator(db)) => {
            assert_eq!(db.staked_amount, 35);
            assert_eq!(store.available_balance(db.bonding_purse), Some(35));
        }
        _ => panic!("delegator bid missing"),
    }
    assert_eq!(store.available_balance(source), Some(15));
}

#[test]
fn max_delegators() {
    let (mut store, validator, source) = setup();
    let d1 = PublicKey { id: 10 };
    let d2 = PublicKey { id: 11 };
    let d3 = PublicKey { id: 12 };
    assert!(handle_delegation(&mut store, d1, validator, source, 10, 2, 10).is_ok());
    assert!(handle_delegation(&mut store, d2, validator, source, 10, 2, 10).is_ok());
    assert_eq!(
        handle_delegation(&mut store, d3, validator, source, 10, 2, 10),
        Err(Error::ExceededDelegatorSizeLimit)
    );
    assert_eq!(store.delegator_count(&validator), 2);
}

#[test]
fn delegation_rejections() {
    let (mut store, validator, source) = setup();
    let delegator = PublicKey { id: 10 };
    assert_eq!(
        handle_delegation(&mut store, delegator, validator, source, 0, 2, 10),
        Err(Error::BondTooSmall)
    );
    let absent = PublicKey { id: 99 };
    assert_eq!(
        handle_delegation(&mut store, delegator, absent, source, 20, 2, 10),
        Err(Error::ValidatorNotFound)
    );
    // A validator that has unbonded but is not yet pruned takes nothing.
    let empty = PublicKey { id: 2 };
    let purse = store.create_purse().unwrap();
    store.write_bid(
        BidAddr::Validator(empty),
        BidKind::Validator(validator_bid(empty, purse, 0)),
    );
    assert_eq!(
        handle_delegation(&mut store, delegator, empty, source, 20, 2, 10),
        Err(Error::ValidatorNotFound)
    );
    // The source purse holds 50; more cannot leave it, and the rejected
    // request is all-or-nothing: no bonding purse was minted for it.
    let purses_before = store.next_purse;
    assert_eq!(
        handle_delegation(&mut store, delegator, validator, source, 60, 2, 10),
        Err(Error::MintInsufficientFunds)
    );
    assert_eq!(store.next_purse, purses_before);
    assert_eq!(store.available_balance(source), Some(50));
    // Nothing was recorded by any rejected request.
    assert!(store
        .read_bid(BidAddr::Delegator(validator, delegator))
        .is_none());
}

#[test]
fn create_unbonding_purse_appends_entry() {
    let (mut store, validator, _source) = setup();
    store.era_id = NamedValue::Present(7);
    let bonding = match store.read_bid(BidAddr::Validator(validator)) {
        Some(BidKind::Validator(b)) => b.bonding_purse,
        _ => panic!("validator bid missing"),
    };
    store.set_balance(bonding, 100);
    let unbonder = PublicKey { id: 30 };
    assert_eq!(
        create_unbonding_purse(&mut store, validator, unbonder, bonding, 40, None),
        Ok(())
    );
    let unbonds = store.read_unbonds(AccountHash { value: 30 });
    assert_eq!(unbonds.len(), 1);
    assert_eq!(unbonds[0].amount, 40);
    assert_eq!(unbonds[0].era_of_creation, 7);
    assert_eq!(unbonds[0].validator_public_key, validator);
    assert!(unbonds[0].new_validator.is_none());
    // More than the purse holds cannot start unbonding.
    assert_eq!(
        create_unbonding_purse(&mut store, validator, unbonder, bonding, 1_000, None),
        Err(Error::UnbondTooLarge)
    );
}
