//! Unbond processing scenarios: maturation, redelegation, fallbacks,
//! the caller gate, and pruning.

use auction::error::Error;
use auction::keys::{AccountHash, BidAddr, PublicKey, URef};
use auction::records::{BidKind, UnbondingPurse, ValidatorBid};
use auction::store::{NamedValue, Store};
use auction::unbond::{process_unbond_requests, prune_processed_validator};

fn validator_bid(pk: PublicKey, purse: URef, staked: u128) -> ValidatorBid {
    ValidatorBid {
        validator_public_key: pk,
        bonding_purse: purse,
        staked_amount: staked,
        delegation_rate: 0,
        inactive: false,
        vesting_schedule: None,
        minimum_delegation_amount: 0,
        maximum_delegation_amount: u64::MAX,
    }
}

/// A store at era 10 with unbonding delay 2; validator 1 has a bid with
/// the given stake, the unbonder account 20 has a main purse, and one
/// unbond entry over 30 motes sits in a funded bonding purse.
fn setup(
    validator_stake: u128,
    new_validator: Option<PublicKey>,
) -> (Store, PublicKey, PublicKey, URef, URef) {
    let mut store = Store::new();
    store.era_id = NamedValue::Present(10);
    store.unbonding_delay = NamedValue::Present(2);
    let validator = PublicKey { id: 1 };
    let bonding = store.create_purse().unwrap();
    store.set_balance(bonding, 30);
    store.write_bid(
        BidAddr::Validator(validator),
        BidKind::Validator(validator_bid(validator, bonding, validator_stake)),
    );
    let unbonder = PublicKey { id: 20 };
    let main = store.create_purse().unwrap();
    store.set_main_purse(AccountHash { value: 20 }, main);
    let entry = UnbondingPurse::new(bonding, validator, unbonder, 8, 30, new_validator);
    let mut list = Vec::new();
    list.push(entry);
    store.write_unbonds(AccountHash { value: 20 }, list);
    (store, validator, unbonder, bonding, main)
}

#[test]
fn unbond_maturation() {
    let (mut store, _validator, _unbonder, bonding, main) = setup(0, None);
    assert_eq!(process_unbond_requests(&mut store, 10, 0), Ok(()));
    // The matured entry paid out and is gone.
    assert_eq!(store.available_balance(main), Some(30));
    assert_eq!(store.available_balance(bonding), Some(0));
    assert!(store.read_unbonds(AccountHash { value: 20 }).is_empty());
    // Running the processor again is a no-op.
    assert_eq!(process_unbond_requests(&mut store, 10, 0), Ok(()));
    assert_eq!(store.available_balance(main), Some(30));
}

#[test]
fn young_unbond_is_kept() {
    let (mut store, _validator, _unbonder, _bonding, main) = setup(100, None);
    // Entry from era 9 with delay 2 has not matured at era 10.
    let mut list = store.read_unbonds(AccountHash { value: 20 });
    list[0].era_of_creation = 9;
    store.write_unbonds(AccountHash { value: 20 }, list);
    assert_eq!(process_unbond_requests(&mut store, 10, 0), Ok(()));
    let kept = store.read_unbonds(AccountHash { value: 20 });
    assert_eq!(kept.len(), 1);
    assert_eq!(kept[0].era_of_creation, 9);
    assert_eq!(store.available_balance(main), Some(0));
}

#[test]
fn redelegation_success() {
    let target = PublicKey { id: 2 };
    let (mut store, _validator, unbonder, _bonding, main) = setup(0, Some(target));
    let target_purse = store.create_purse().unwrap();
    store.write_bid(
        BidAddr::Validator(target),
        BidKind::Validator(validator_bid(target, target_purse, 1_000)),
    );
    assert_eq!(process_unbond_requests(&mut store, 10, 0), Ok(()));
    // No withdrawal happened; the funds were re-staked with the target.
    assert_eq!(store.available_balance(main), Some(0));
    match store.read_bid(BidAddr::Delegator(target, unbonder)) {
        Some(BidKind::Delegator(db)) => {
            assert_eq!(db.staked_amount, 30);
            assert_eq!(store.available_balance(db.bonding_purse), Some(30));
        }
        _ => panic!("redelegated bid missing"),
    }
    assert!(store.read_unbonds(AccountHash { value: 20 }).is_empty());
}

#[test]
fn redelegation_to_unstaked_target_falls_back() {
    let target = PublicKey { id: 2 };
    let (mut store, _validator, unbonder, _bonding, main) = setup(0, Some(target));
    let target_purse = store.create_purse().unwrap();
    store.write_bid(
        BidAddr::Validator(target),
        BidKind::Validator(validator_bid(target, target_purse, 0)),
    );
    assert_eq!(process_unbond_requests(&mut store, 10, 0), Ok(()));
    // The target was unstaked, so the funds moved to the unbonder.
    assert_eq!(store.available_balance(main), Some(30));
    assert!(store.read_bid(BidAddr::Delegator(target, unbonder)).is_none());
}

#[test]
fn redelegation_to_full_target_falls_back() {
    let target = PublicKey { id: 2 };
    let (mut store, _validator, _unbonder, _bonding, main) = setup(0, Some(target));
    let target_purse = store.create_purse().unwrap();
    store.write_bid(
        BidAddr::Validator(target),
        BidKind::Validator(validator_bid(target, target_purse, 1_000)),
    );
    // The target takes no delegators at all.
    assert_eq!(process_unbond_requests(&mut store, 0, 0), Ok(()));
    assert_eq!(store.available_balance(main), Some(30));
}

#[test]
fn only_the_system_may_process_unbonds() {
    let (mut store, _validator, _unbonder, _bonding, _main) = setup(0, None);
    store.caller = AccountHash { value: 77 };
    assert_eq!(
        process_unbond_requests(&mut store, 10, 0),
        Err(Error::InvalidCaller)
    );
    // Nothing moved.
    assert_eq!(store.read_unbonds(AccountHash { value: 20 }).len(), 1);
}

#[test]
fn missing_named_values_are_reported() {
    let (mut store, _validator, _unbonder, _bonding, _main) = setup(0, None);
    store.era_id = NamedValue::Absent;
    assert_eq!(process_unbond_requests(&mut store, 10, 0), Err(Error::MissingKey));
    store.era_id = NamedValue::WrongVariant;
    assert_eq!(
        process_unbond_requests(&mut store, 10, 0),
        Err(Error::InvalidKeyVariant)
    );
    store.era_id = NamedValue::Empty;
    assert_eq!(process_unbond_requests(&mut store, 10, 0), Err(Error::MissingValue));
}

#[test]
fn processing_prunes_emptied_bids() {
    // The validator's whole stake is unbonding; after maturation its
    // empty bid is pruned.
    let (mut store, validator, _unbonder, _bonding, _main) = setup(0, None);
    assert_eq!(process_unbond_requests(&mut store, 10, 0), Ok(()));
    assert!(store.read_bid(BidAddr::Validator(validator)).is_none());
}

#[test]
fn three_records() {
    // The pruning rule, on one validator with two delegators: the
    // zero-stake delegator with no pending unbond goes; the funded one
    // stays, and so does the validator bid it points at.
    let mut store = Store::new();
    let validator = PublicKey { id: 1 };
    let bonding = store.create_purse().unwrap();
    store.write_bid(
        BidAddr::Validator(validator),
        BidKind::Validator(validator_bid(validator, bonding, 0)),
    );
    let d_kept = PublicKey { id: 10 };
    let d_pruned = PublicKey { id: 11 };
    let p1 = store.create_purse().unwrap();
    let p2 = store.create_purse().unwrap();
    store.write_bid(
        BidAddr::Delegator(validator, d_kept),
        BidKind::Delegator(auction::records::Delegator {
            delegator_public_key: d_kept,
            staked_amount: 5,
            bonding_purse: p1,
            validator_public_key: validator,
            vesting_schedule: None,
        }),
    );
    store.write_bid(
        BidAddr::Delegator(validator, d_pruned),
        BidKind::Delegator(auction::records::Delegator {
            delegator_public_key: d_pruned,
            staked_amount: 0,
            bonding_purse: p2,
            validator_public_key: validator,
            vesting_schedule: None,
        }),
    );
    let still = Vec::new();
    assert_eq!(prune_processed_validator(&mut store, validator, &still), Ok(()));
    assert!(store.read_bid(BidAddr::Delegator(validator, d_pruned)).is_none());
    assert!(store.read_bid(BidAddr::Delegator(validator, d_kept)).is_some());
    assert!(store.read_bid(BidAddr::Validator(validator)).is_some());

    // Once the last delegator is gone too, the validator bid follows.
    store.prune_bid(BidAddr::Delegator(validator, d_kept));
    assert_eq!(prune_processed_validator(&mut store, validator, &still), Ok(()));
    assert!(store.read_bid(BidAddr::Validator(validator)).is_none());
}

#[test]
fn still_unbonding_keys_block_pruning() {
    let mut store = Store::new();
    let validator = PublicKey { id: 1 };
    let bonding = store.create_purse().unwrap();
    store.write_bid(
        BidAddr::Validator(validator),
        BidKind::Validator(validator_bid(validator, bonding, 0)),
    );
    let mut still = Vec::new();
    still.push(validator);
    assert_eq!(prune_processed_validator(&mut store, validator, &still), Ok(()));
    assert!(store.read_bid(BidAddr::Validator(validator)).is_some());
}
