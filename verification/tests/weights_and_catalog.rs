//! Weight computation, the bid catalog, snapshots, vesting, named
//! values, the entry-point table and the signer.

use auction::catalog::{
    era_validators_from_snapshot, get_validator_bids, prune_validator_credits, ratio_floor,
    set_validator_bids, ValidatorBidsDetail,
};
use auction::entry_points::auction_entry_points;
use auction::error::Error;
use auction::keys::{BidAddr, PublicKey, SecretKey, URef};
use auction::named::{get_era_id, get_validator_slots, set_era_id};
use auction::records::{BidKind, Delegator, ValidatorBid, ValidatorCredit, VestingSchedule};
use auction::signer::{Signer, TestSigner};
use auction::store::{NamedValue, SeigniorageRecipientsSnapshot, Store};
use auction::vesting::process_with_vesting_schedule;
use auction::whitelist_entry::WhitelistEntry;

fn validator_bid(pk: PublicKey, purse: URef, staked: u128) -> ValidatorBid {
    ValidatorBid {
        validator_public_key: pk,
        bonding_purse: purse,
        staked_amount: staked,
        delegation_rate: 0,
        inactive: false,
        vesting_schedule: None,
        minimum_delegation_amount: 0,
        maximum_delegation_amount: u64::MAX,
    }
}

#[test]
fn weight_formula_applies_credit_under_cap() {
    let store = Store::new();
    let validator = PublicKey { id: 1 };
    let mut detail = ValidatorBidsDetail::new();
    detail.insert_bid(validator, validator_bid(validator, URef { id: 1 }, 100));
    detail.insert_credit(
        validator,
        3,
        ValidatorCredit {
            validator_public_key: validator,
            era_id: 3,
            amount: 80,
        },
    );
    // The credit of 80 is capped at half the stake.
    let weights = detail
        .validator_weights(&store, 3, 0, 0, false, true, 1, 2)
        .unwrap();
    assert_eq!(weights.len(), 1);
    assert_eq!(weights[0], (validator, 150));
    // A quarter cap bites harder.
    let weights = detail
        .validator_weights(&store, 3, 0, 0, false, true, 1, 4)
        .unwrap();
    assert_eq!(weights[0], (validator, 125));
    // Without credits the weight is the stake alone.
    let weights = detail
        .validator_weights(&store, 3, 0, 0, false, false, 1, 2)
        .unwrap();
    assert_eq!(weights[0], (validator, 100));
    // A credit below the cap lands whole.
    let mut small = ValidatorBidsDetail::new();
    small.insert_bid(validator, validator_bid(validator, URef { id: 1 }, 100));
    small.insert_credit(
        validator,
        3,
        ValidatorCredit {
            validator_public_key: validator,
            era_id: 3,
            amount: 20,
        },
    );
    let weights = small
        .validator_weights(&store, 3, 0, 0, false, true, 1, 2)
        .unwrap();
    assert_eq!(weights[0], (validator, 120));
}

#[test]
fn weights_include_delegations_and_skip_ineligible_bids() {
    let mut store = Store::new();
    let staked = PublicKey { id: 1 };
    let inactive = PublicKey { id: 2 };
    let locked = PublicKey { id: 3 };
    store.write_bid(
        BidAddr::Delegator(staked, PublicKey { id: 10 }),
        BidKind::Delegator(Delegator {
            delegator_public_key: PublicKey { id: 10 },
            staked_amount: 40,
            bonding_purse: URef { id: 5 },
            validator_public_key: staked,
            vesting_schedule: None,
        }),
    );
    let mut detail = ValidatorBidsDetail::new();
    detail.insert_bid(staked, validator_bid(staked, URef { id: 1 }, 100));
    let mut inactive_bid = validator_bid(inactive, URef { id: 2 }, 50);
    inactive_bid.inactive = true;
    detail.insert_bid(inactive, inactive_bid);
    let mut locked_bid = validator_bid(locked, URef { id: 3 }, 60);
    locked_bid.vesting_schedule = Some(VestingSchedule {
        initial_release_timestamp_millis: 1_000_000,
        initialized: false,
    });
    detail.insert_bid(locked, locked_bid);
    // At timestamp 0 with a long period, the scheduled bid is locked and
    // the inactive one never counts.
    let weights = detail
        .validator_weights(&store, 3, 0, 1_000_000, false, false, 1, 2)
        .unwrap();
    assert_eq!(weights.len(), 1);
    assert_eq!(weights[0], (staked, 140));
    // Asking for the locked cohort yields exactly the scheduled bid.
    let weights = detail
        .validator_weights(&store, 3, 0, 1_000_000, true, false, 1, 2)
        .unwrap();
    assert_eq!(weights.len(), 1);
    assert_eq!(weights[0], (locked, 60));
}

#[test]
fn ratio_floor_rounds_down() {
    assert_eq!(ratio_floor(100, 1, 2), 50);
    assert_eq!(ratio_floor(101, 1, 2), 50);
    assert_eq!(ratio_floor(0, 1, 2), 0);
    assert_eq!(ratio_floor(7, 2, 3), 4);
    assert_eq!(ratio_floor(u128::MAX, 1, 1), u128::MAX);
}

#[test]
fn catalog_collects_bids_and_credits() {
    let mut store = Store::new();
    let v1 = PublicKey { id: 1 };
    let v2 = PublicKey { id: 2 };
    store.write_bid(
        BidAddr::Validator(v1),
        BidKind::Validator(validator_bid(v1, URef { id: 1 }, 100)),
    );
    store.write_bid(
        BidAddr::Validator(v2),
        BidKind::Validator(validator_bid(v2, URef { id: 2 }, 200)),
    );
    store.write_bid(
        BidAddr::Credit(v1, 3),
        BidKind::Credit(ValidatorCredit {
            validator_public_key: v1,
            era_id: 3,
            amount: 10,
        }),
    );
    // A second credit for the same validator collapses onto the first.
    store.write_bid(
        BidAddr::Credit(v1, 4),
        BidKind::Credit(ValidatorCredit {
            validator_public_key: v1,
            era_id: 4,
            amount: 99,
        }),
    );
    let detail = get_validator_bids(&store, 3).unwrap();
    assert_eq!(detail.validator_bids.len(), 2);
    assert_eq!(detail.validator_credits.len(), 1);
    assert_eq!(detail.validator_credits[0].0, v1);
    assert_eq!(detail.validator_credits[0].1.len(), 1);
    assert_eq!(detail.validator_credits[0].1[0].1.amount, 10);

    let (bids, credits) = detail.destructure();
    let mut store2 = Store::new();
    set_validator_bids(&mut store2, bids).unwrap();
    assert!(store2.read_bid(BidAddr::Validator(v1)).is_some());
    assert!(store2.read_bid(BidAddr::Validator(v2)).is_some());

    // Pruning removes exactly the observed era's credits.
    prune_validator_credits(&mut store, 3, &credits);
    assert!(store.read_bid(BidAddr::Credit(v1, 3)).is_none());
    assert!(store.read_bid(BidAddr::Credit(v1, 4)).is_some());
}

#[test]
fn era_validators_come_from_snapshot() {
    let mut recipients = Vec::new();
    let mut delegator_stake = Vec::new();
    delegator_stake.push((PublicKey { id: 10 }, 40u128));
    recipients.push((
        PublicKey { id: 1 },
        auction::records::SeigniorageRecipient::new(100, 0, delegator_stake),
    ));
    // This recipient's total overflows and is dropped.
    let mut big_stake = Vec::new();
    big_stake.push((PublicKey { id: 11 }, u128::MAX));
    recipients.push((
        PublicKey { id: 2 },
        auction::records::SeigniorageRecipient::new(1, 0, big_stake),
    ));
    let mut eras = Vec::new();
    eras.push((7u64, recipients));
    let snapshot = SeigniorageRecipientsSnapshot { eras };
    let era_validators = era_validators_from_snapshot(&snapshot);
    assert_eq!(era_validators.len(), 1);
    assert_eq!(era_validators[0].0, 7);
    assert_eq!(era_validators[0].1.len(), 1);
    assert_eq!(era_validators[0].1[0], (PublicKey { id: 1 }, 140));
}

#[test]
fn vesting_initializes_once() {
    let mut store = Store::new();
    let validator = PublicKey { id: 1 };
    let delegator = PublicKey { id: 10 };
    store.write_bid(
        BidAddr::Delegator(validator, delegator),
        BidKind::Delegator(Delegator {
            delegator_public_key: delegator,
            staked_amount: 40,
            bonding_purse: URef { id: 5 },
            validator_public_key: validator,
            vesting_schedule: Some(VestingSchedule {
                initial_release_timestamp_millis: 100,
                initialized: false,
            }),
        }),
    );
    let mut bid = validator_bid(validator, URef { id: 1 }, 100);
    bid.vesting_schedule = Some(VestingSchedule {
        initial_release_timestamp_millis: 100,
        initialized: false,
    });
    // Before the release nothing happens.
    assert_eq!(process_with_vesting_schedule(&mut store, &mut bid, 50, 1_000), Ok(false));
    // At the release both schedules initialize, the validator's newly.
    assert_eq!(process_with_vesting_schedule(&mut store, &mut bid, 100, 1_000), Ok(true));
    assert!(bid.vesting_schedule.unwrap().initialized);
    match store.read_bid(BidAddr::Delegator(validator, delegator)) {
        Some(BidKind::Delegator(db)) => assert!(db.vesting_schedule.unwrap().initialized),
        _ => panic!("delegator bid missing"),
    }
    // A second pass initializes nothing further.
    assert_eq!(process_with_vesting_schedule(&mut store, &mut bid, 200, 1_000), Ok(false));
}

#[test]
fn named_values_resolve_and_fail_precisely() {
    let mut store = Store::new();
    assert_eq!(get_era_id(&store), Err(Error::MissingKey));
    store.era_id = NamedValue::WrongVariant;
    assert_eq!(get_era_id(&store), Err(Error::InvalidKeyVariant));
    store.era_id = NamedValue::Empty;
    assert_eq!(get_era_id(&store), Err(Error::MissingValue));
    store.era_id = NamedValue::Present(5);
    assert_eq!(get_era_id(&store), Ok(5));
    assert_eq!(set_era_id(&mut store, 6), Ok(()));
    assert_eq!(get_era_id(&store), Ok(6));
    store.validator_slots = NamedValue::Present(100);
    assert_eq!(get_validator_slots(&store), Ok(100));
}

#[test]
fn auction_entry_point_table() {
    let table = auction_entry_points();
    assert_eq!(table.entry_points.len(), 12);
    assert_eq!(table.entry_points[0].name, "get_era_validators");
    assert_eq!(table.entry_points[1].name, "add_bid");
    assert_eq!(table.entry_points[1].args.len(), 5);
    assert_eq!(table.entry_points[5].name, "redelegate");
    assert_eq!(table.entry_points[5].args.len(), 4);
    assert_eq!(table.entry_points[9].name, "distribute");
    assert_eq!(table.entry_points[11].name, "activate_bid");
}

#[test]
fn signer_attests_with_derived_key() {
    let signer = TestSigner::new(SecretKey { id: 42 });
    assert_eq!(signer.public_signing_key(), PublicKey { id: 42 });
    let message = vec![1u8, 2, 3];
    let signature = signer.sign_bytes(&message).unwrap();
    assert_eq!(signature.signer_id, 42);
    assert_eq!(signature.message, message);
}

#[test]
fn whitelist_entry_getters() {
    let entry = WhitelistEntry::new(PublicKey { id: 42 }, PublicKey { id: 43 });
    assert_eq!(*entry.delegator_public_key(), PublicKey { id: 42 });
    assert_eq!(*entry.validator_public_key(), PublicKey { id: 43 });
}
