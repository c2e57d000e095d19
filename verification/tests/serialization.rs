//! Round trips of the canonical record serialization.

use auction::entity_costs::EntityCosts;
use auction::keys::{PublicKey, URef};
use auction::records::{
    BridgeRecord, Delegator, SeigniorageRecipient, UnbondingPurse, ValidatorBid, ValidatorCredit,
    VestingSchedule,
};
use auction::whitelist_entry::WhitelistEntry;

#[test]
fn serialization_roundtrip() {
    let delegator_public_key: PublicKey = PublicKey { id: 42 };
    let validator_public_key: PublicKey = PublicKey { id: 43 };
    let entry = WhitelistEntry::new(delegator_public_key, validator_public_key);
    let bytes = entry.to_bytes();
    assert_eq!(bytes.len(), entry.serialized_length());
    let (back, consumed) = WhitelistEntry::from_bytes(&bytes).unwrap();
    assert_eq!(back, entry);
    assert_eq!(consumed, bytes.len());
}

#[test]
fn roundtrip_entity_costs() {
    let costs = EntityCosts {
        add_associated_key: 10_000,
        remove_associated_key: 123,
        update_associated_key: u64::MAX,
    };
    let bytes = costs.to_bytes();
    assert_eq!(bytes.len(), costs.serialized_length());
    let (back, consumed) = EntityCosts::from_bytes(&bytes).unwrap();
    assert_eq!(back, costs);
    assert_eq!(consumed, bytes.len());
}

#[test]
fn roundtrip_validator_bid() {
    let bid = ValidatorBid {
        validator_public_key: PublicKey { id: 7 },
        bonding_purse: URef { id: 99 },
        staked_amount: u128::MAX - 5,
        delegation_rate: 10,
        inactive: false,
        vesting_schedule: Some(VestingSchedule {
            initial_release_timestamp_millis: 86_400_000,
            initialized: true,
        }),
        minimum_delegation_amount: 500,
        maximum_delegation_amount: 1_000_000,
    };
    let bytes = bid.to_bytes();
    assert_eq!(bytes.len(), bid.serialized_length());
    let (back, consumed) = ValidatorBid::from_bytes(&bytes).unwrap();
    assert_eq!(back.validator_public_key, bid.validator_public_key);
    assert_eq!(back.bonding_purse, bid.bonding_purse);
    assert_eq!(back.staked_amount, bid.staked_amount);
    assert_eq!(back.delegation_rate, bid.delegation_rate);
    assert_eq!(back.inactive, bid.inactive);
    assert_eq!(
        back.vesting_schedule.unwrap().initial_release_timestamp_millis,
        86_400_000
    );
    assert!(back.vesting_schedule.unwrap().initialized);
    assert_eq!(back.minimum_delegation_amount, bid.minimum_delegation_amount);
    assert_eq!(back.maximum_delegation_amount, bid.maximum_delegation_amount);
    assert_eq!(consumed, bytes.len());

    let bare = ValidatorBid {
        vesting_schedule: None,
        ..bid
    };
    let bytes = bare.to_bytes();
    assert_eq!(bytes.len(), bare.serialized_length());
    let (back, _) = ValidatorBid::from_bytes(&bytes).unwrap();
    assert!(back.vesting_schedule.is_none());
}

#[test]
fn roundtrip_delegator() {
    let delegator = Delegator {
        delegator_public_key: PublicKey { id: 3 },
        staked_amount: 12345,
        bonding_purse: URef { id: 4 },
        validator_public_key: PublicKey { id: 5 },
        vesting_schedule: None,
    };
    let bytes = delegator.to_bytes();
    assert_eq!(bytes.len(), delegator.serialized_length());
    let (back, consumed) = Delegator::from_bytes(&bytes).unwrap();
    assert_eq!(back.delegator_public_key, delegator.delegator_public_key);
    assert_eq!(back.staked_amount, delegator.staked_amount);
    assert_eq!(back.bonding_purse, delegator.bonding_purse);
    assert_eq!(back.validator_public_key, delegator.validator_public_key);
    assert!(back.vesting_schedule.is_none());
    assert_eq!(consumed, bytes.len());
}

#[test]
fn roundtrip_validator_credit() {
    let credit = ValidatorCredit {
        validator_public_key: PublicKey { id: 8 },
        era_id: 77,
        amount: 1_000_000_000_000,
    };
    let bytes = credit.to_bytes();
    assert_eq!(bytes.len(), credit.serialized_length());
    let (back, consumed) = ValidatorCredit::from_bytes(&bytes).unwrap();
    assert_eq!(back.validator_public_key, credit.validator_public_key);
    assert_eq!(back.era_id, credit.era_id);
    assert_eq!(back.amount, credit.amount);
    assert_eq!(consumed, bytes.len());
}

#[test]
fn roundtrip_bridge_record() {
    let bridge = BridgeRecord {
        old_validator_public_key: PublicKey { id: 1 },
        new_validator_public_key: PublicKey { id: 2 },
        era_id: 9,
    };
    let bytes = bridge.to_bytes();
    assert_eq!(bytes.len(), bridge.serialized_length());
    let (back, consumed) = BridgeRecord::from_bytes(&bytes).unwrap();
    assert_eq!(back.old_validator_public_key, bridge.old_validator_public_key);
    assert_eq!(back.new_validator_public_key, bridge.new_validator_public_key);
    assert_eq!(back.era_id, bridge.era_id);
    assert_eq!(consumed, bytes.len());
}

#[test]
fn roundtrip_unbonding_purse() {
    let purse = UnbondingPurse::new(
        URef { id: 11 },
        PublicKey { id: 12 },
        PublicKey { id: 13 },
        14,
        15_000,
        Some(PublicKey { id: 16 }),
    );
    let bytes = purse.to_bytes();
    assert_eq!(bytes.len(), purse.serialized_length());
    let (back, consumed) = UnbondingPurse::from_bytes(&bytes).unwrap();
    assert_eq!(back.bonding_purse, purse.bonding_purse);
    assert_eq!(back.validator_public_key, purse.validator_public_key);
    assert_eq!(back.unbonder_public_key, purse.unbonder_public_key);
    assert_eq!(back.era_of_creation, purse.era_of_creation);
    assert_eq!(back.amount, purse.amount);
    assert_eq!(back.new_validator, purse.new_validator);
    assert_eq!(consumed, bytes.len());

    let withdrawal = UnbondingPurse {
        new_validator: None,
        ..purse
    };
    let bytes = withdrawal.to_bytes();
    assert_eq!(bytes.len(), withdrawal.serialized_length());
    let (back, _) = UnbondingPurse::from_bytes(&bytes).unwrap();
    assert!(back.new_validator.is_none());
}

#[test]
fn roundtrip_seigniorage_recipient() {
    let mut delegator_stake = Vec::new();
    delegator_stake.push((PublicKey { id: 21 }, 400u128));
    delegator_stake.push((PublicKey { id: 22 }, 600u128));
    let recipient = SeigniorageRecipient::new(1_000, 7, delegator_stake);
    let bytes = recipient.to_bytes();
    assert_eq!(bytes.len(), recipient.serialized_length());
    let (back, consumed) = SeigniorageRecipient::from_bytes(&bytes).unwrap();
    assert_eq!(back.stake, 1_000);
    assert_eq!(back.delegation_rate, 7);
    assert_eq!(back.delegator_stake.len(), 2);
    assert_eq!(back.delegator_stake[0], (PublicKey { id: 21 }, 400u128));
    assert_eq!(back.delegator_stake[1], (PublicKey { id: 22 }, 600u128));
    assert_eq!(consumed, bytes.len());
}

#[test]
fn truncated_input_is_rejected() {
    let credit = ValidatorCredit {
        validator_public_key: PublicKey { id: 8 },
        era_id: 77,
        amount: 5,
    };
    let bytes = credit.to_bytes();
    assert!(ValidatorCredit::from_bytes(&bytes[..bytes.len() - 1]).is_err());
    assert!(ValidatorCredit::from_bytes(&[]).is_err());
}

#[test]
fn noncanonical_flag_is_rejected() {
    let bid = ValidatorBid {
        validator_public_key: PublicKey { id: 7 },
        bonding_purse: URef { id: 9 },
        staked_amount: 1,
        delegation_rate: 0,
        inactive: true,
        vesting_schedule: None,
        minimum_delegation_amount: 0,
        maximum_delegation_amount: 0,
    };
    let mut bytes = bid.to_bytes();
    // The activity flag sits right after key, purse, stake and rate.
    bytes[33] = 2;
    assert!(ValidatorBid::from_bytes(&bytes).is_err());
}
