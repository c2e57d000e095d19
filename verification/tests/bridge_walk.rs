//! Bridge-record walks: resolving rotated identities, the withdrawn
//! case, and the chain-length bound.

use auction::bids::{get_most_recent_validator_public_key, read_current_validator_bid};
use auction::error::Error;
use auction::keys::{BidAddr, PublicKey, URef};
use auction::records::{BidKind, BridgeRecord, ValidatorBid};
use auction::store::Store;

fn bridge(old_id: u64, new_id: u64) -> BidKind {
    BidKind::Bridge(BridgeRecord {
        old_validator_public_key: PublicKey { id: old_id },
        new_validator_public_key: PublicKey { id: new_id },
        era_id: 1,
    })
}

fn validator_bid(pk: PublicKey, staked: u128) -> ValidatorBid {
    ValidatorBid {
        validator_public_key: pk,
        bonding_purse: URef { id: 1 },
        staked_amount: staked,
        delegation_rate: 0,
        inactive: false,
        vesting_schedule: None,
        minimum_delegation_amount: 0,
        maximum_delegation_amount: u64::MAX,
    }
}

#[test]
fn bridge_chain() {
    let mut store = Store::new();
    store.next_purse = 2;
    let a = PublicKey { id: 1 };
    let c = PublicKey { id: 3 };
    store.write_bid(BidAddr::Validator(a), bridge(1, 2));
    store.write_bid(BidAddr::Validator(PublicKey { id: 2 }), bridge(2, 3));
    store.write_bid(BidAddr::Validator(c), BidKind::Validator(validator_bid(c, 100)));
    let bid = read_current_validator_bid(&store, BidAddr::Validator(a)).unwrap();
    assert_eq!(bid.validator_public_key, c);
    assert_eq!(
        get_most_recent_validator_public_key(&store, a),
        Ok(c)
    );

    // A cycle exhausts the bound.
    let mut cyclic = Store::new();
    cyclic.write_bid(BidAddr::Validator(PublicKey { id: 1 }), bridge(1, 2));
    cyclic.write_bid(BidAddr::Validator(PublicKey { id: 2 }), bridge(2, 3));
    cyclic.write_bid(BidAddr::Validator(PublicKey { id: 3 }), bridge(3, 1));
    assert_eq!(
        read_current_validator_bid(&cyclic, BidAddr::Validator(PublicKey { id: 1 })),
        Err(Error::BridgeRecordChainTooLong)
    );
    assert_eq!(
        get_most_recent_validator_public_key(&cyclic, PublicKey { id: 1 }),
        Err(Error::BridgeRecordChainTooLong)
    );
}

#[test]
fn withdrawn_validator_yields_last_key() {
    // The chain ends nowhere: the bid was withdrawn. The key-only walk
    // returns the last key encountered; the record walk reports absence.
    let mut store = Store::new();
    store.write_bid(BidAddr::Validator(PublicKey { id: 1 }), bridge(1, 2));
    assert_eq!(
        get_most_recent_validator_public_key(&store, PublicKey { id: 1 }),
        Ok(PublicKey { id: 2 })
    );
    assert_eq!(
        read_current_validator_bid(&store, BidAddr::Validator(PublicKey { id: 1 })),
        Err(Error::ValidatorNotFound)
    );
}
