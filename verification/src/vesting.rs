//! The vesting scheduler.
//!
//! At a given timestamp, initializes the vesting schedules of a genesis
//! validator bid and of its delegator bids, once each: a schedule is
//! initialized when the timestamp has reached its initial release.

use vstd::prelude::*;

use crate::error::Error;
use crate::keys::{BidAddr, PublicKey};
use crate::records::{BidKind, Delegator, ValidatorBid, VestingSchedule};
use crate::store::{delegator_records_of, Store};

verus! {

/// Whether a schedule is initialized by this pass at `timestamp_millis`.
pub open spec fn spec_initializes(schedule: Option<VestingSchedule>, timestamp_millis: u64) -> bool {
    match schedule {
        Some(vs) => timestamp_millis >= vs.initial_release_timestamp_millis && !vs.initialized,
        None => false,
    }
}

/// A delegator record after the vesting pass at `timestamp_millis`.
pub open spec fn spec_vested_delegator(db: Delegator, timestamp_millis: u64) -> Delegator {
    if spec_initializes(db.vesting_schedule, timestamp_millis) {
        Delegator {
            vesting_schedule: Some(
                VestingSchedule { initialized: true, ..db.vesting_schedule->Some_0 },
            ),
            ..db
        }
    } else {
        db
    }
}

/// Initializes the vesting schedule of the bid and of each of its
/// delegator bids whose initial release has come, once each; returns
/// whether the bid's own schedule was newly initialized.
pub fn process_with_vesting_schedule(
    store: &mut Store,
    validator_bid: &mut ValidatorBid,
    timestamp_millis: u64,
    vesting_schedule_period_millis: u64,
) -> (r: Result<bool, Error>)
    requires
        old(store).wf(),
    ensures
        final(store).wf(),
        old(store).delegators_backed() ==> final(store).delegators_backed(),
        r == Ok::<bool, Error>(
            spec_initializes(old(validator_bid).vesting_schedule, timestamp_millis),
        ),
        *final(validator_bid) == (if spec_initializes(
            old(validator_bid).vesting_schedule,
            timestamp_millis,
        ) {
            ValidatorBid {
                vesting_schedule: Some(
                    VestingSchedule {
                        initialized: true,
                        ..old(validator_bid).vesting_schedule->Some_0
                    },
                ),
                ..*old(validator_bid)
            }
        } else {
            *old(validator_bid)
        }),
        *final(store) == (Store { bids: final(store).bids, ..*old(store) }),
        forall|d: PublicKey|
            #![trigger final(store).spec_bid(BidAddr::Delegator(old(validator_bid).validator_public_key, d))]
            final(store).spec_bid(
                BidAddr::Delegator(old(validator_bid).validator_public_key, d),
            ) == (match old(store).spec_bid(
                BidAddr::Delegator(old(validator_bid).validator_public_key, d),
            ) {
                Some(BidKind::Delegator(db)) => Some(
                    BidKind::Delegator(spec_vested_delegator(db, timestamp_millis)),
                ),
                other => other,
            }),
        forall|a2: BidAddr| #![trigger final(store).spec_bid(a2)]
            !a2.is_delegator_of(old(validator_bid).validator_public_key) ==> final(store).spec_bid(
                a2,
            ) == old(store).spec_bid(a2),
{
    let validator_public_key: PublicKey = validator_bid.validator_public_key;
    let delegator_bids = store.delegator_bids_of(&validator_public_key);
    let ghost dlist = delegator_bids@;
    proof {
        crate::store::lemma_records_distinct(old(store).bids@, validator_public_key);
        assert forall|k: int| 0 <= k < dlist.len() implies crate::assoc::assoc_find(
            old(store).bids@,
            BidAddr::Delegator(
                validator_public_key,
                (#[trigger] dlist[k]).delegator_public_key,
            ),
        ) == Some(BidKind::Delegator(dlist[k])) by {
            crate::store::lemma_record_to_find(old(store).bids@, validator_public_key, k);
        }
    }
    let mut i: usize = 0;
    while i < delegator_bids.len()
        invariant
            store.wf(),
            old(store).wf(),
            i <= dlist.len(),
            delegator_bids@ == dlist,
            dlist == delegator_records_of(old(store).bids@, validator_public_key),
            forall|k1: int, k2: int|
                0 <= k1 < k2 < dlist.len() ==> (#[trigger] dlist[k1]).delegator_public_key != (
                #[trigger] dlist[k2]).delegator_public_key,
            forall|k: int|
                0 <= k < dlist.len() ==> crate::assoc::assoc_find(
                    old(store).bids@,
                    BidAddr::Delegator(
                        validator_public_key,
                        (#[trigger] dlist[k]).delegator_public_key,
                    ),
                ) == Some(BidKind::Delegator(dlist[k])),
            forall|k: int|
                0 <= k < i ==> store.spec_bid(
                    BidAddr::Delegator(
                        validator_public_key,
                        (#[trigger] dlist[k]).delegator_public_key,
                    ),
                ) == Some(
                    BidKind::Delegator(spec_vested_delegator(dlist[k], timestamp_millis)),
                ),
            forall|a2: BidAddr| #![trigger store.spec_bid(a2)]
                (forall|k: int|
                    0 <= k < i ==> a2 != BidAddr::Delegator(
                        validator_public_key,
                        (#[trigger] dlist[k]).delegator_public_key,
                    )) ==> store.spec_bid(a2) == old(store).spec_bid(a2),
            old(store).delegators_backed() ==> store.delegators_backed(),
            *store == (Store { bids: store.bids, ..*old(store) }),
        decreases dlist.len() - i,
    {
        let mut delegator_bid: Delegator = delegator_bids[i];
        let delegator_staked_amount: u128 = delegator_bid.staked_amount;
        let initialize: bool = match &delegator_bid.vesting_schedule {
            Some(vesting_schedule) => timestamp_millis
                >= vesting_schedule.initial_release_timestamp_millis,
            None => false,
        };
        if initialize {
            let newly_initialized: bool = match &mut delegator_bid.vesting_schedule {
                Some(vesting_schedule) => vesting_schedule.initialize_with_schedule(
                    delegator_staked_amount,
                    vesting_schedule_period_millis,
                ),
                None => false,
            };
            if newly_initialized {
                let ghost pre = *store;
                proof {
                    crate::store::lemma_find_implies_agree(
                        old(store).bids@,
                        BidAddr::Delegator(
                            validator_public_key,
                            dlist[i as int].delegator_public_key,
                        ),
                    );
                }
                store.write_bid(
                    BidAddr::Delegator(validator_public_key, delegator_bid.delegator_public_key),
                    BidKind::Delegator(delegator_bid),
                );
                proof {
                    assert(delegator_bid == spec_vested_delegator(
                        dlist[i as int],
                        timestamp_millis,
                    ));
                    crate::delegation::lemma_backed_preserved_public(
                        pre,
                        *store,
                        validator_public_key,
                        delegator_bid.delegator_public_key,
                    );
                }
            }
        }
        proof {
            assert(store.spec_bid(
                BidAddr::Delegator(
                    validator_public_key,
                    dlist[i as int].delegator_public_key,
                ),
            ) == Some(BidKind::Delegator(spec_vested_delegator(dlist[i as int], timestamp_millis))));
        }
        i = i + 1;
    }
    proof {
        assert forall|d: PublicKey|
            #![trigger store.spec_bid(BidAddr::Delegator(validator_public_key, d))]
            store.spec_bid(BidAddr::Delegator(validator_public_key, d)) == (match old(
            store,
        ).spec_bid(BidAddr::Delegator(validator_public_key, d)) {
            Some(BidKind::Delegator(db)) => Some(
                BidKind::Delegator(spec_vested_delegator(db, timestamp_millis)),
            ),
            other => other,
        }) by {
            match old(store).spec_bid(BidAddr::Delegator(validator_public_key, d)) {
                Some(kind) => {
                    crate::store::lemma_find_to_record(old(store).bids@, validator_public_key, d);
                    let db = kind->Delegator_0;
                    assert(dlist.contains(db));
                    let k = choose|k: int| 0 <= k < dlist.len() && dlist[k] == db;
                    assert(store.spec_bid(
                        BidAddr::Delegator(validator_public_key, dlist[k].delegator_public_key),
                    ) == Some(
                        BidKind::Delegator(spec_vested_delegator(dlist[k], timestamp_millis)),
                    ));
                },
                None => {
                    assert forall|k: int| 0 <= k < dlist.len() implies BidAddr::Delegator(
                        validator_public_key,
                        d,
                    ) != BidAddr::Delegator(
                        validator_public_key,
                        (#[trigger] dlist[k]).delegator_public_key,
                    ) by {
                        if BidAddr::Delegator(validator_public_key, d) == BidAddr::Delegator(
                            validator_public_key,
                            dlist[k].delegator_public_key,
                        ) {
                            assert(crate::assoc::assoc_find(
                                old(store).bids@,
                                BidAddr::Delegator(
                                    validator_public_key,
                                    dlist[k].delegator_public_key,
                                ),
                            ) == Some(BidKind::Delegator(dlist[k])));
                        }
                    }
                },
            }
        }
    }
    let validator_staked_amount: u128 = validator_bid.staked_amount;
    match &mut validator_bid.vesting_schedule {
        Some(vesting_schedule) => {
            if timestamp_millis < vesting_schedule.initial_release_timestamp_millis {
                Ok(false)
            } else {
                Ok(
                    vesting_schedule.initialize_with_schedule(
                        validator_staked_amount,
                        vesting_schedule_period_millis,
                    ),
                )
            }
        },
        None => Ok(false),
    }
}

} // verus!
