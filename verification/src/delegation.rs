//! The delegation engine.
//!
//! Delegating moves funds from the delegator's source purse into a bonding
//! purse and records or grows the delegator bid. The engine enforces the
//! minimum delegation amount, the per-validator delegator limit, and
//! checked arithmetic on every staked amount.

use vstd::prelude::*;

use crate::assoc::assoc_find;
use crate::bids::read_validator_bid;
use crate::error::Error;
use crate::keys::{BidAddr, PublicKey, URef};
use crate::named::{get_era_id, named_read};
use crate::records::{BidKind, Delegator, UnbondingPurse, ValidatorBid};
use crate::store::{delegator_count_of, Store};

verus! {

/// The check a delegation request passes before any funds move: the error
/// it is rejected with, if any.
pub open spec fn delegation_precheck(
    s: Seq<(BidAddr, BidKind)>,
    validator_public_key: PublicKey,
    amount: u128,
    minimum_delegation_amount: u64,
) -> Option<Error> {
    if amount == 0 {
        Some(Error::BondTooSmall)
    } else if amount < minimum_delegation_amount {
        Some(Error::DelegationAmountTooSmall)
    } else {
        match assoc_find(s, BidAddr::Validator(validator_public_key)) {
            Some(BidKind::Validator(b)) => if b.staked_amount == 0 {
                // The validator has unbonded but the unbond is pending; an
                // empty bid still exists and must not take delegations.
                Some(Error::ValidatorNotFound)
            } else {
                None
            },
            _ => Some(Error::ValidatorNotFound),
        }
    }
}

/// The delegator record of the (validator, delegator) pair, if one exists.
pub open spec fn spec_delegator(
    s: Seq<(BidAddr, BidKind)>,
    validator_public_key: PublicKey,
    delegator_public_key: PublicKey,
) -> Option<Delegator> {
    match assoc_find(s, BidAddr::Delegator(validator_public_key, delegator_public_key)) {
        Some(BidKind::Delegator(db)) => Some(db),
        _ => None,
    }
}

/// Why a purse-to-purse transfer of `amount` would fail on `st`, if it
/// would.
pub open spec fn spec_transfer_err(st: Store, source: URef, target: URef, amount: u128) -> Option<
    Error,
> {
    match st.spec_balance(source) {
        None => Some(Error::MintSourceNotFound),
        Some(sb) => match st.spec_balance(target) {
            None => Some(Error::MintDestinationNotFound),
            Some(tb) => if sb < amount {
                Some(Error::MintInsufficientFunds)
            } else if source.id != target.id && tb + amount > u128::MAX {
                Some(Error::InvalidAmount)
            } else {
                None
            },
        },
    }
}

/// The balance of `u2` after a successful transfer of `amount` from
/// `source` to `target` on `st`.
pub open spec fn spec_transfer_balance(
    st: Store,
    source: URef,
    target: URef,
    amount: u128,
    u2: URef,
) -> Option<u128> {
    if source.id == target.id {
        st.spec_balance(u2)
    } else if u2.id == source.id {
        Some((st.spec_balance(source)->Some_0 - amount) as u128)
    } else if u2.id == target.id {
        Some((st.spec_balance(target)->Some_0 + amount) as u128)
    } else {
        st.spec_balance(u2)
    }
}

/// The state a successful delegation leaves behind, relative to the state
/// it found: the delegator bid grown by the amount (or created, on a
/// freshly minted bonding purse), and the amount moved from the source
/// purse into the bonding purse.
pub open spec fn spec_delegation_applied(
    pre: Store,
    post: Store,
    delegator_public_key: PublicKey,
    validator_public_key: PublicKey,
    source: URef,
    amount: u128,
) -> bool {
    match spec_delegator(pre.bids@, validator_public_key, delegator_public_key) {
        Some(db) => {
            &&& (forall|a2: BidAddr| #![trigger post.spec_bid(a2)]
                post.spec_bid(a2) == (if a2 == BidAddr::Delegator(
                    validator_public_key,
                    delegator_public_key,
                ) {
                    Some(
                        BidKind::Delegator(
                            Delegator { staked_amount: (db.staked_amount + amount) as u128, ..db },
                        ),
                    )
                } else {
                    pre.spec_bid(a2)
                }))
            &&& (forall|u2: URef| #![trigger post.spec_balance(u2)]
                post.spec_balance(u2) == spec_transfer_balance(
                    pre,
                    source,
                    db.bonding_purse,
                    amount,
                    u2,
                ))
            &&& post.next_purse == pre.next_purse
        },
        None => {
            let fresh = URef { id: pre.next_purse };
            &&& (forall|a2: BidAddr| #![trigger post.spec_bid(a2)]
                post.spec_bid(a2) == (if a2 == BidAddr::Delegator(
                    validator_public_key,
                    delegator_public_key,
                ) {
                    Some(
                        BidKind::Delegator(
                            Delegator {
                                delegator_public_key,
                                staked_amount: amount,
                                bonding_purse: fresh,
                                validator_public_key,
                                vesting_schedule: None,
                            },
                        ),
                    )
                } else {
                    pre.spec_bid(a2)
                }))
            &&& (forall|u2: URef| #![trigger post.spec_balance(u2)]
                post.spec_balance(u2) == (if u2.id == source.id {
                    Some((pre.spec_balance(source)->Some_0 - amount) as u128)
                } else if u2.id == fresh.id {
                    Some(amount)
                } else {
                    pre.spec_balance(u2)
                }))
            &&& post.next_purse == pre.next_purse + 1
        },
    }
}

/// The result a delegation request comes to on `pre`: the new total
/// staked amount of the delegation, or the error it is rejected with.
pub open spec fn spec_delegation_result(
    pre: Store,
    delegator_public_key: PublicKey,
    validator_public_key: PublicKey,
    source: URef,
    amount: u128,
    max_delegators_per_validator: u32,
    minimum_delegation_amount: u64,
) -> Result<u128, Error> {
    match delegation_precheck(pre.bids@, validator_public_key, amount, minimum_delegation_amount) {
        Some(e) => Err(e),
        None => match spec_delegator(pre.bids@, validator_public_key, delegator_public_key) {
            Some(db) => if db.staked_amount + amount > u128::MAX {
                Err(Error::InvalidAmount)
            } else {
                match spec_transfer_err(pre, source, db.bonding_purse, amount) {
                    Some(e) => Err(e),
                    None => Ok((db.staked_amount + amount) as u128),
                }
            },
            None => if delegator_count_of(pre.bids@, validator_public_key)
                >= max_delegators_per_validator {
                Err(Error::ExceededDelegatorSizeLimit)
            } else {
                match pre.spec_balance(source) {
                    None => Err(Error::MintSourceNotFound),
                    Some(sb) => if sb < amount {
                        Err(Error::MintInsufficientFunds)
                    } else if pre.next_purse == u64::MAX {
                        Err(Error::InvalidAmount)
                    } else {
                        Ok(amount)
                    },
                }
            },
        },
    }
}

/// Processes a delegation: rejects a zero or too-small amount and an
/// absent or unstaked validator; grows the existing delegator bid or
/// creates a new one under the delegator limit; moves the funds; and
/// returns the new total staked amount of the delegation.
pub fn handle_delegation(
    store: &mut Store,
    delegator_public_key: PublicKey,
    validator_public_key: PublicKey,
    source: URef,
    amount: u128,
    max_delegators_per_validator: u32,
    minimum_delegation_amount: u64,
) -> (r: Result<u128, Error>)
    requires
        old(store).wf(),
    ensures
        final(store).wf(),
        r == spec_delegation_result(
            *old(store),
            delegator_public_key,
            validator_public_key,
            source,
            amount,
            max_delegators_per_validator,
            minimum_delegation_amount,
        ),
        // A failed request of any kind leaves the state exactly as it was:
        // an entry point either commits all its writes or none.
        r is Err ==> *final(store) == *old(store),
        r is Ok ==> spec_delegation_applied(
            *old(store),
            *final(store),
            delegator_public_key,
            validator_public_key,
            source,
            amount,
        ),
        // Only delegator records and purse balances are written; every
        // other record space and named value is untouched.
        forall|a2: BidAddr| #![trigger final(store).spec_bid(a2)]
            !(a2 is Delegator) ==> final(store).spec_bid(a2) == old(store).spec_bid(a2),
        forall|acct: crate::keys::AccountHash| #![trigger final(store).spec_unbonds(acct)]
            final(store).spec_unbonds(acct) == old(store).spec_unbonds(acct),
        *final(store) == (Store {
            bids: final(store).bids,
            balances: final(store).balances,
            next_purse: final(store).next_purse,
            ..*old(store)
        }),
        // A rejected request leaves the state untouched.
        (match delegation_precheck(
            old(store).bids@,
            validator_public_key,
            amount,
            minimum_delegation_amount,
        ) {
            Some(e) => r == Err::<u128, Error>(e) && *final(store) == *old(store),
            None => true,
        }),
        // Growing an existing delegation.
        (match spec_delegator(old(store).bids@, validator_public_key, delegator_public_key) {
            Some(db) => delegation_precheck(
                old(store).bids@,
                validator_public_key,
                amount,
                minimum_delegation_amount,
            ) is None ==> {
                &&& db.staked_amount + amount > u128::MAX ==> r == Err::<u128, Error>(
                    Error::InvalidAmount,
                ) && *final(store) == *old(store)
                &&& db.staked_amount + amount <= u128::MAX ==> (match spec_transfer_err(
                    *old(store),
                    source,
                    db.bonding_purse,
                    amount,
                ) {
                    Some(e) => r == Err::<u128, Error>(e) && *final(store) == *old(store),
                    None => {
                        &&& r == Ok::<u128, Error>((db.staked_amount + amount) as u128)
                        &&& (forall|a2: BidAddr| #![trigger final(store).spec_bid(a2)]
                            final(store).spec_bid(a2) == (if a2 == BidAddr::Delegator(
                                validator_public_key,
                                delegator_public_key,
                            ) {
                                Some(
                                    BidKind::Delegator(
                                        Delegator {
                                            staked_amount: (db.staked_amount + amount) as u128,
                                            ..db
                                        },
                                    ),
                                )
                            } else {
                                old(store).spec_bid(a2)
                            }))
                        &&& (forall|u2: URef| #![trigger final(store).spec_balance(u2)]
                            final(store).spec_balance(u2) == spec_transfer_balance(
                                *old(store),
                                source,
                                db.bonding_purse,
                                amount,
                                u2,
                            ))
                        &&& *final(store) == (Store {
                            bids: final(store).bids,
                            balances: final(store).balances,
                            ..*old(store)
                        })
                    },
                })
            },
            None => true,
        }),
        // Creating a new delegation.
        (spec_delegator(old(store).bids@, validator_public_key, delegator_public_key) is None
            && delegation_precheck(
            old(store).bids@,
            validator_public_key,
            amount,
            minimum_delegation_amount,
        ) is None) ==> {
            &&& delegator_count_of(old(store).bids@, validator_public_key)
                >= max_delegators_per_validator ==> r == Err::<u128, Error>(
                Error::ExceededDelegatorSizeLimit,
            )
            &&& delegator_count_of(old(store).bids@, validator_public_key)
                < max_delegators_per_validator ==> (match old(store).spec_balance(source) {
                None => r == Err::<u128, Error>(Error::MintSourceNotFound),
                Some(sb) => if sb < amount {
                    r == Err::<u128, Error>(Error::MintInsufficientFunds)
                } else if old(store).next_purse == u64::MAX {
                    r == Err::<u128, Error>(Error::InvalidAmount)
                } else {
                    r == Ok::<u128, Error>(amount)
                },
            })
        },
        // The per-validator delegator limit is never exceeded.
        (forall|v2: PublicKey| #![trigger delegator_count_of(final(store).bids@, v2)]
            delegator_count_of(final(store).bids@, v2) == delegator_count_of(old(store).bids@, v2)
                + (if r is Ok && v2 == validator_public_key && spec_delegator(
                old(store).bids@,
                validator_public_key,
                delegator_public_key,
            ) is None {
                1nat
            } else {
                0nat
            })),
        (r is Ok && delegator_count_of(old(store).bids@, validator_public_key)
            <= max_delegators_per_validator) ==> delegator_count_of(
            final(store).bids@,
            validator_public_key,
        ) <= max_delegators_per_validator,
        // Every delegator bid stays backed by its validator bid.
        old(store).delegators_backed() ==> final(store).delegators_backed(),
{
    if amount == 0 {
        return Err(Error::BondTooSmall);
    }
    if amount < (minimum_delegation_amount as u128) {
        return Err(Error::DelegationAmountTooSmall);
    }
    let validator_bid: ValidatorBid = match read_validator_bid(
        store,
        BidAddr::Validator(validator_public_key),
    ) {
        Ok(b) => b,
        Err(e) => {
            return Err(e);
        },
    };
    if validator_bid.staked_amount == 0 {
        return Err(Error::ValidatorNotFound);
    }
    let delegator_bid_addr = BidAddr::Delegator(validator_public_key, delegator_public_key);
    match store.read_bid(delegator_bid_addr) {
        Some(BidKind::Delegator(mut delegator_bid)) => {
            match delegator_bid.increase_stake(amount) {
                Ok(()) => {},
                Err(e) => {
                    return Err(e);
                },
            }
            let target: URef = delegator_bid.bonding_purse;
            match store.mint_transfer_direct(source, target, amount) {
                Ok(()) => {},
                Err(e) => {
                    return Err(e);
                },
            }
            let ghost mid = *store;
            let updated_amount: u128 = delegator_bid.staked_amount;
            store.write_bid(delegator_bid_addr, BidKind::Delegator(delegator_bid));
            proof {
                assert forall|u2: URef| #![trigger store.spec_balance(u2)]
                    store.spec_balance(u2) == mid.spec_balance(u2) by {
                    assert(store.balances == mid.balances);
                }
                assert forall|a2: BidAddr| #![trigger mid.spec_bid(a2)]
                    mid.spec_bid(a2) == old(store).spec_bid(a2) by {
                    assert(mid.bids == old(store).bids);
                }
                lemma_backed_preserved(
                    *old(store),
                    *store,
                    validator_public_key,
                    delegator_public_key,
                );
            }
            Ok(updated_amount)
        },
        _ => {
            let delegator_count: usize = store.delegator_count(&validator_public_key);
            if delegator_count >= (max_delegators_per_validator as usize) {
                return Err(Error::ExceededDelegatorSizeLimit);
            }
            // All-or-nothing: confirm the source can fund the delegation
            // before minting the bonding purse, so that a rejected
            // request creates nothing.
            let source_balance: u128 = match store.available_balance(source) {
                Some(b) => b,
                None => {
                    return Err(Error::MintSourceNotFound);
                },
            };
            if source_balance < amount {
                return Err(Error::MintInsufficientFunds);
            }
            let bonding_purse: URef = match store.create_purse() {
                Ok(u) => u,
                Err(e) => {
                    return Err(e);
                },
            };
            let ghost created = *store;
            let delegator_bid = Delegator::unlocked(
                delegator_public_key,
                amount,
                bonding_purse,
                validator_public_key,
            );
            proof {
                assert forall|a2: BidAddr| #![trigger created.spec_bid(a2)]
                    created.spec_bid(a2) == old(store).spec_bid(a2) by {
                    assert(created.bids == old(store).bids);
                }
            }
            match store.mint_transfer_direct(source, bonding_purse, amount) {
                Ok(()) => {},
                Err(e) => {
                    proof {
                        assert forall|a2: BidAddr| #![trigger store.spec_bid(a2)]
                            store.spec_bid(a2) == old(store).spec_bid(a2) by {
                            assert(store.bids == created.bids);
                        }
                    }
                    return Err(e);
                },
            }
            let ghost mid = *store;
            store.write_bid(delegator_bid_addr, BidKind::Delegator(delegator_bid));
            proof {
                assert forall|u2: URef| #![trigger store.spec_balance(u2)]
                    store.spec_balance(u2) == mid.spec_balance(u2) by {
                    assert(store.balances == mid.balances);
                }
                assert forall|a2: BidAddr| #![trigger mid.spec_bid(a2)]
                    mid.spec_bid(a2) == created.spec_bid(a2) by {
                    assert(mid.bids == created.bids);
                }
                lemma_backed_preserved(
                    *old(store),
                    *store,
                    validator_public_key,
                    delegator_public_key,
                );
            }
            Ok(amount)
        },
    }
}

/// A state that only gained or changed the one delegator bid of a
/// validator whose bid record is present keeps every delegator backed.
proof fn lemma_backed_preserved(
    pre: Store,
    post: Store,
    validator_public_key: PublicKey,
    delegator_public_key: PublicKey,
)
    requires
        (assoc_find(pre.bids@, BidAddr::Validator(validator_public_key)) matches Some(
            BidKind::Validator(_),
        )),
        forall|a2: BidAddr| #![trigger post.spec_bid(a2)]
            a2 != BidAddr::Delegator(validator_public_key, delegator_public_key)
                ==> post.spec_bid(a2) == pre.spec_bid(a2),
    ensures
        pre.delegators_backed() ==> post.delegators_backed(),
{
    if pre.delegators_backed() {
        assert forall|v: PublicKey, d: PublicKey|
            (#[trigger] assoc_find(post.bids@, BidAddr::Delegator(v, d))) is Some implies (
        assoc_find(post.bids@, BidAddr::Validator(v)) matches Some(BidKind::Validator(_))) by {
            assert(post.spec_bid(BidAddr::Validator(v)) == pre.spec_bid(BidAddr::Validator(v)));
            if v == validator_public_key && d == delegator_public_key {
            } else {
                assert(post.spec_bid(BidAddr::Delegator(v, d)) == pre.spec_bid(
                    BidAddr::Delegator(v, d),
                ));
            }
        }
    }
}

/// Re-writing an existing delegator bid keeps every delegator backed:
/// the validator bid that backed it is still there.
pub proof fn lemma_backed_preserved_public(
    pre: Store,
    post: Store,
    validator_public_key: PublicKey,
    delegator_public_key: PublicKey,
)
    requires
        spec_delegator(pre.bids@, validator_public_key, delegator_public_key) is Some,
        (post.spec_bid(BidAddr::Delegator(validator_public_key, delegator_public_key)) matches
            Some(BidKind::Delegator(_))),
        forall|a2: BidAddr| #![trigger post.spec_bid(a2)]
            a2 != BidAddr::Delegator(validator_public_key, delegator_public_key)
                ==> post.spec_bid(a2) == pre.spec_bid(a2),
    ensures
        pre.delegators_backed() ==> post.delegators_backed(),
{
    if pre.delegators_backed() {
        assert(assoc_find(
            pre.bids@,
            BidAddr::Delegator(validator_public_key, delegator_public_key),
        ) is Some);
        lemma_backed_preserved(pre, post, validator_public_key, delegator_public_key);
    }
}

/// The funds available in `uref`; an unknown purse reads as empty.
pub open spec fn spec_available(st: Store, uref: URef) -> u128 {
    match st.spec_balance(uref) {
        Some(b) => b,
        None => 0,
    }
}

/// Queues an unbonding entry for `unbonder_public_key`: the given amount
/// leaves `bonding_purse` once the entry matures, either back to the
/// unbonder or re-staked with `new_validator`.
pub fn create_unbonding_purse(
    store: &mut Store,
    validator_public_key: PublicKey,
    unbonder_public_key: PublicKey,
    bonding_purse: URef,
    amount: u128,
    new_validator: Option<PublicKey>,
) -> (r: Result<(), Error>)
    requires
        old(store).wf(),
    ensures
        final(store).wf(),
        spec_available(*old(store), bonding_purse) < amount ==> r == Err::<(), Error>(
            Error::UnbondTooLarge,
        ) && *final(store) == *old(store),
        spec_available(*old(store), bonding_purse) >= amount ==> (match named_read(
            old(store).era_id,
        ) {
            Err(e) => r == Err::<(), Error>(e) && *final(store) == *old(store),
            Ok(era_of_creation) => {
                &&& r == Ok::<(), Error>(())
                &&& (forall|a2: crate::keys::AccountHash|
                    #![trigger final(store).spec_unbonds(a2)]
                    final(store).spec_unbonds(a2) == (if a2.value
                        == unbonder_public_key.account_hash().value {
                        old(store).spec_unbonds(a2).push(
                            UnbondingPurse {
                                bonding_purse,
                                validator_public_key,
                                unbonder_public_key,
                                era_of_creation,
                                amount,
                                new_validator,
                            },
                        )
                    } else {
                        old(store).spec_unbonds(a2)
                    }))
                &&& *final(store) == (Store { unbonds: final(store).unbonds, ..*old(store) })
            },
        }),
{
    let available: u128 = match store.available_balance(bonding_purse) {
        Some(b) => b,
        None => 0,
    };
    if available < amount {
        return Err(Error::UnbondTooLarge);
    }
    let account = unbonder_public_key.to_account_hash();
    let mut unbonding_purses = store.read_unbonds(account);
    let era_of_creation: u64 = match get_era_id(store) {
        Ok(e) => e,
        Err(e) => {
            return Err(e);
        },
    };
    let new_unbonding_purse = UnbondingPurse::new(
        bonding_purse,
        validator_public_key,
        unbonder_public_key,
        era_of_creation,
        amount,
        new_validator,
    );
    unbonding_purses.push(new_unbonding_purse);
    store.write_unbonds(account, unbonding_purses);
    Ok(())
}

} // verus!
