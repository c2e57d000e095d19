//! The reward distributor.
//!
//! A reward is applied to the recipient's existing stake. If the
//! recipient has completely unstaked, it is applied instead to their
//! unbond entry with the highest era of creation, with saturating
//! arithmetic: a best-effort top-up on an already-departing stake. Every
//! applied reward is recorded as a seigniorage allocation.

use vstd::prelude::*;

use crate::bids::{read_current_validator_bid, spec_read_current_validator_bid,
    MAX_BRIDGE_CHAIN_LENGTH};
use crate::delegation::spec_delegator;
use crate::error::Error;
use crate::keys::{AccountHash, BidAddr, PublicKey, URef};
use crate::records::{BidKind, Delegator, SeigniorageAllocation, UnbondingPurse, ValidatorBid};
use crate::store::Store;

verus! {

/// Whether an unbond entry may receive the reward: for a delegator
/// reward, the entry must point at the rewarded validator.
pub open spec fn matches_filter(p: UnbondingPurse, filter: Option<PublicKey>) -> bool {
    match filter {
        None => true,
        Some(v) => p.validator_public_key == v,
    }
}

/// The index of the unbond entry a reward falls back to: the last entry
/// with the highest era of creation among those passing the filter, or
/// -1 when none passes.
pub open spec fn best_unbond_index(s: Seq<UnbondingPurse>, filter: Option<PublicKey>) -> int
    decreases s.len(),
{
    if s.len() == 0 {
        -1
    } else {
        let b = best_unbond_index(s.drop_last(), filter);
        if matches_filter(s.last(), filter) && (b == -1 || s[s.len() - 1].era_of_creation
            >= s[b].era_of_creation) {
            s.len() - 1
        } else {
            b
        }
    }
}

/// The chosen unbond entry exists, passes the filter, and has the
/// highest era of creation among entries that pass it; -1 means none
/// passes.
pub proof fn lemma_best_unbond_index_props(s: Seq<UnbondingPurse>, filter: Option<PublicKey>)
    ensures
        -1 <= best_unbond_index(s, filter),
        best_unbond_index(s, filter) < s.len(),
        best_unbond_index(s, filter) == -1 ==> (forall|j: int|
            0 <= j < s.len() ==> !matches_filter(#[trigger] s[j], filter)),
        best_unbond_index(s, filter) >= 0 ==> best_unbond_index(s, filter) < s.len()
            && matches_filter(s[best_unbond_index(s, filter)], filter) && (forall|j: int|
            0 <= j < s.len() && matches_filter(#[trigger] s[j], filter)
                ==> s[j].era_of_creation <= s[best_unbond_index(s, filter)].era_of_creation),
    decreases s.len(),
{
    if s.len() > 0 {
        let d = s.drop_last();
        lemma_best_unbond_index_props(d, filter);
        assert(forall|j: int| 0 <= j < s.len() - 1 ==> #[trigger] s[j] == d[j]);
        let b = best_unbond_index(d, filter);
        let i = best_unbond_index(s, filter);
        if i >= 0 {
            assert forall|j: int|
                0 <= j < s.len() && matches_filter(#[trigger] s[j], filter) implies
                s[j].era_of_creation <= s[i].era_of_creation by {
                if j < s.len() - 1 {
                    assert(matches_filter(d[j], filter));
                    assert(b >= 0);
                    assert(d[j].era_of_creation <= d[b].era_of_creation);
                    if i == s.len() - 1 {
                        assert(s[b] == d[b]);
                    }
                }
            }
        }
    }
}

/// Applies `amount`, saturating, to the best unbond entry of `account`
/// that passes `filter`; fails with `missing` when no entry passes.
fn apply_reward_to_best_unbond(
    store: &mut Store,
    account: AccountHash,
    filter: Option<PublicKey>,
    amount: u128,
    missing: Error,
) -> (r: Result<URef, Error>)
    requires
        old(store).wf(),
    ensures
        final(store).wf(),
        ({
            let u = old(store).spec_unbonds(account);
            let i = best_unbond_index(u, filter);
            &&& i < 0 ==> r == Err::<URef, Error>(missing) && *final(store) == *old(store)
            &&& i >= 0 ==> {
                &&& r == Ok::<URef, Error>(u[i].bonding_purse)
                &&& (forall|a2: AccountHash| #![trigger final(store).spec_unbonds(a2)]
                    final(store).spec_unbonds(a2) == (if a2.value == account.value {
                        u.update(
                            i,
                            UnbondingPurse {
                                amount: (if u[i].amount + amount > u128::MAX {
                                    u128::MAX
                                } else {
                                    (u[i].amount + amount) as u128
                                }),
                                ..u[i]
                            },
                        )
                    } else {
                        old(store).spec_unbonds(a2)
                    }))
                &&& *final(store) == (Store { unbonds: final(store).unbonds, ..*old(store) })
            }
        }),
{
    let mut unbonds = store.read_unbonds(account);
    let ghost u = unbonds@;
    let mut best: Option<usize> = None;
    let mut i: usize = 0;
    while i < unbonds.len()
        invariant
            i <= u.len(),
            unbonds@ == u,
            (match best {
                None => best_unbond_index(u.take(i as int), filter) == -1,
                Some(b) => b < i && best_unbond_index(u.take(i as int), filter) == b,
            }),
        decreases u.len() - i,
    {
        proof {
            assert(u.take(i + 1 as int).drop_last() =~= u.take(i as int));
            assert(u.take(i + 1 as int).last() == u[i as int]);
        }
        let entry_matches: bool = match &filter {
            None => true,
            Some(v) => unbonds[i].validator_public_key == *v,
        };
        if entry_matches {
            let take_it: bool = match best {
                None => true,
                Some(b) => unbonds[i].era_of_creation >= unbonds[b].era_of_creation,
            };
            if take_it {
                best = Some(i);
            }
        }
        i = i + 1;
    }
    proof {
        assert(u.take(u.len() as int) =~= u);
    }
    match best {
        Some(b) => {
            let mut unbond: UnbondingPurse = unbonds[b];
            let purse: URef = unbond.bonding_purse;
            let new_amount: u128 = unbond.amount.saturating_add(amount);
            unbond.with_amount(new_amount);
            unbonds[b] = unbond;
            store.write_unbonds(account, unbonds);
            Ok(purse)
        },
        None => Err(missing),
    }
}

/// Applies a validator reward to the validator's stake, or, when the
/// validator has completely unstaked, to its unbond entry with the
/// highest era of creation; records a validator allocation and returns
/// the purse the amount was applied to.
pub fn distribute_validator_rewards(
    store: &mut Store,
    seigniorage_allocations: &mut Vec<SeigniorageAllocation>,
    validator_public_key: PublicKey,
    amount: u128,
) -> (r: Result<URef, Error>)
    requires
        old(store).wf(),
    ensures
        final(store).wf(),
        old(store).delegators_backed() ==> final(store).delegators_backed(),
        r is Ok ==> final(seigniorage_allocations)@ == old(seigniorage_allocations)@.push(
            SeigniorageAllocation::Validator { validator_public_key, amount },
        ),
        r is Err ==> final(seigniorage_allocations)@ == old(seigniorage_allocations)@
            && *final(store) == *old(store),
        (match spec_read_current_validator_bid(
            old(store).bids@,
            BidAddr::Validator(validator_public_key),
            MAX_BRIDGE_CHAIN_LENGTH as nat,
        ) {
            Ok(bid) => if bid.staked_amount != 0 {
                &&& bid.staked_amount + amount > u128::MAX ==> r == Err::<URef, Error>(
                    Error::InvalidAmount,
                )
                &&& bid.staked_amount + amount <= u128::MAX ==> {
                    &&& r == Ok::<URef, Error>(bid.bonding_purse)
                    &&& (forall|a2: BidAddr| #![trigger final(store).spec_bid(a2)]
                        final(store).spec_bid(a2) == (if a2 == BidAddr::Validator(
                            bid.validator_public_key,
                        ) {
                            Some(
                                BidKind::Validator(
                                    ValidatorBid {
                                        staked_amount: (bid.staked_amount + amount) as u128,
                                        ..bid
                                    },
                                ),
                            )
                        } else {
                            old(store).spec_bid(a2)
                        }))
                    &&& *final(store) == (Store { bids: final(store).bids, ..*old(store) })
                }
            } else {
                reward_fell_to_unbond(
                    *old(store),
                    *final(store),
                    r,
                    validator_public_key.account_hash(),
                    None,
                    amount,
                    Error::ValidatorNotFound,
                )
            },
            Err(e) => if e == Error::ValidatorNotFound {
                reward_fell_to_unbond(
                    *old(store),
                    *final(store),
                    r,
                    validator_public_key.account_hash(),
                    None,
                    amount,
                    Error::ValidatorNotFound,
                )
            } else {
                r == Err::<URef, Error>(e)
            },
        }),
{
    let bonding_purse: URef = match read_current_validator_bid(
        store,
        BidAddr::Validator(validator_public_key),
    ) {
        Ok(mut validator_bid) => {
            if validator_bid.staked_amount != 0 {
                let purse: URef = validator_bid.bonding_purse;
                match validator_bid.increase_stake(amount) {
                    Ok(()) => {},
                    Err(e) => {
                        return Err(e);
                    },
                }
                let addr = BidAddr::Validator(validator_bid.validator_public_key);
                store.write_bid(addr, BidKind::Validator(validator_bid));
                proof {
                    lemma_backed_preserved_validator_write(
                        *old(store),
                        *store,
                        validator_bid.validator_public_key,
                    );
                }
                purse
            } else {
                let account = validator_public_key.to_account_hash();
                match apply_reward_to_best_unbond(
                    store,
                    account,
                    None,
                    amount,
                    Error::ValidatorNotFound,
                ) {
                    Ok(p) => {
                        proof {
                            assert(store.bids@ == old(store).bids@);
                            crate::store::lemma_backed_depends_on_bids(*old(store), *store);
                        }
                        p
                    },
                    Err(e) => {
                        return Err(e);
                    },
                }
            }
        },
        Err(e) => {
            if e == Error::ValidatorNotFound {
                let account = validator_public_key.to_account_hash();
                match apply_reward_to_best_unbond(
                    store,
                    account,
                    None,
                    amount,
                    Error::ValidatorNotFound,
                ) {
                    Ok(p) => {
                        proof {
                            assert(store.bids@ == old(store).bids@);
                            crate::store::lemma_backed_depends_on_bids(*old(store), *store);
                        }
                        p
                    },
                    Err(e2) => {
                        return Err(e2);
                    },
                }
            } else {
                return Err(e);
            }
        },
    };
    seigniorage_allocations.push(
        SeigniorageAllocation::Validator { validator_public_key, amount },
    );
    Ok(bonding_purse)
}

/// How a reward lands when its recipient has no live stake: on the best
/// matching unbond entry of `account`, saturating; or nowhere, with
/// `missing`, when no entry matches.
pub open spec fn reward_fell_to_unbond(
    pre: Store,
    post: Store,
    r: Result<URef, Error>,
    account: AccountHash,
    filter: Option<PublicKey>,
    amount: u128,
    missing: Error,
) -> bool {
    let u = pre.spec_unbonds(account);
    let i = best_unbond_index(u, filter);
    &&& i < 0 ==> r == Err::<URef, Error>(missing) && post == pre
    &&& i >= 0 ==> {
        &&& r == Ok::<URef, Error>(u[i].bonding_purse)
        &&& (forall|a2: AccountHash| #![trigger post.spec_unbonds(a2)]
            post.spec_unbonds(a2) == (if a2.value == account.value {
                u.update(
                    i,
                    UnbondingPurse {
                        amount: (if u[i].amount + amount > u128::MAX {
                            u128::MAX
                        } else {
                            (u[i].amount + amount) as u128
                        }),
                        ..u[i]
                    },
                )
            } else {
                pre.spec_unbonds(a2)
            }))
        &&& post == (Store { unbonds: post.unbonds, ..pre })
    }
}

/// Writing a validator record under a validator address never unbacks a
/// delegator bid.
pub proof fn lemma_backed_preserved_validator_write(pre: Store, post: Store, written: PublicKey)
    requires
        (post.spec_bid(BidAddr::Validator(written)) matches Some(BidKind::Validator(_))),
        forall|a2: BidAddr| #![trigger post.spec_bid(a2)]
            a2 != BidAddr::Validator(written) ==> post.spec_bid(a2) == pre.spec_bid(a2),
    ensures
        pre.delegators_backed() ==> post.delegators_backed(),
{
    if pre.delegators_backed() {
        assert forall|v: PublicKey, d: PublicKey|
            (#[trigger] crate::assoc::assoc_find(post.bids@, BidAddr::Delegator(v, d)))
                is Some implies (crate::assoc::assoc_find(post.bids@, BidAddr::Validator(v))
            matches Some(BidKind::Validator(_))) by {
            assert(post.spec_bid(BidAddr::Delegator(v, d)) == pre.spec_bid(
                BidAddr::Delegator(v, d),
            ));
            if v != written {
                assert(post.spec_bid(BidAddr::Validator(v)) == pre.spec_bid(
                    BidAddr::Validator(v),
                ));
            }
        }
    }
}

/// The purse one delegator reward lands in on `st`, or the error it is
/// rejected with: the delegation's bonding purse while it has stake, else
/// the best matching unbond entry's purse.
pub open spec fn spec_delegator_reward_result(
    st: Store,
    validator_public_key: PublicKey,
    delegator_public_key: PublicKey,
    amount: u128,
) -> Result<URef, Error> {
    match spec_delegator(st.bids@, validator_public_key, delegator_public_key) {
        Some(db) => if db.staked_amount != 0 {
            if db.staked_amount + amount > u128::MAX {
                Err(Error::InvalidAmount)
            } else {
                Ok(db.bonding_purse)
            }
        } else {
            spec_fallback_reward_result(st, validator_public_key, delegator_public_key)
        },
        None => spec_fallback_reward_result(st, validator_public_key, delegator_public_key),
    }
}

/// The purse an unstaked delegator's reward falls back to on `st`.
pub open spec fn spec_fallback_reward_result(
    st: Store,
    validator_public_key: PublicKey,
    delegator_public_key: PublicKey,
) -> Result<URef, Error> {
    let u = st.spec_unbonds(delegator_public_key.account_hash());
    let i = best_unbond_index(u, Some(validator_public_key));
    if i < 0 {
        Err(Error::DelegatorNotFound)
    } else {
        Ok(u[i].bonding_purse)
    }
}

/// The state one applied delegator reward leaves at the pair's own keys,
/// relative to the state it found: the delegation's stake grown by the
/// reward, or the best matching unbond entry topped up, saturating.
pub open spec fn spec_delegator_reward_applied(
    pre: Store,
    post: Store,
    validator_public_key: PublicKey,
    delegator_public_key: PublicKey,
    amount: u128,
) -> bool {
    match spec_delegator(pre.bids@, validator_public_key, delegator_public_key) {
        Some(db) => if db.staked_amount != 0 {
            post.spec_bid(BidAddr::Delegator(validator_public_key, delegator_public_key)) == Some(
                BidKind::Delegator(
                    Delegator { staked_amount: (db.staked_amount + amount) as u128, ..db },
                ),
            )
        } else {
            spec_fallback_reward_applied(
                pre,
                post,
                validator_public_key,
                delegator_public_key,
                amount,
            )
        },
        None => spec_fallback_reward_applied(
            pre,
            post,
            validator_public_key,
            delegator_public_key,
            amount,
        ),
    }
}

/// The unbond list an applied fallback reward leaves for the delegator's
/// account, relative to the state it found.
pub open spec fn spec_fallback_reward_applied(
    pre: Store,
    post: Store,
    validator_public_key: PublicKey,
    delegator_public_key: PublicKey,
    amount: u128,
) -> bool {
    let u = pre.spec_unbonds(delegator_public_key.account_hash());
    let i = best_unbond_index(u, Some(validator_public_key));
    &&& i >= 0
    &&& post.spec_unbonds(delegator_public_key.account_hash()) == u.update(
        i,
        UnbondingPurse {
            amount: (if u[i].amount + amount > u128::MAX {
                u128::MAX
            } else {
                (u[i].amount + amount) as u128
            }),
            ..u[i]
        },
    )
}

/// The pair's result and applied state depend only on the pair's own
/// keys of the state it found.
proof fn lemma_reward_pair_same_pre(
    pre: Store,
    orig: Store,
    post: Store,
    validator_public_key: PublicKey,
    delegator_public_key: PublicKey,
    amount: u128,
)
    requires
        pre.spec_bid(BidAddr::Delegator(validator_public_key, delegator_public_key)) == orig.spec_bid(
            BidAddr::Delegator(validator_public_key, delegator_public_key),
        ),
        pre.spec_unbonds(delegator_public_key.account_hash()) == orig.spec_unbonds(
            delegator_public_key.account_hash(),
        ),
    ensures
        spec_delegator_reward_result(pre, validator_public_key, delegator_public_key, amount)
            == spec_delegator_reward_result(
            orig,
            validator_public_key,
            delegator_public_key,
            amount,
        ),
        spec_delegator_reward_applied(
            pre,
            post,
            validator_public_key,
            delegator_public_key,
            amount,
        ) == spec_delegator_reward_applied(
            orig,
            post,
            validator_public_key,
            delegator_public_key,
            amount,
        ),
{
}

/// The applied-state claim depends only on the pair's own keys of the
/// state left behind.
proof fn lemma_reward_applied_frame(
    orig: Store,
    post1: Store,
    post2: Store,
    validator_public_key: PublicKey,
    delegator_public_key: PublicKey,
    amount: u128,
)
    requires
        post2.spec_bid(BidAddr::Delegator(validator_public_key, delegator_public_key))
            == post1.spec_bid(BidAddr::Delegator(validator_public_key, delegator_public_key)),
        post2.spec_unbonds(delegator_public_key.account_hash()) == post1.spec_unbonds(
            delegator_public_key.account_hash(),
        ),
    ensures
        spec_delegator_reward_applied(
            orig,
            post1,
            validator_public_key,
            delegator_public_key,
            amount,
        ) == spec_delegator_reward_applied(
            orig,
            post2,
            validator_public_key,
            delegator_public_key,
            amount,
        ),
{
}

/// Applies one delegator reward to the delegation's stake, or, when the
/// delegation has completely unstaked, to the delegator's unbond entry
/// with the highest era of creation among those pointing at the
/// validator; returns the purse the amount was applied to.
pub fn distribute_delegator_reward(
    store: &mut Store,
    validator_public_key: PublicKey,
    delegator_public_key: PublicKey,
    amount: u128,
) -> (r: Result<URef, Error>)
    requires
        old(store).wf(),
    ensures
        final(store).wf(),
        old(store).delegators_backed() ==> final(store).delegators_backed(),
        r == spec_delegator_reward_result(
            *old(store),
            validator_public_key,
            delegator_public_key,
            amount,
        ),
        r is Err ==> *final(store) == *old(store),
        r is Ok ==> spec_delegator_reward_applied(
            *old(store),
            *final(store),
            validator_public_key,
            delegator_public_key,
            amount,
        ),
        (match spec_delegator(old(store).bids@, validator_public_key, delegator_public_key) {
            Some(db) => if db.staked_amount != 0 {
                &&& db.staked_amount + amount > u128::MAX ==> r == Err::<URef, Error>(
                    Error::InvalidAmount,
                ) && *final(store) == *old(store)
                &&& db.staked_amount + amount <= u128::MAX ==> {
                    &&& r == Ok::<URef, Error>(db.bonding_purse)
                    &&& (forall|a2: BidAddr| #![trigger final(store).spec_bid(a2)]
                        final(store).spec_bid(a2) == (if a2 == BidAddr::Delegator(
                            validator_public_key,
                            delegator_public_key,
                        ) {
                            Some(
                                BidKind::Delegator(
                                    Delegator {
                                        staked_amount: (db.staked_amount + amount) as u128,
                                        ..db
                                    },
                                ),
                            )
                        } else {
                            old(store).spec_bid(a2)
                        }))
                    &&& *final(store) == (Store { bids: final(store).bids, ..*old(store) })
                }
            } else {
                reward_fell_to_unbond(
                    *old(store),
                    *final(store),
                    r,
                    delegator_public_key.account_hash(),
                    Some(validator_public_key),
                    amount,
                    Error::DelegatorNotFound,
                )
            },
            None => reward_fell_to_unbond(
                *old(store),
                *final(store),
                r,
                delegator_public_key.account_hash(),
                Some(validator_public_key),
                amount,
                Error::DelegatorNotFound,
            ),
        }),
{
    let bid_addr = BidAddr::Delegator(validator_public_key, delegator_public_key);
    match store.read_bid(bid_addr) {
        Some(BidKind::Delegator(mut delegator_bid)) => {
            if delegator_bid.staked_amount != 0 {
                let purse: URef = delegator_bid.bonding_purse;
                match delegator_bid.increase_stake(amount) {
                    Ok(()) => {},
                    Err(e) => {
                        return Err(e);
                    },
                }
                store.write_bid(bid_addr, BidKind::Delegator(delegator_bid));
                proof {
                    crate::delegation::lemma_backed_preserved_public(
                        *old(store),
                        *store,
                        validator_public_key,
                        delegator_public_key,
                    );
                }
                Ok(purse)
            } else {
                let account = delegator_public_key.to_account_hash();
                let result = apply_reward_to_best_unbond(
                    store,
                    account,
                    Some(validator_public_key),
                    amount,
                    Error::DelegatorNotFound,
                );
                proof {
                    assert(store.bids@ == old(store).bids@);
                    crate::store::lemma_backed_depends_on_bids(*old(store), *store);
                }
                result
            }
        },
        _ => {
            let account = delegator_public_key.to_account_hash();
            let result = apply_reward_to_best_unbond(
                store,
                account,
                Some(validator_public_key),
                amount,
                Error::DelegatorNotFound,
            );
            proof {
                assert(store.bids@ == old(store).bids@);
                crate::store::lemma_backed_depends_on_bids(*old(store), *store);
            }
            result
        },
    }
}

/// The allocation recorded for one delegator reward entry.
pub open spec fn spec_delegator_allocation(
    validator_public_key: PublicKey,
    entry: (PublicKey, u128),
) -> SeigniorageAllocation {
    SeigniorageAllocation::Delegator {
        delegator_public_key: entry.0,
        validator_public_key,
        amount: entry.1,
    }
}

/// Whether the reward pairs name pairwise distinct delegators, as the
/// rewards map of the distribute entry point does.
pub open spec fn spec_distinct_delegators(rewards: Seq<(PublicKey, u128)>) -> bool {
    forall|i: int, j: int|
        0 <= i < j < rewards.len() ==> (#[trigger] rewards[i]).0 != (#[trigger] rewards[j]).0
}

/// Applies delegator rewards in the caller-supplied order, recording one
/// delegator allocation per applied reward in that order, and returns
/// the payouts: for each reward, the delegator's account hash, the
/// amount, and the purse it was applied to.
pub fn distribute_delegator_rewards(
    store: &mut Store,
    seigniorage_allocations: &mut Vec<SeigniorageAllocation>,
    validator_public_key: PublicKey,
    rewards: Vec<(PublicKey, u128)>,
) -> (r: Result<Vec<(AccountHash, u128, URef)>, Error>)
    requires
        old(store).wf(),
    ensures
        final(store).wf(),
        old(store).delegators_backed() ==> final(store).delegators_backed(),
        // Only this validator's delegator bids and the rewarded accounts'
        // unbond lists are touched.
        forall|a2: BidAddr| #![trigger final(store).spec_bid(a2)]
            !a2.is_delegator_of(validator_public_key) ==> final(store).spec_bid(a2) == old(
                store,
            ).spec_bid(a2),
        forall|acct: AccountHash| #![trigger final(store).spec_unbonds(acct)]
            (forall|i: int|
                0 <= i < rewards@.len() ==> (#[trigger] rewards@[i]).0.account_hash().value
                    != acct.value) ==> final(store).spec_unbonds(acct) == old(store).spec_unbonds(
                acct,
            ),
        *final(store) == (Store {
            bids: final(store).bids,
            unbonds: final(store).unbonds,
            ..*old(store)
        }),
        // For pairwise distinct delegators the outcome is exact: success
        // is owed precisely when every pair resolves, each resolved pair
        // grows its stake or tops up its best unbond, and each payout
        // carries the purse that was credited.
        spec_distinct_delegators(rewards@) ==> (r is Ok <==> (forall|i: int|
            0 <= i < rewards@.len() ==> spec_delegator_reward_result(
                *old(store),
                validator_public_key,
                (#[trigger] rewards@[i]).0,
                rewards@[i].1,
            ) is Ok)),
        (spec_distinct_delegators(rewards@) && r is Ok) ==> (forall|i: int|
            0 <= i < rewards@.len() ==> spec_delegator_reward_applied(
                *old(store),
                *final(store),
                validator_public_key,
                (#[trigger] rewards@[i]).0,
                rewards@[i].1,
            )),
        (match r {
            Ok(payouts) => {
                &&& payouts@.len() == rewards@.len()
                &&& (forall|i: int| #![all_triggers]
                    0 <= i < rewards@.len() ==> payouts@[i].0 == rewards@[i].0.account_hash()
                        && payouts@[i].1 == rewards@[i].1)
                &&& spec_distinct_delegators(rewards@) ==> (forall|i: int|
                    0 <= i < rewards@.len() ==> Ok::<URef, Error>(
                        (#[trigger] payouts@[i]).2,
                    ) == spec_delegator_reward_result(
                        *old(store),
                        validator_public_key,
                        rewards@[i].0,
                        rewards@[i].1,
                    ))
                &&& final(seigniorage_allocations)@ == old(seigniorage_allocations)@ + Seq::new(
                    rewards@.len(),
                    |i: int| spec_delegator_allocation(validator_public_key, rewards@[i]),
                )
            },
            Err(_) => {
                &&& old(seigniorage_allocations)@.len() <= final(seigniorage_allocations)@.len()
                &&& final(seigniorage_allocations)@.len() <= old(seigniorage_allocations)@.len()
                    + rewards@.len()
                &&& final(seigniorage_allocations)@.take(old(seigniorage_allocations)@.len() as int)
                    == old(seigniorage_allocations)@
                &&& (forall|j: int| #![trigger final(seigniorage_allocations)@[j]]
                    old(seigniorage_allocations)@.len() <= j < final(seigniorage_allocations)@.len()
                        ==> final(seigniorage_allocations)@[j] == spec_delegator_allocation(
                        validator_public_key,
                        rewards@[j - old(seigniorage_allocations)@.len()],
                    ))
            },
        }),
{
    let mut delegator_payouts: Vec<(AccountHash, u128, URef)> = Vec::new();
    let mut i: usize = 0;
    while i < rewards.len()
        invariant
            old(store).wf(),
            store.wf(),
            i <= rewards@.len(),
            old(store).delegators_backed() ==> store.delegators_backed(),
            forall|a2: BidAddr| #![trigger store.spec_bid(a2)]
                !a2.is_delegator_of(validator_public_key) ==> store.spec_bid(a2) == old(
                    store,
                ).spec_bid(a2),
            forall|acct: AccountHash| #![trigger store.spec_unbonds(acct)]
                (forall|j: int|
                    0 <= j < rewards@.len() ==> (#[trigger] rewards@[j]).0.account_hash().value
                        != acct.value) ==> store.spec_unbonds(acct) == old(store).spec_unbonds(
                    acct,
                ),
            *store == (Store { bids: store.bids, unbonds: store.unbonds, ..*old(store) }),
            delegator_payouts@.len() == i,
            forall|j: int| #![all_triggers]
                0 <= j < i ==> delegator_payouts@[j].0 == rewards@[j].0.account_hash()
                    && delegator_payouts@[j].1 == rewards@[j].1,
            seigniorage_allocations@ == old(seigniorage_allocations)@ + Seq::new(
                i as nat,
                |j: int| spec_delegator_allocation(validator_public_key, rewards@[j]),
            ),
            spec_distinct_delegators(rewards@) ==> (forall|k: int|
                0 <= k < i ==> spec_delegator_reward_result(
                    *old(store),
                    validator_public_key,
                    (#[trigger] rewards@[k]).0,
                    rewards@[k].1,
                ) is Ok),
            spec_distinct_delegators(rewards@) ==> (forall|k: int|
                0 <= k < i ==> spec_delegator_reward_applied(
                    *old(store),
                    *store,
                    validator_public_key,
                    (#[trigger] rewards@[k]).0,
                    rewards@[k].1,
                )),
            spec_distinct_delegators(rewards@) ==> (forall|k: int|
                0 <= k < i ==> Ok::<URef, Error>(
                    (#[trigger] delegator_payouts@[k]).2,
                ) == spec_delegator_reward_result(
                    *old(store),
                    validator_public_key,
                    rewards@[k].0,
                    rewards@[k].1,
                )),
            spec_distinct_delegators(rewards@) ==> (forall|k: int| #![all_triggers]
                i <= k < rewards@.len() ==> store.spec_bid(
                    BidAddr::Delegator(validator_public_key, rewards@[k].0),
                ) == old(store).spec_bid(
                    BidAddr::Delegator(validator_public_key, rewards@[k].0),
                ) && store.spec_unbonds(rewards@[k].0.account_hash()) == old(store).spec_unbonds(
                    rewards@[k].0.account_hash(),
                )),
        decreases rewards@.len() - i,
    {
        let delegator_public_key: PublicKey = rewards[i].0;
        let reward: u128 = rewards[i].1;
        let ghost pre = *store;
        let purse: URef = match distribute_delegator_reward(
            store,
            validator_public_key,
            delegator_public_key,
            reward,
        ) {
            Ok(p) => p,
            Err(e) => {
                proof {
                    lemma_rewards_step_frames(
                        pre,
                        *store,
                        *old(store),
                        validator_public_key,
                        delegator_public_key,
                    );
                    assert(seigniorage_allocations@ == old(seigniorage_allocations)@ + Seq::new(
                        i as nat,
                        |j: int| spec_delegator_allocation(validator_public_key, rewards@[j]),
                    ));
                    if spec_distinct_delegators(rewards@) {
                        lemma_reward_pair_same_pre(
                            pre,
                            *old(store),
                            *store,
                            validator_public_key,
                            delegator_public_key,
                            reward,
                        );
                        assert(spec_delegator_reward_result(
                            *old(store),
                            validator_public_key,
                            rewards@[i as int].0,
                            rewards@[i as int].1,
                        ) is Err);
                    }
                }
                return Err(e);
            },
        };
        delegator_payouts.push((delegator_public_key.to_account_hash(), reward, purse));
        seigniorage_allocations.push(
            SeigniorageAllocation::Delegator {
                delegator_public_key,
                validator_public_key,
                amount: reward,
            },
        );
        proof {
            lemma_rewards_step_frames(
                pre,
                *store,
                *old(store),
                validator_public_key,
                delegator_public_key,
            );
            assert(seigniorage_allocations@ =~= old(seigniorage_allocations)@ + Seq::new(
                (i + 1) as nat,
                |j: int| spec_delegator_allocation(validator_public_key, rewards@[j]),
            ));
            if spec_distinct_delegators(rewards@) {
                lemma_reward_pair_same_pre(
                    pre,
                    *old(store),
                    *store,
                    validator_public_key,
                    delegator_public_key,
                    reward,
                );
                assert forall|k: int| 0 <= k < i + 1 implies spec_delegator_reward_applied(
                    *old(store),
                    *store,
                    validator_public_key,
                    (#[trigger] rewards@[k]).0,
                    rewards@[k].1,
                ) by {
                    if k < i {
                        assert(rewards@[k].0 != rewards@[i as int].0);
                        assert(store.spec_bid(
                            BidAddr::Delegator(validator_public_key, rewards@[k].0),
                        ) == pre.spec_bid(
                            BidAddr::Delegator(validator_public_key, rewards@[k].0),
                        ));
                        assert(rewards@[k].0.account_hash().value
                            != delegator_public_key.account_hash().value);
                        assert(store.spec_unbonds(rewards@[k].0.account_hash())
                            == pre.spec_unbonds(rewards@[k].0.account_hash()));
                        lemma_reward_applied_frame(
                            *old(store),
                            pre,
                            *store,
                            validator_public_key,
                            rewards@[k].0,
                            rewards@[k].1,
                        );
                    }
                }
                assert forall|k: int| #![all_triggers]
                    i + 1 <= k < rewards@.len() implies store.spec_bid(
                    BidAddr::Delegator(validator_public_key, rewards@[k].0),
                ) == old(store).spec_bid(BidAddr::Delegator(validator_public_key, rewards@[k].0))
                    && store.spec_unbonds(rewards@[k].0.account_hash()) == old(
                    store,
                ).spec_unbonds(rewards@[k].0.account_hash()) by {
                    assert(rewards@[k].0 != rewards@[i as int].0);
                    assert(rewards@[k].0.account_hash().value
                        != delegator_public_key.account_hash().value);
                }
            }
        }
        i = i + 1;
    }
    Ok(delegator_payouts)
}

/// One reward step touches only the validator's delegator bids and the
/// rewarded delegator's unbond list; chains the loop frame.
proof fn lemma_rewards_step_frames(
    pre: Store,
    post: Store,
    orig: Store,
    validator_public_key: PublicKey,
    delegator_public_key: PublicKey,
)
    requires
        forall|a2: BidAddr| #![trigger post.spec_bid(a2)]
            a2 != BidAddr::Delegator(validator_public_key, delegator_public_key) ==> post.spec_bid(
                a2,
            ) == pre.spec_bid(a2),
        forall|acct: AccountHash| #![trigger post.spec_unbonds(acct)]
            acct.value != delegator_public_key.account_hash().value ==> post.spec_unbonds(acct)
                == pre.spec_unbonds(acct),
        forall|a2: BidAddr| #![trigger pre.spec_bid(a2)]
            !a2.is_delegator_of(validator_public_key) ==> pre.spec_bid(a2) == orig.spec_bid(a2),
    ensures
        forall|a2: BidAddr| #![trigger post.spec_bid(a2)]
            !a2.is_delegator_of(validator_public_key) ==> post.spec_bid(a2) == orig.spec_bid(a2),
        forall|acct: AccountHash| #![trigger post.spec_unbonds(acct)]
            acct.value != delegator_public_key.account_hash().value && pre.spec_unbonds(acct)
                == orig.spec_unbonds(acct) ==> post.spec_unbonds(acct) == orig.spec_unbonds(acct),
{
}

} // verus!
