//! The bid catalog and the weight and snapshot builder.
//!
//! The catalog aggregates every validator bid and every per-era validator
//! credit from the bid space. At an era boundary it yields the validator
//! weights: for each eligible bid, the total staked amount plus the era's
//! credit, the credit capped at a rational fraction of the stake.

use vstd::prelude::*;

use vstd::arithmetic::div_mod::{lemma_div_is_ordered, lemma_fundamental_div_mod,
    lemma_hoist_over_denominator};

use crate::assoc::{assoc_find, lemma_find_absent, lemma_find_at, lemma_find_push};
use crate::bids::{spec_total_staked_amount, total_staked_amount};
use crate::error::Error;
use crate::keys::{BidAddr, PublicKey};
use crate::records::{BidKind, SeigniorageRecipient, ValidatorBid, ValidatorCredit};
use crate::store::{SeigniorageRecipientsSnapshot, Store};

verus! {

/// Finds the index of `pk` in a key-keyed list.
fn pk_index_of<V>(m: &Vec<(PublicKey, V)>, pk: &PublicKey) -> (r: Option<usize>)
    ensures
        match r {
            Some(i) => i < m@.len() && m@[i as int].0 == *pk && assoc_find(m@, *pk) == Some(
                m@[i as int].1,
            ) && (forall|j: int| 0 <= j < i ==> m@[j].0 != *pk),
            None => assoc_find(m@, *pk) is None,
        },
{
    let mut i: usize = 0;
    while i < m.len()
        invariant
            i <= m@.len(),
            forall|j: int| 0 <= j < i ==> m@[j].0 != *pk,
        decreases m@.len() - i,
    {
        if m[i].0 == *pk {
            proof {
                lemma_find_at(m@, *pk, i as int);
            }
            return Some(i);
        }
        i = i + 1;
    }
    proof {
        lemma_find_absent(m@, *pk);
    }
    None
}

/// The floor of `value * numerator / denominator`, for a rational factor
/// of at most one.
pub fn ratio_floor(value: u128, numerator: u64, denominator: u64) -> (r: u128)
    requires
        denominator > 0,
        numerator <= denominator,
    ensures
        r == (value * numerator) / (denominator as int),
        r <= value,
{
    let den: u128 = denominator as u128;
    let num: u128 = numerator as u128;
    let q: u128 = value / den;
    let rem: u128 = value % den;
    proof {
        lemma_fundamental_div_mod(value as int, den as int);
        assert(den * q + rem == value);
        assert(q * num <= q * den) by (nonlinear_arith)
            requires
                num <= den,
                q >= 0,
        ;
        assert(q * den == den * q) by (nonlinear_arith);
        assert(rem * num <= u128::MAX) by (nonlinear_arith)
            requires
                rem < den,
                den <= 0xffff_ffff_ffff_ffffu128,
                num <= 0xffff_ffff_ffff_ffffu128,
        ;
    }
    let part1: u128 = q * num;
    let part2: u128 = rem * num;
    let part3: u128 = part2 / den;
    proof {
        assert((rem * num) / (den as int) <= rem) by {
            assert(rem * num <= rem * den) by (nonlinear_arith)
                requires
                    num <= den,
                    rem >= 0,
            ;
            lemma_div_is_ordered((rem * num) as int, (rem * den) as int, den as int);
            lemma_hoist_over_denominator(0, rem as int, den as nat);
            assert((rem * den) / (den as int) == rem);
        }
        assert(part1 + part3 <= value);
        lemma_hoist_over_denominator((rem * num) as int, (q * num) as int, den as nat);
        assert(rem * num + (q * num) * den == value * num) by (nonlinear_arith)
            requires
                den * q + rem == value,
        ;
    }
    part1 + part3
}

/// The credit of `(validator, era)` held by a nested credit list.
pub open spec fn spec_credit_lookup(
    credits: Seq<(PublicKey, Vec<(u64, ValidatorCredit)>)>,
    validator: PublicKey,
    era_id: u64,
) -> Option<ValidatorCredit> {
    match assoc_find(credits, validator) {
        Some(inner) => assoc_find(inner@, era_id),
        None => None,
    }
}

/// The effective credit of one bid: nothing unless credits are included
/// and one was recorded; otherwise the recorded amount, capped at the
/// rational fraction of the staked amount.
pub open spec fn spec_credit_amount(
    credits: Seq<(PublicKey, Vec<(u64, ValidatorCredit)>)>,
    validator: PublicKey,
    era_ending: u64,
    staked_amount: u128,
    include_credit: bool,
    cap_numerator: u64,
    cap_denominator: u64,
) -> u128 {
    if !include_credit {
        0
    } else {
        match spec_credit_lookup(credits, validator, era_ending) {
            Some(credit) => {
                let capped = (staked_amount * cap_numerator) / (cap_denominator as int);
                if credit.amount <= capped {
                    credit.amount
                } else {
                    capped as u128
                }
            },
            None => 0,
        }
    }
}

/// An in-memory aggregate of all validator bids and per-era validator
/// credits, loaded from the bid space for era-boundary processing.
pub struct ValidatorBidsDetail {
    /// Every validator bid, keyed by its public key.
    pub validator_bids: Vec<(PublicKey, ValidatorBid)>,
    /// Per-validator, per-era credits.
    pub validator_credits: Vec<(PublicKey, Vec<(u64, ValidatorCredit)>)>,
}

/// What one bid contributes to the validator weights, when it is
/// eligible: the total staked amount behind it plus its effective
/// credit, saturating. Overflow of the total staked amount is an error.
pub open spec fn spec_weights_list(
    bids: Seq<(PublicKey, ValidatorBid)>,
    s: Seq<(BidAddr, BidKind)>,
    credits: Seq<(PublicKey, Vec<(u64, ValidatorCredit)>)>,
    era_ending: u64,
    era_end_timestamp_millis: u64,
    vesting_schedule_period_millis: u64,
    locked: bool,
    include_credits: bool,
    cap_numerator: u64,
    cap_denominator: u64,
) -> Option<Seq<(PublicKey, u128)>>
    decreases bids.len(),
{
    if bids.len() == 0 {
        Some(Seq::empty())
    } else {
        let pk = bids[0].0;
        let bid = bids[0].1;
        let rest = spec_weights_list(
            bids.drop_first(),
            s,
            credits,
            era_ending,
            era_end_timestamp_millis,
            vesting_schedule_period_millis,
            locked,
            include_credits,
            cap_numerator,
            cap_denominator,
        );
        if bid.spec_is_locked_with_vesting_schedule(
            era_end_timestamp_millis,
            vesting_schedule_period_millis,
        ) == locked && !bid.inactive {
            if spec_total_staked_amount(s, bid) > u128::MAX {
                None
            } else {
                let staked = spec_total_staked_amount(s, bid) as u128;
                let credit = spec_credit_amount(
                    credits,
                    pk,
                    era_ending,
                    staked,
                    include_credits,
                    cap_numerator,
                    cap_denominator,
                );
                let weight = if staked + credit > u128::MAX {
                    u128::MAX
                } else {
                    (staked + credit) as u128
                };
                match rest {
                    None => None,
                    Some(r) => Some(seq![(pk, weight)] + r),
                }
            }
        } else {
            rest
        }
    }
}

impl ValidatorBidsDetail {
    /// An empty catalog.
    pub fn new() -> (r: ValidatorBidsDetail)
        ensures
            r.validator_bids@.len() == 0,
            r.validator_credits@.len() == 0,
    {
        ValidatorBidsDetail { validator_bids: Vec::new(), validator_credits: Vec::new() }
    }

    /// Inserts a validator bid, returning any bid it replaces.
    pub fn insert_bid(&mut self, validator: PublicKey, validator_bid: ValidatorBid) -> (r: Option<
        ValidatorBid,
    >)
        ensures
            r == assoc_find(old(self).validator_bids@, validator),
            forall|pk: PublicKey| #![trigger assoc_find(final(self).validator_bids@, pk)]
                assoc_find(final(self).validator_bids@, pk) == (if pk == validator {
                    Some(validator_bid)
                } else {
                    assoc_find(old(self).validator_bids@, pk)
                }),
            final(self).validator_credits == old(self).validator_credits,
    {
        let ghost s0 = self.validator_bids@;
        match pk_index_of(&self.validator_bids, &validator) {
            Some(i) => {
                let previous: ValidatorBid = self.validator_bids[i].1;
                self.validator_bids[i] = (validator, validator_bid);
                proof {
                    assert forall|pk: PublicKey|
                        #![trigger assoc_find(self.validator_bids@, pk)]
                        assoc_find(self.validator_bids@, pk) == (if pk == validator {
                            Some(validator_bid)
                        } else {
                            assoc_find(s0, pk)
                        }) by {
                        if pk == validator {
                            lemma_find_at(self.validator_bids@, pk, i as int);
                        } else {
                            crate::assoc::lemma_find_agree(s0, self.validator_bids@, pk);
                        }
                    }
                }
                Some(previous)
            },
            None => {
                self.validator_bids.push((validator, validator_bid));
                proof {
                    assert forall|pk: PublicKey|
                        #![trigger assoc_find(self.validator_bids@, pk)]
                        assoc_find(self.validator_bids@, pk) == (if pk == validator {
                            Some(validator_bid)
                        } else {
                            assoc_find(s0, pk)
                        }) by {
                        lemma_find_push(s0, pk, validator, validator_bid);
                    }
                }
                None
            },
        }
    }

    /// Inserts a validator credit for the given era; a second credit for
    /// the same validator and era is ignored, the first one wins.
    pub fn insert_credit(
        &mut self,
        validator: PublicKey,
        era_id: u64,
        validator_credit: ValidatorCredit,
    )
        ensures
            forall|pk: PublicKey, e: u64|
                #![trigger spec_credit_lookup(final(self).validator_credits@, pk, e)]
                spec_credit_lookup(final(self).validator_credits@, pk, e) == (if pk == validator
                    && e == era_id && spec_credit_lookup(
                    old(self).validator_credits@,
                    pk,
                    e,
                ) is None {
                    Some(validator_credit)
                } else {
                    spec_credit_lookup(old(self).validator_credits@, pk, e)
                }),
            final(self).validator_bids == old(self).validator_bids,
    {
        let ghost s0 = self.validator_credits@;
        match pk_index_of(&self.validator_credits, &validator) {
            Some(i) => {
                let ghost inner0 = self.validator_credits@[i as int].1@;
                match crate::assoc::map_index_of(&self.validator_credits[i].1, era_id) {
                    Some(_) => {
                        // A credit for this validator and era is already
                        // recorded; the duplicate is ignored.
                    },
                    None => {
                        self.validator_credits[i].1.push((era_id, validator_credit));
                        proof {
                            assert forall|pk: PublicKey, e: u64|
                                #![trigger spec_credit_lookup(self.validator_credits@, pk, e)]
                                spec_credit_lookup(self.validator_credits@, pk, e) == (if pk
                                    == validator && e == era_id && spec_credit_lookup(
                                    s0,
                                    pk,
                                    e,
                                ) is None {
                                    Some(validator_credit)
                                } else {
                                    spec_credit_lookup(s0, pk, e)
                                }) by {
                                if pk == validator {
                                    lemma_find_at(self.validator_credits@, pk, i as int);
                                    lemma_find_push(inner0, e, era_id, validator_credit);
                                } else {
                                    crate::assoc::lemma_find_agree(
                                        s0,
                                        self.validator_credits@,
                                        pk,
                                    );
                                }
                            }
                        }
                    },
                }
            },
            None => {
                let mut inner: Vec<(u64, ValidatorCredit)> = Vec::new();
                inner.push((era_id, validator_credit));
                self.validator_credits.push((validator, inner));
                proof {
                    assert forall|pk: PublicKey, e: u64|
                        #![trigger spec_credit_lookup(self.validator_credits@, pk, e)]
                        spec_credit_lookup(self.validator_credits@, pk, e) == (if pk == validator
                            && e == era_id && spec_credit_lookup(s0, pk, e) is None {
                            Some(validator_credit)
                        } else {
                            spec_credit_lookup(s0, pk, e)
                        }) by {
                        lemma_find_push(
                            s0,
                            pk,
                            validator,
                            self.validator_credits@.last().1,
                        );
                        assert(self.validator_credits@.last().1@ =~= seq![
                            (era_id, validator_credit),
                        ]);
                        if e != era_id {
                            assert(seq![(era_id, validator_credit)].drop_first() =~= Seq::<
                                (u64, ValidatorCredit),
                            >::empty());
                            assert(assoc_find(
                                Seq::<(u64, ValidatorCredit)>::empty(),
                                e,
                            ) is None);
                        }
                    }
                }
            },
        }
    }

    /// The effective credit of one bid at the ending era.
    fn credit_amount(
        &self,
        validator_public_key: &PublicKey,
        era_ending: u64,
        staked_amount: u128,
        include_credit: bool,
        cap_numerator: u64,
        cap_denominator: u64,
    ) -> (r: u128)
        requires
            cap_denominator > 0,
            cap_numerator <= cap_denominator,
        ensures
            r == spec_credit_amount(
                self.validator_credits@,
                *validator_public_key,
                era_ending,
                staked_amount,
                include_credit,
                cap_numerator,
                cap_denominator,
            ),
    {
        if !include_credit {
            return 0;
        }
        match pk_index_of(&self.validator_credits, validator_public_key) {
            Some(i) => {
                match crate::assoc::map_get_ref(&self.validator_credits[i].1, era_ending) {
                    Some(credit) => {
                        let capped: u128 = ratio_floor(
                            staked_amount,
                            cap_numerator,
                            cap_denominator,
                        );
                        if credit.amount <= capped {
                            credit.amount
                        } else {
                            capped
                        }
                    },
                    None => 0,
                }
            },
            None => 0,
        }
    }

    /// Builds the validator weights of the ending era: for each bid whose
    /// vesting lock matches `locked` and which is active, the total
    /// staked amount behind it plus its effective credit, saturating.
    pub fn validator_weights(
        &self,
        store: &Store,
        era_ending: u64,
        era_end_timestamp_millis: u64,
        vesting_schedule_period_millis: u64,
        locked: bool,
        include_credits: bool,
        cap_numerator: u64,
        cap_denominator: u64,
    ) -> (r: Result<Vec<(PublicKey, u128)>, Error>)
        requires
            cap_denominator > 0,
            cap_numerator <= cap_denominator,
        ensures
            (match spec_weights_list(
                self.validator_bids@,
                store.bids@,
                self.validator_credits@,
                era_ending,
                era_end_timestamp_millis,
                vesting_schedule_period_millis,
                locked,
                include_credits,
                cap_numerator,
                cap_denominator,
            ) {
                Some(ws) => (r matches Ok(v) && v@ == ws),
                None => r == Err::<Vec<(PublicKey, u128)>, Error>(Error::InvalidAmount),
            }),
    {
        let ghost all = self.validator_bids@;
        let mut ret: Vec<(PublicKey, u128)> = Vec::new();
        proof {
            assert(all.skip(0) =~= all);
            match spec_weights_list(
                all,
                store.bids@,
                self.validator_credits@,
                era_ending,
                era_end_timestamp_millis,
                vesting_schedule_period_millis,
                locked,
                include_credits,
                cap_numerator,
                cap_denominator,
            ) {
                Some(ws) => {
                    assert(Seq::<(PublicKey, u128)>::empty() + ws =~= ws);
                },
                None => {},
            }
        }
        let mut i: usize = 0;
        while i < self.validator_bids.len()
            invariant
                cap_denominator > 0,
                cap_numerator <= cap_denominator,
                i <= all.len(),
                self.validator_bids@ == all,
                (match spec_weights_list(
                    all,
                    store.bids@,
                    self.validator_credits@,
                    era_ending,
                    era_end_timestamp_millis,
                    vesting_schedule_period_millis,
                    locked,
                    include_credits,
                    cap_numerator,
                    cap_denominator,
                ) {
                    Some(ws) => spec_weights_list(
                        all.skip(i as int),
                        store.bids@,
                        self.validator_credits@,
                        era_ending,
                        era_end_timestamp_millis,
                        vesting_schedule_period_millis,
                        locked,
                        include_credits,
                        cap_numerator,
                        cap_denominator,
                    ) matches Some(tail) && ws == ret@ + tail,
                    None => spec_weights_list(
                        all.skip(i as int),
                        store.bids@,
                        self.validator_credits@,
                        era_ending,
                        era_end_timestamp_millis,
                        vesting_schedule_period_millis,
                        locked,
                        include_credits,
                        cap_numerator,
                        cap_denominator,
                    ) is None,
                }),
            decreases all.len() - i,
        {
            proof {
                assert(all.skip(i as int)[0] == all[i as int]);
                assert(all.skip(i as int).drop_first() =~= all.skip(i + 1 as int));
            }
            let validator_public_key: PublicKey = self.validator_bids[i].0;
            let bid: ValidatorBid = self.validator_bids[i].1;
            let eligible: bool = bid.is_locked_with_vesting_schedule(
                era_end_timestamp_millis,
                vesting_schedule_period_millis,
            ) == locked && !bid.inactive;
            if eligible {
                let staked_amount: u128 = match total_staked_amount(store, &bid) {
                    Ok(v) => v,
                    Err(e) => {
                        return Err(e);
                    },
                };
                let credit_amount: u128 = self.credit_amount(
                    &validator_public_key,
                    era_ending,
                    staked_amount,
                    include_credits,
                    cap_numerator,
                    cap_denominator,
                );
                let total: u128 = staked_amount.saturating_add(credit_amount);
                proof {
                    match spec_weights_list(
                        all.skip(i + 1 as int),
                        store.bids@,
                        self.validator_credits@,
                        era_ending,
                        era_end_timestamp_millis,
                        vesting_schedule_period_millis,
                        locked,
                        include_credits,
                        cap_numerator,
                        cap_denominator,
                    ) {
                        Some(tail) => {
                            assert(ret@.push((validator_public_key, total)) + tail =~= ret@ + (
                            seq![(validator_public_key, total)] + tail));
                        },
                        None => {},
                    }
                }
                ret.push((validator_public_key, total));
            }
            i = i + 1;
        }
        proof {
            assert(all.skip(all.len() as int) =~= Seq::<(PublicKey, ValidatorBid)>::empty());
            assert(ret@ + Seq::<(PublicKey, u128)>::empty() =~= ret@);
        }
        Ok(ret)
    }

    /// Consumes the catalog into its underlying collections.
    pub fn destructure(self) -> (r: (
        Vec<(PublicKey, ValidatorBid)>,
        Vec<(PublicKey, Vec<(u64, ValidatorCredit)>)>,
    ))
        ensures
            r.0 == self.validator_bids,
            r.1 == self.validator_credits,
    {
        (self.validator_bids, self.validator_credits)
    }
}

/// The validator bid the catalog ends up holding for `pk`: the last one
/// enumerated, keyed by its own public key.
pub open spec fn spec_collected_bid(s: Seq<(BidAddr, BidKind)>, pk: PublicKey) -> Option<
    ValidatorBid,
>
    decreases s.len(),
{
    if s.len() == 0 {
        None
    } else {
        match s.last().1 {
            BidKind::Validator(b) => if b.validator_public_key == pk {
                Some(b)
            } else {
                spec_collected_bid(s.drop_last(), pk)
            },
            _ => spec_collected_bid(s.drop_last(), pk),
        }
    }
}

/// The credit the catalog ends up holding for `pk`: the first credit
/// record enumerated for it.
pub open spec fn spec_collected_credit(s: Seq<(BidAddr, BidKind)>, pk: PublicKey) -> Option<
    ValidatorCredit,
>
    decreases s.len(),
{
    if s.len() == 0 {
        None
    } else {
        let rest = spec_collected_credit(s.drop_last(), pk);
        if rest is Some {
            rest
        } else {
            match s.last().1 {
                BidKind::Credit(c) => if c.validator_public_key == pk {
                    Some(c)
                } else {
                    None
                },
                _ => None,
            }
        }
    }
}

/// Loads the catalog from the bid space: every validator bid under its
/// current public key, and every credit under its validator and the
/// given era, the first credit winning.
pub fn get_validator_bids(store: &Store, era_id: u64) -> (r: Result<ValidatorBidsDetail, Error>)
    ensures
        (r matches Ok(detail) && (forall|pk: PublicKey|
            #![trigger assoc_find(detail.validator_bids@, pk)]
            assoc_find(detail.validator_bids@, pk) == spec_collected_bid(store.bids@, pk)) && (
        forall|pk: PublicKey, e: u64|
            #![trigger spec_credit_lookup(detail.validator_credits@, pk, e)]
            spec_credit_lookup(detail.validator_credits@, pk, e) == (if e == era_id {
                spec_collected_credit(store.bids@, pk)
            } else {
                None::<ValidatorCredit>
            }))),
{
    let mut ret = ValidatorBidsDetail::new();
    proof {
        assert(forall|pk: PublicKey|
            assoc_find(ret.validator_bids@, pk) == spec_collected_bid(
                store.bids@.take(0),
                pk,
            )) by {
            assert(store.bids@.take(0) =~= Seq::<(BidAddr, BidKind)>::empty());
        }
        assert(forall|pk: PublicKey, e: u64|
            spec_credit_lookup(ret.validator_credits@, pk, e) == None::<ValidatorCredit>);
    }
    let mut i: usize = 0;
    while i < store.bids.len()
        invariant
            i <= store.bids@.len(),
            forall|pk: PublicKey| #![trigger assoc_find(ret.validator_bids@, pk)]
                assoc_find(ret.validator_bids@, pk) == spec_collected_bid(
                    store.bids@.take(i as int),
                    pk,
                ),
            forall|pk: PublicKey, e: u64|
                #![trigger spec_credit_lookup(ret.validator_credits@, pk, e)]
                spec_credit_lookup(ret.validator_credits@, pk, e) == (if e == era_id {
                    spec_collected_credit(store.bids@.take(i as int), pk)
                } else {
                    None::<ValidatorCredit>
                }),
        decreases store.bids@.len() - i,
    {
        proof {
            assert(store.bids@.take(i + 1 as int).drop_last() =~= store.bids@.take(i as int));
            assert(store.bids@.take(i + 1 as int).last() == store.bids@[i as int]);
        }
        match &store.bids[i].1 {
            BidKind::Validator(validator_bid) => {
                ret.insert_bid(validator_bid.validator_public_key, *validator_bid);
            },
            BidKind::Credit(credit) => {
                ret.insert_credit(credit.validator_public_key, era_id, *credit);
            },
            _ => {
                // Other record kinds do not enter the catalog.
            },
        }
        i = i + 1;
    }
    proof {
        assert(store.bids@.take(store.bids@.len() as int) =~= store.bids@);
    }
    Ok(ret)
}

/// The validator bid the write-back leaves under `pk`: the last bid
/// listed for it.
pub open spec fn spec_last_bid_for(s: Seq<(PublicKey, ValidatorBid)>, pk: PublicKey) -> Option<
    ValidatorBid,
>
    decreases s.len(),
{
    if s.len() == 0 {
        None
    } else if s.last().0 == pk {
        Some(s.last().1)
    } else {
        spec_last_bid_for(s.drop_last(), pk)
    }
}

/// Writes every validator bid back under its freshly computed address.
pub fn set_validator_bids(store: &mut Store, validators: Vec<(PublicKey, ValidatorBid)>) -> (r:
    Result<(), Error>)
    requires
        old(store).wf(),
        forall|k: int|
            0 <= k < validators@.len() ==> (#[trigger] validators@[k]).0
                == validators@[k].1.validator_public_key,
    ensures
        final(store).wf(),
        old(store).delegators_backed() ==> final(store).delegators_backed(),
        r == Ok::<(), Error>(()),
        forall|a2: BidAddr| #![trigger final(store).spec_bid(a2)]
            final(store).spec_bid(a2) == (match a2 {
                BidAddr::Validator(pk) => match spec_last_bid_for(validators@, pk) {
                    Some(b) => Some(BidKind::Validator(b)),
                    None => old(store).spec_bid(a2),
                },
                _ => old(store).spec_bid(a2),
            }),
        *final(store) == (Store { bids: final(store).bids, ..*old(store) }),
{
    let ghost all = validators@;
    let mut i: usize = 0;
    while i < validators.len()
        invariant
            store.wf(),
            i <= all.len(),
            validators@ == all,
            forall|k: int| 0 <= k < all.len() ==> (#[trigger] all[k]).0
                == all[k].1.validator_public_key,
            old(store).delegators_backed() ==> store.delegators_backed(),
            forall|a2: BidAddr| #![trigger store.spec_bid(a2)]
                store.spec_bid(a2) == (match a2 {
                    BidAddr::Validator(pk) => match spec_last_bid_for(all.take(i as int), pk) {
                        Some(b) => Some(BidKind::Validator(b)),
                        None => old(store).spec_bid(a2),
                    },
                    _ => old(store).spec_bid(a2),
                }),
            *store == (Store { bids: store.bids, ..*old(store) }),
        decreases all.len() - i,
    {
        proof {
            assert(all.take(i + 1 as int).drop_last() =~= all.take(i as int));
            assert(all.take(i + 1 as int).last() == all[i as int]);
        }
        let validator_public_key: PublicKey = validators[i].0;
        let validator_bid: ValidatorBid = validators[i].1;
        let ghost pre = *store;
        store.write_bid(
            BidAddr::Validator(validator_public_key),
            BidKind::Validator(validator_bid),
        );
        proof {
            crate::rewards::lemma_backed_preserved_validator_write(
                pre,
                *store,
                validator_public_key,
            );
        }
        i = i + 1;
    }
    proof {
        assert(all.take(all.len() as int) =~= all);
    }
    Ok(())
}

/// Prunes away all validator credits for the imputed era, which should
/// be the era ending; intended to be called after computing the weights.
pub fn prune_validator_credits(
    store: &mut Store,
    era_ending: u64,
    validator_credits: &Vec<(PublicKey, Vec<(u64, ValidatorCredit)>)>,
)
    requires
        old(store).wf(),
    ensures
        final(store).wf(),
        old(store).delegators_backed() ==> final(store).delegators_backed(),
        forall|a2: BidAddr| #![trigger final(store).spec_bid(a2)]
            final(store).spec_bid(a2) == (if (a2 matches BidAddr::Credit(pk, e) && e == era_ending
                && (exists|k: int|
                0 <= k < validator_credits@.len() && (#[trigger] validator_credits@[k]).0 == pk
                    && assoc_find(validator_credits@[k].1@, era_ending) is Some)) {
                None
            } else {
                old(store).spec_bid(a2)
            }),
        *final(store) == (Store { bids: final(store).bids, ..*old(store) }),
{
    let ghost all = validator_credits@;
    let mut i: usize = 0;
    while i < validator_credits.len()
        invariant
            store.wf(),
            i <= all.len(),
            validator_credits@ == all,
            old(store).delegators_backed() ==> store.delegators_backed(),
            forall|a2: BidAddr| #![trigger store.spec_bid(a2)]
                store.spec_bid(a2) == (if (a2 matches BidAddr::Credit(pk, e) && e == era_ending
                    && (exists|k: int|
                    0 <= k < i && (#[trigger] all[k]).0 == pk && assoc_find(
                        all[k].1@,
                        era_ending,
                    ) is Some)) {
                    None
                } else {
                    old(store).spec_bid(a2)
                }),
            *store == (Store { bids: store.bids, ..*old(store) }),
        decreases all.len() - i,
    {
        let validator_public_key: PublicKey = validator_credits[i].0;
        let has_credit: bool = match crate::assoc::map_index_of(
            &validator_credits[i].1,
            era_ending,
        ) {
            Some(_) => true,
            None => false,
        };
        if has_credit {
            let ghost pre = *store;
            store.prune_bid(BidAddr::Credit(validator_public_key, era_ending));
            proof {
                if old(store).delegators_backed() {
                    assert(pre.delegators_backed());
                    assert forall|v: PublicKey, d: PublicKey|
                        (#[trigger] assoc_find(store.bids@, BidAddr::Delegator(v, d)))
                            is Some implies (assoc_find(store.bids@, BidAddr::Validator(v))
                        matches Some(BidKind::Validator(_))) by {
                        assert(store.spec_bid(BidAddr::Delegator(v, d)) == pre.spec_bid(
                            BidAddr::Delegator(v, d),
                        ));
                        assert(store.spec_bid(BidAddr::Validator(v)) == pre.spec_bid(
                            BidAddr::Validator(v),
                        ));
                    }
                }
            }
        }
        i = i + 1;
    }
}

/// The weights of one snapshot era: each recipient with a representable
/// total stake, mapped to it; the others dropped.
pub open spec fn spec_era_weights(recipients: Seq<(PublicKey, SeigniorageRecipient)>) -> Seq<
    (PublicKey, u128),
>
    decreases recipients.len(),
{
    if recipients.len() == 0 {
        Seq::empty()
    } else {
        let rest = spec_era_weights(recipients.drop_first());
        if recipients[0].1.spec_total_stake() <= u128::MAX {
            seq![(recipients[0].0, recipients[0].1.spec_total_stake() as u128)] + rest
        } else {
            rest
        }
    }
}

/// Converts a seigniorage recipients snapshot into the era validators:
/// for each era, each recipient's total stake, dropping recipients whose
/// total is not representable.
pub fn era_validators_from_snapshot(snapshot: &SeigniorageRecipientsSnapshot) -> (r: Vec<
    (u64, Vec<(PublicKey, u128)>),
>)
    ensures
        r@.len() == snapshot.eras@.len(),
        forall|i: int| #![all_triggers]
            0 <= i < r@.len() ==> r@[i].0 == snapshot.eras@[i].0 && r@[i].1@ == spec_era_weights(
                snapshot.eras@[i].1@,
            ),
{
    let mut r: Vec<(u64, Vec<(PublicKey, u128)>)> = Vec::new();
    let mut i: usize = 0;
    while i < snapshot.eras.len()
        invariant
            i <= snapshot.eras@.len(),
            r@.len() == i,
            forall|k: int| #![all_triggers]
                0 <= k < i ==> r@[k].0 == snapshot.eras@[k].0 && r@[k].1@ == spec_era_weights(
                    snapshot.eras@[k].1@,
                ),
        decreases snapshot.eras@.len() - i,
    {
        let era_id: u64 = snapshot.eras[i].0;
        let ghost recips = snapshot.eras@[i as int].1@;
        let mut weights: Vec<(PublicKey, u128)> = Vec::new();
        proof {
            assert(recips.skip(0) =~= recips);
            assert(Seq::<(PublicKey, u128)>::empty() + spec_era_weights(recips)
                =~= spec_era_weights(recips));
        }
        let mut j: usize = 0;
        while j < snapshot.eras[i].1.len()
            invariant
                i < snapshot.eras@.len(),
                recips == snapshot.eras@[i as int].1@,
                j <= recips.len(),
                spec_era_weights(recips) == weights@ + spec_era_weights(recips.skip(j as int)),
            decreases recips.len() - j,
        {
            proof {
                assert(recips.skip(j as int)[0] == recips[j as int]);
                assert(recips.skip(j as int).drop_first() =~= recips.skip(j + 1 as int));
            }
            let total = snapshot.eras[i].1[j].1.total_stake();
            match total {
                Some(stake) => {
                    proof {
                        assert(weights@.push((recips[j as int].0, stake)) + spec_era_weights(
                            recips.skip(j + 1 as int),
                        ) =~= weights@ + (seq![(recips[j as int].0, stake)] + spec_era_weights(
                            recips.skip(j + 1 as int),
                        )));
                    }
                    weights.push((snapshot.eras[i].1[j].0, stake));
                },
                None => {
                },
            }
            j = j + 1;
        }
        proof {
            assert(recips.skip(recips.len() as int) =~= Seq::<
                (PublicKey, SeigniorageRecipient),
            >::empty());
            assert(weights@ + Seq::<(PublicKey, u128)>::empty() =~= weights@);
        }
        r.push((era_id, weights));
        i = i + 1;
    }
    r
}

} // verus!
