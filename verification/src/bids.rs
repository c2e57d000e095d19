//! Readers over the bid record space, and the bounded bridge walk.
//!
//! A validator that rotates its identity leaves a bridge record under its
//! old address; chains of such records are followed for at most
//! [`MAX_BRIDGE_CHAIN_LENGTH`] hops, the only cycle defense.

use vstd::prelude::*;

use crate::assoc::assoc_find;
use crate::error::Error;
use crate::keys::{BidAddr, PublicKey};
use crate::records::{BidKind, Delegator, SeigniorageRecipient, ValidatorBid};
use crate::store::{delegator_records_of, Store};

verus! {

/// Maximum length of a bridge record chain. Used when looking for the
/// most recent bid record, to avoid unbounded computation on cyclic
/// chains.
pub const MAX_BRIDGE_CHAIN_LENGTH: u64 = 20;

/// What the bounded walk from `addr` resolves to with `fuel` steps left:
/// the validator record it ends at, `ValidatorNotFound` when it ends
/// nowhere, or `BridgeRecordChainTooLong` when the fuel runs out.
pub open spec fn spec_read_current_validator_bid(
    s: Seq<(BidAddr, BidKind)>,
    addr: BidAddr,
    fuel: nat,
) -> Result<ValidatorBid, Error>
    decreases fuel,
{
    if fuel == 0 {
        Err(Error::BridgeRecordChainTooLong)
    } else {
        match assoc_find(s, addr) {
            Some(BidKind::Validator(b)) => Ok(b),
            Some(BidKind::Bridge(br)) => spec_read_current_validator_bid(
                s,
                BidAddr::Validator(br.new_validator_public_key),
                (fuel - 1) as nat,
            ),
            _ => Err(Error::ValidatorNotFound),
        }
    }
}

/// What the key-only walk from `pk` resolves to with `fuel` steps left:
/// the current key when a validator record is reached, the last key
/// encountered when the validator has withdrawn, or
/// `BridgeRecordChainTooLong` when the fuel runs out.
pub open spec fn spec_most_recent_validator_public_key(
    s: Seq<(BidAddr, BidKind)>,
    pk: PublicKey,
    fuel: nat,
) -> Result<PublicKey, Error>
    decreases fuel,
{
    if fuel == 0 {
        Err(Error::BridgeRecordChainTooLong)
    } else {
        match assoc_find(s, BidAddr::Validator(pk)) {
            Some(BidKind::Validator(b)) => Ok(b.validator_public_key),
            Some(BidKind::Bridge(br)) => spec_most_recent_validator_public_key(
                s,
                br.new_validator_public_key,
                (fuel - 1) as nat,
            ),
            _ => Ok(pk),
        }
    }
}

/// Reads the validator record stored directly under `addr`.
pub fn read_validator_bid(store: &Store, addr: BidAddr) -> (r: Result<ValidatorBid, Error>)
    ensures
        (match store.spec_bid(addr) {
            Some(BidKind::Validator(b)) => r == Ok::<ValidatorBid, Error>(b),
            _ => r == Err::<ValidatorBid, Error>(Error::ValidatorNotFound),
        }),
{
    match store.read_bid(addr) {
        Some(BidKind::Validator(b)) => Ok(b),
        _ => Err(Error::ValidatorNotFound),
    }
}

/// Reads the delegator record stored directly under `addr`.
pub fn read_delegator_bid(store: &Store, addr: BidAddr) -> (r: Result<Delegator, Error>)
    ensures
        (match store.spec_bid(addr) {
            Some(BidKind::Delegator(d)) => r == Ok::<Delegator, Error>(d),
            _ => r == Err::<Delegator, Error>(Error::DelegatorNotFound),
        }),
{
    match store.read_bid(addr) {
        Some(BidKind::Delegator(d)) => Ok(d),
        _ => Err(Error::DelegatorNotFound),
    }
}

/// Reads every delegator record pointing at `validator_public_key`, in
/// store order.
pub fn read_delegator_bids(store: &Store, validator_public_key: &PublicKey) -> (r: Result<
    Vec<Delegator>,
    Error,
>)
    ensures
        (r matches Ok(bids) && bids@ == delegator_records_of(
            store.bids@,
            *validator_public_key,
        )),
{
    Ok(store.delegator_bids_of(validator_public_key))
}

/// Follows bridge records from `addr` to the current validator record,
/// for at most [`MAX_BRIDGE_CHAIN_LENGTH`] hops.
pub fn read_current_validator_bid(store: &Store, addr: BidAddr) -> (r: Result<ValidatorBid, Error>)
    ensures
        r == spec_read_current_validator_bid(store.bids@, addr, MAX_BRIDGE_CHAIN_LENGTH as nat),
{
    let mut cur: BidAddr = addr;
    let mut hops: u64 = 0;
    while hops < MAX_BRIDGE_CHAIN_LENGTH
        invariant
            hops <= MAX_BRIDGE_CHAIN_LENGTH,
            spec_read_current_validator_bid(store.bids@, addr, MAX_BRIDGE_CHAIN_LENGTH as nat)
                == spec_read_current_validator_bid(
                store.bids@,
                cur,
                (MAX_BRIDGE_CHAIN_LENGTH - hops) as nat,
            ),
        decreases MAX_BRIDGE_CHAIN_LENGTH - hops,
    {
        match store.read_bid(cur) {
            Some(BidKind::Validator(b)) => {
                return Ok(b);
            },
            Some(BidKind::Bridge(br)) => {
                cur = BidAddr::Validator(br.new_validator_public_key);
                hops = hops + 1;
            },
            _ => {
                return Err(Error::ValidatorNotFound);
            },
        }
    }
    Err(Error::BridgeRecordChainTooLong)
}

/// Follows bridge records from `validator_public_key`, returning the most
/// recent key: the current one if its record was changed, or the last key
/// encountered if the validator has withdrawn its bid completely.
pub fn get_most_recent_validator_public_key(store: &Store, validator_public_key: PublicKey) -> (r:
    Result<PublicKey, Error>)
    ensures
        r == spec_most_recent_validator_public_key(
            store.bids@,
            validator_public_key,
            MAX_BRIDGE_CHAIN_LENGTH as nat,
        ),
{
    let mut pk: PublicKey = validator_public_key;
    let mut hops: u64 = 0;
    while hops < MAX_BRIDGE_CHAIN_LENGTH
        invariant
            hops <= MAX_BRIDGE_CHAIN_LENGTH,
            spec_most_recent_validator_public_key(
                store.bids@,
                validator_public_key,
                MAX_BRIDGE_CHAIN_LENGTH as nat,
            ) == spec_most_recent_validator_public_key(
                store.bids@,
                pk,
                (MAX_BRIDGE_CHAIN_LENGTH - hops) as nat,
            ),
        decreases MAX_BRIDGE_CHAIN_LENGTH - hops,
    {
        match store.read_bid(BidAddr::Validator(pk)) {
            Some(BidKind::Validator(b)) => {
                return Ok(b.validator_public_key);
            },
            Some(BidKind::Bridge(br)) => {
                pk = br.new_validator_public_key;
                hops = hops + 1;
            },
            _ => {
                return Ok(pk);
            },
        }
    }
    Err(Error::BridgeRecordChainTooLong)
}

/// The sum of the staked amounts of a delegator record list, as an
/// unbounded integer.
pub open spec fn delegator_stake_sum(s: Seq<Delegator>) -> int
    decreases s.len(),
{
    if s.len() == 0 {
        0
    } else {
        s[0].staked_amount + delegator_stake_sum(s.drop_first())
    }
}

/// Appending a record adds its stake to the sum.
pub proof fn lemma_delegator_stake_sum_push(s: Seq<Delegator>, d: Delegator)
    ensures
        delegator_stake_sum(s.push(d)) == delegator_stake_sum(s) + d.staked_amount,
    decreases s.len(),
{
    if s.len() == 0 {
        assert(s.push(d).drop_first() =~= s);
    } else {
        assert(s.push(d).drop_first() =~= s.drop_first().push(d));
        lemma_delegator_stake_sum_push(s.drop_first(), d);
    }
}

/// A prefix sum of delegator stakes never exceeds the full sum.
pub proof fn lemma_delegator_stake_sum_partial_le(s: Seq<Delegator>, i: int)
    requires
        0 <= i <= s.len(),
    ensures
        delegator_stake_sum(s.take(i)) <= delegator_stake_sum(s),
    decreases s.len() - i,
{
    if i < s.len() {
        assert(s.take(i + 1) =~= s.take(i).push(s[i]));
        lemma_delegator_stake_sum_push(s.take(i), s[i]);
        lemma_delegator_stake_sum_partial_le(s, i + 1);
    } else {
        assert(s.take(i) =~= s);
    }
}

/// The total staked amount behind a validator bid: the validator's own
/// stake plus every delegator's stake.
pub open spec fn spec_total_staked_amount(s: Seq<(BidAddr, BidKind)>, bid: ValidatorBid) -> int {
    bid.staked_amount + delegator_stake_sum(delegator_records_of(s, bid.validator_public_key))
}

/// Sums the validator's own stake and every delegator's stake with
/// checked semantics; overflow is an error.
pub fn total_staked_amount(store: &Store, validator_bid: &ValidatorBid) -> (r: Result<u128, Error>)
    ensures
        spec_total_staked_amount(store.bids@, *validator_bid) <= u128::MAX ==> r == Ok::<
            u128,
            Error,
        >(spec_total_staked_amount(store.bids@, *validator_bid) as u128),
        spec_total_staked_amount(store.bids@, *validator_bid) > u128::MAX ==> r == Err::<
            u128,
            Error,
        >(Error::InvalidAmount),
{
    let delegators = store.delegator_bids_of(&validator_bid.validator_public_key);
    let ghost all = delegators@;
    let mut sum: u128 = 0;
    let mut i: usize = 0;
    while i < delegators.len()
        invariant
            i <= all.len(),
            delegators@ == all,
            all == delegator_records_of(store.bids@, validator_bid.validator_public_key),
            sum == delegator_stake_sum(all.take(i as int)),
        decreases all.len() - i,
    {
        proof {
            assert(all.take(i + 1 as int) =~= all.take(i as int).push(all[i as int]));
            lemma_delegator_stake_sum_push(all.take(i as int), all[i as int]);
        }
        match sum.checked_add(delegators[i].staked_amount) {
            Some(total) => {
                sum = total;
            },
            None => {
                proof {
                    lemma_delegator_stake_sum_partial_le(all, i + 1);
                }
                return Err(Error::InvalidAmount);
            },
        }
        i = i + 1;
    }
    proof {
        assert(all.take(all.len() as int) =~= all);
    }
    match sum.checked_add(validator_bid.staked_amount) {
        Some(total) => Ok(total),
        None => Err(Error::InvalidAmount),
    }
}

/// The delegator stakes of a record list that are not zero, keyed by
/// delegator public key, in store order.
pub open spec fn nonzero_delegator_stakes(s: Seq<Delegator>) -> Seq<(PublicKey, u128)>
    decreases s.len(),
{
    if s.len() == 0 {
        Seq::empty()
    } else {
        let rest = nonzero_delegator_stakes(s.drop_first());
        if s[0].staked_amount == 0 {
            rest
        } else {
            seq![(s[0].delegator_public_key, s[0].staked_amount)] + rest
        }
    }
}

/// Appending a record appends its stake entry unless the stake is zero.
pub proof fn lemma_nonzero_delegator_stakes_push(s: Seq<Delegator>, d: Delegator)
    ensures
        nonzero_delegator_stakes(s.push(d)) == (if d.staked_amount == 0 {
            nonzero_delegator_stakes(s)
        } else {
            nonzero_delegator_stakes(s).push((d.delegator_public_key, d.staked_amount))
        }),
    decreases s.len(),
{
    if s.len() == 0 {
        assert(s.push(d).drop_first() =~= s);
        if d.staked_amount != 0 {
            assert(nonzero_delegator_stakes(s.push(d)) =~= nonzero_delegator_stakes(s).push(
                (d.delegator_public_key, d.staked_amount),
            ));
        }
    } else {
        assert(s.push(d).drop_first() =~= s.drop_first().push(d));
        lemma_nonzero_delegator_stakes_push(s.drop_first(), d);
        if d.staked_amount != 0 && s[0].staked_amount != 0 {
            assert(nonzero_delegator_stakes(s.push(d)) =~= nonzero_delegator_stakes(s).push(
                (d.delegator_public_key, d.staked_amount),
            ));
        }
    }
}

/// Builds the seigniorage recipient of a validator bid: its own stake,
/// its delegation rate, and the stake of each delegator that still has
/// one. The delegator stakes are keyed by delegator public key and listed
/// in store-enumeration order, the crate's canonical ordering for the
/// delegator records of one validator.
pub fn seigniorage_recipient(store: &Store, validator_bid: &ValidatorBid) -> (r: Result<
    SeigniorageRecipient,
    Error,
>)
    ensures
        (r matches Ok(rec) && rec.stake == validator_bid.staked_amount && rec.delegation_rate
            == validator_bid.delegation_rate && rec.delegator_stake@ == nonzero_delegator_stakes(
            delegator_records_of(store.bids@, validator_bid.validator_public_key),
        )),
{
    let delegators = store.delegator_bids_of(&validator_bid.validator_public_key);
    let ghost all = delegators@;
    let mut delegator_stake: Vec<(PublicKey, u128)> = Vec::new();
    let mut i: usize = 0;
    while i < delegators.len()
        invariant
            i <= all.len(),
            delegators@ == all,
            delegator_stake@ == nonzero_delegator_stakes(all.take(i as int)),
        decreases all.len() - i,
    {
        proof {
            assert(all.take(i + 1 as int) =~= all.take(i as int).push(all[i as int]));
            lemma_nonzero_delegator_stakes_push(all.take(i as int), all[i as int]);
        }
        if delegators[i].staked_amount != 0 {
            delegator_stake.push(
                (delegators[i].delegator_public_key, delegators[i].staked_amount),
            );
        }
        i = i + 1;
    }
    proof {
        assert(all.take(all.len() as int) =~= all);
    }
    Ok(
        SeigniorageRecipient::new(
            validator_bid.staked_amount,
            validator_bid.delegation_rate,
            delegator_stake,
        ),
    )
}

/// Law: a bridge chain of at most the bound's length that ends at a
/// validator record is resolved to exactly that record.
///
/// `chain` lists the addresses visited: each holds a bridge record
/// pointing at the next address, and the last holds the validator record.
pub proof fn lemma_bridge_chain_resolves(
    s: Seq<(BidAddr, BidKind)>,
    chain: Seq<BidAddr>,
    b: ValidatorBid,
)
    requires
        1 <= chain.len() <= MAX_BRIDGE_CHAIN_LENGTH,
        forall|i: int| #![trigger chain[i]]
            0 <= i < chain.len() - 1 ==> (assoc_find(s, chain[i]) matches Some(BidKind::Bridge(br))
                && chain[i + 1] == BidAddr::Validator(br.new_validator_public_key)),
        assoc_find(s, chain.last()) == Some(BidKind::Validator(b)),
    ensures
        spec_read_current_validator_bid(s, chain[0], MAX_BRIDGE_CHAIN_LENGTH as nat) == Ok::<
            ValidatorBid,
            Error,
        >(b),
{
    lemma_bridge_chain_resolves_fueled(s, chain, b, MAX_BRIDGE_CHAIN_LENGTH as nat);
}

/// Helper for [`lemma_bridge_chain_resolves`], generalized over the fuel.
proof fn lemma_bridge_chain_resolves_fueled(
    s: Seq<(BidAddr, BidKind)>,
    chain: Seq<BidAddr>,
    b: ValidatorBid,
    fuel: nat,
)
    requires
        1 <= chain.len() <= fuel,
        forall|i: int| #![trigger chain[i]]
            0 <= i < chain.len() - 1 ==> (assoc_find(s, chain[i]) matches Some(BidKind::Bridge(br))
                && chain[i + 1] == BidAddr::Validator(br.new_validator_public_key)),
        assoc_find(s, chain.last()) == Some(BidKind::Validator(b)),
    ensures
        spec_read_current_validator_bid(s, chain[0], fuel) == Ok::<ValidatorBid, Error>(b),
    decreases chain.len(),
{
    if chain.len() == 1 {
        assert(chain.last() == chain[0]);
    } else {
        assert(assoc_find(s, chain[0]) matches Some(BidKind::Bridge(br)) && chain[1]
            == BidAddr::Validator(br.new_validator_public_key));
        let rest = chain.drop_first();
        assert(forall|i: int| #![trigger rest[i]]
            0 <= i < rest.len() - 1 ==> rest[i] == chain[i + 1] && rest[i + 1] == chain[i + 2]);
        assert(rest.last() == chain.last());
        lemma_bridge_chain_resolves_fueled(s, rest, b, (fuel - 1) as nat);
    }
}

/// Law: a bridge chain longer than the bound makes the walk fail with
/// `BridgeRecordChainTooLong`, whatever lies beyond it.
///
/// `chain` lists the first addresses visited: each holds a bridge record
/// pointing at the next address.
pub proof fn lemma_bridge_chain_too_long(s: Seq<(BidAddr, BidKind)>, chain: Seq<BidAddr>)
    requires
        chain.len() > MAX_BRIDGE_CHAIN_LENGTH,
        forall|i: int| #![trigger chain[i]]
            0 <= i < chain.len() - 1 ==> (assoc_find(s, chain[i]) matches Some(BidKind::Bridge(br))
                && chain[i + 1] == BidAddr::Validator(br.new_validator_public_key)),
    ensures
        spec_read_current_validator_bid(s, chain[0], MAX_BRIDGE_CHAIN_LENGTH as nat) == Err::<
            ValidatorBid,
            Error,
        >(Error::BridgeRecordChainTooLong),
{
    lemma_bridge_chain_too_long_fueled(s, chain, MAX_BRIDGE_CHAIN_LENGTH as nat);
}

/// Helper for [`lemma_bridge_chain_too_long`], generalized over the fuel.
proof fn lemma_bridge_chain_too_long_fueled(
    s: Seq<(BidAddr, BidKind)>,
    chain: Seq<BidAddr>,
    fuel: nat,
)
    requires
        chain.len() > fuel,
        forall|i: int| #![trigger chain[i]]
            0 <= i < chain.len() - 1 ==> (assoc_find(s, chain[i]) matches Some(BidKind::Bridge(br))
                && chain[i + 1] == BidAddr::Validator(br.new_validator_public_key)),
    ensures
        spec_read_current_validator_bid(s, chain[0], fuel) == Err::<ValidatorBid, Error>(
            Error::BridgeRecordChainTooLong,
        ),
    decreases fuel,
{
    if fuel > 0 {
        assert(assoc_find(s, chain[0]) matches Some(BidKind::Bridge(br)) && chain[1]
            == BidAddr::Validator(br.new_validator_public_key));
        let rest = chain.drop_first();
        assert(forall|i: int| #![trigger rest[i]]
            0 <= i < rest.len() - 1 ==> rest[i] == chain[i + 1] && rest[i + 1] == chain[i + 2]);
        lemma_bridge_chain_too_long_fueled(s, rest, (fuel - 1) as nat);
    }
}

} // verus!
