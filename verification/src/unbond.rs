//! The unbond processor.
//!
//! At an era boundary the processor walks every account's unbonding
//! entries, matures those whose era has come — paying them out or
//! re-staking them with their chosen validator — and keeps the rest.
//! Afterwards it prunes the bids that the matured unbonds have left
//! empty: delegators with no stake and no pending unbond, and then the
//! validator itself if nothing holds it any more.

use vstd::prelude::*;

use crate::bids::{read_current_validator_bid, spec_read_current_validator_bid,
    MAX_BRIDGE_CHAIN_LENGTH};
use crate::delegation::{handle_delegation, spec_delegation_applied, spec_delegation_result,
    spec_transfer_err, spec_transfer_balance};
use crate::error::Error;
use crate::keys::{AccountHash, BidAddr, PublicKey, URef, SYSTEM_KEY_ID};
use crate::named::{get_era_id, get_unbonding_delay, get_unbonding_purses, named_read,
    set_unbonding_purses};
use crate::records::{BidKind, Delegator, UnbondingPurse, ValidatorBid};
use crate::store::{delegator_records_of, Store};
use crate::assoc::assoc_find;

verus! {

/// How the maturation of one unbonding entry went.
#[derive(Clone, Copy, Debug, PartialEq, Eq, Structural)]
pub enum UnbondRedelegationOutcome {
    /// The entry asked for no redelegation; the funds are withdrawn.
    Withdrawal,
    /// The funds were re-staked with the target validator.
    SuccessfullyRedelegated,
    /// The redelegation target has no current validator bid.
    NonexistantRedelegationTarget,
    /// The redelegation target already has the maximum of delegators.
    RedelegationTargetHasNoVacancy,
    /// The redelegation target has unbonded and awaits pruning.
    RedelegationTargetIsUnstaked,
    /// The re-staked amount would fall below the delegation minimum.
    DelegationAmountBelowCap,
}

/// Whether an unbonding entry has matured at the current era.
pub open spec fn spec_matured(p: UnbondingPurse, current_era: u64, unbonding_delay: u64) -> bool {
    p.era_of_creation + unbonding_delay <= current_era
}

/// The entries of an unbond list that have not matured yet, in order.
pub open spec fn spec_kept_unbonds(
    s: Seq<UnbondingPurse>,
    current_era: u64,
    unbonding_delay: u64,
) -> Seq<UnbondingPurse>
    decreases s.len(),
{
    if s.len() == 0 {
        Seq::empty()
    } else {
        let rest = spec_kept_unbonds(s.drop_first(), current_era, unbonding_delay);
        if spec_matured(s[0], current_era, unbonding_delay) {
            rest
        } else {
            seq![s[0]] + rest
        }
    }
}

/// Appending an entry appends it to the kept list unless it has matured.
pub proof fn lemma_kept_push(
    s: Seq<UnbondingPurse>,
    p: UnbondingPurse,
    current_era: u64,
    unbonding_delay: u64,
)
    ensures
        spec_kept_unbonds(s.push(p), current_era, unbonding_delay) == (if spec_matured(
            p,
            current_era,
            unbonding_delay,
        ) {
            spec_kept_unbonds(s, current_era, unbonding_delay)
        } else {
            spec_kept_unbonds(s, current_era, unbonding_delay).push(p)
        }),
    decreases s.len(),
{
    if s.len() == 0 {
        assert(s.push(p).drop_first() =~= s);
        if !spec_matured(p, current_era, unbonding_delay) {
            assert(spec_kept_unbonds(s.push(p), current_era, unbonding_delay)
                =~= spec_kept_unbonds(s, current_era, unbonding_delay).push(p));
        }
    } else {
        assert(s.push(p).drop_first() =~= s.drop_first().push(p));
        lemma_kept_push(s.drop_first(), p, current_era, unbonding_delay);
        if !spec_matured(p, current_era, unbonding_delay) && !spec_matured(
            s[0],
            current_era,
            unbonding_delay,
        ) {
            assert(spec_kept_unbonds(s.push(p), current_era, unbonding_delay)
                =~= spec_kept_unbonds(s, current_era, unbonding_delay).push(p));
        }
    }
}

/// No kept entry has matured.
pub proof fn lemma_kept_not_matured(s: Seq<UnbondingPurse>, current_era: u64, unbonding_delay: u64)
    ensures
        forall|j: int|
            0 <= j < spec_kept_unbonds(s, current_era, unbonding_delay).len() ==> !spec_matured(
                #[trigger] spec_kept_unbonds(s, current_era, unbonding_delay)[j],
                current_era,
                unbonding_delay,
            ),
    decreases s.len(),
{
    if s.len() > 0 {
        lemma_kept_not_matured(s.drop_first(), current_era, unbonding_delay);
        let rest = spec_kept_unbonds(s.drop_first(), current_era, unbonding_delay);
        if !spec_matured(s[0], current_era, unbonding_delay) {
            let whole = spec_kept_unbonds(s, current_era, unbonding_delay);
            assert forall|j: int| 0 <= j < whole.len() implies !spec_matured(
                #[trigger] whole[j],
                current_era,
                unbonding_delay,
            ) by {
                if j == 0 {
                    assert(whole[0] == s[0]);
                } else {
                    assert(whole[j] == rest[j - 1]);
                }
            }
        }
    }
}

/// Whether no unbonding entry at all has matured: the processor then has
/// nothing to pay out, re-stake or prune.
pub open spec fn spec_no_matured(st: Store, current_era: u64, unbonding_delay: u64) -> bool {
    forall|a: AccountHash, j: int|
        0 <= j < st.spec_unbonds(a).len() ==> !spec_matured(
            #[trigger] st.spec_unbonds(a)[j],
            current_era,
            unbonding_delay,
        )
}

/// Whether some unbonding entry that matures at the current era points
/// at `pk`: the processor then revisits `pk` for pruning.
pub open spec fn spec_processed_validator(
    st: Store,
    current_era: u64,
    unbonding_delay: u64,
    pk: PublicKey,
) -> bool {
    exists|a: AccountHash, j: int|
        0 <= j < st.spec_unbonds(a).len() && spec_matured(
            #[trigger] st.spec_unbonds(a)[j],
            current_era,
            unbonding_delay,
        ) && st.spec_unbonds(a)[j].validator_public_key == pk
}

/// Whether some unbonding entry of `d` has not matured yet: its bids are
/// then kept out of pruning.
pub open spec fn spec_still_unbonding(
    st: Store,
    current_era: u64,
    unbonding_delay: u64,
    d: PublicKey,
) -> bool {
    exists|a: AccountHash, j: int|
        0 <= j < st.spec_unbonds(a).len() && !spec_matured(
            #[trigger] st.spec_unbonds(a)[j],
            current_era,
            unbonding_delay,
        ) && st.spec_unbonds(a)[j].unbonder_public_key == d
}

/// Whether every revisited validator's address holds its own record, with
/// no bridge hop in between.
pub open spec fn spec_all_processed_direct(st: Store, current_era: u64, unbonding_delay: u64) -> bool {
    forall|pk: PublicKey|
        #![trigger spec_processed_validator(st, current_era, unbonding_delay, pk)]
        spec_processed_validator(st, current_era, unbonding_delay, pk) ==> (st.spec_bid(
            BidAddr::Validator(pk),
        ) matches Some(BidKind::Validator(_)))
}

/// The pruning law of one revisited validator, relating the states before
/// and after processing: its bid survives exactly as long as stake, a
/// surviving delegator, or a pending unbond holds it.
pub open spec fn spec_prune_law(
    pre: Store,
    post: Store,
    current_era: u64,
    unbonding_delay: u64,
    pk: PublicKey,
) -> bool {
    let b = pre.spec_bid(BidAddr::Validator(pk))->Some_0->Validator_0;
    let gone = b.staked_amount == 0 && !spec_still_unbonding(pre, current_era, unbonding_delay, pk)
        && (forall|d: PublicKey|
        (#[trigger] post.spec_bid(BidAddr::Delegator(pk, d))) is None);
    (post.spec_bid(BidAddr::Validator(pk)) == Some(
        BidKind::Validator(b),
    ) && !gone) || (post.spec_bid(BidAddr::Validator(pk)) is None && gone)
}

/// Whether no matured entry asks for redelegation: maturation then only
/// pays withdrawals out and never touches a bid record.
pub open spec fn spec_no_matured_redelegations(
    st: Store,
    current_era: u64,
    unbonding_delay: u64,
) -> bool {
    forall|a: AccountHash, j: int|
        0 <= j < st.spec_unbonds(a).len() && spec_matured(
            #[trigger] st.spec_unbonds(a)[j],
            current_era,
            unbonding_delay,
        ) ==> st.spec_unbonds(a)[j].new_validator is None
}

/// The per-delegator pruning rule of one revisited validator, relating
/// the states before and after processing: a delegator bid goes exactly
/// when it has no stake and its key has no entry still unbonding.
pub open spec fn spec_delegator_prune_rule(
    pre: Store,
    post: Store,
    current_era: u64,
    unbonding_delay: u64,
    pk: PublicKey,
) -> bool {
    forall|d: PublicKey| #![trigger post.spec_bid(BidAddr::Delegator(pk, d))]
        post.spec_bid(BidAddr::Delegator(pk, d)) == (match pre.spec_bid(
            BidAddr::Delegator(pk, d),
        ) {
            Some(BidKind::Delegator(db)) => if db.staked_amount == 0 && !spec_still_unbonding(
                pre,
                current_era,
                unbonding_delay,
                d,
            ) {
                None
            } else {
                Some(BidKind::Delegator(db))
            },
            other => other,
        })
}

/// The per-delegator pruning rule keyed by a list of still-unbonding
/// keys: a delegator bid of `pk` goes exactly when it has no stake and
/// its key is not in the list.
pub open spec fn spec_delegator_prune_rule_by_keys(
    pre: Store,
    post: Store,
    still_unbonding: Seq<PublicKey>,
    pk: PublicKey,
) -> bool {
    forall|d: PublicKey| #![trigger post.spec_bid(BidAddr::Delegator(pk, d))]
        post.spec_bid(BidAddr::Delegator(pk, d)) == (match pre.spec_bid(
            BidAddr::Delegator(pk, d),
        ) {
            Some(BidKind::Delegator(db)) => if db.staked_amount == 0 && !still_unbonding.contains(
                d,
            ) {
                None
            } else {
                Some(BidKind::Delegator(db))
            },
            other => other,
        })
}

/// Whether exactly one entry has matured, it sits at `(a0, j0)`, and it
/// is a plain withdrawal.
pub open spec fn spec_single_matured_withdrawal(
    st: Store,
    current_era: u64,
    unbonding_delay: u64,
    a0: AccountHash,
    j0: int,
) -> bool {
    &&& 0 <= j0 < st.spec_unbonds(a0).len()
    &&& spec_matured(st.spec_unbonds(a0)[j0], current_era, unbonding_delay)
    &&& st.spec_unbonds(a0)[j0].new_validator is None
    &&& (forall|a: AccountHash, j: int|
        0 <= j < st.spec_unbonds(a).len() && spec_matured(
            #[trigger] st.spec_unbonds(a)[j],
            current_era,
            unbonding_delay,
        ) ==> a == a0 && j == j0)
}

/// Transfer outcome and effect depend only on the purse ledger.
proof fn lemma_transfer_specs_same(
    pre1: Store,
    pre2: Store,
    source: URef,
    target: URef,
    amount: u128,
)
    requires
        pre1.balances == pre2.balances,
    ensures
        spec_transfer_err(pre1, source, target, amount) == spec_transfer_err(
            pre2,
            source,
            target,
            amount,
        ),
        forall|u2: URef| #![all_triggers]
            spec_transfer_balance(pre1, source, target, amount, u2) == spec_transfer_balance(
                pre2,
                source,
                target,
                amount,
                u2,
            ),
{
}

/// Whether `post` shows exactly the payout of one matured withdrawal on
/// `pre`: the amount moved from the entry's bonding purse to the
/// unbonder's main purse.
pub open spec fn spec_withdrawal_paid(pre: Store, post: Store, entry: UnbondingPurse) -> bool {
    let target = assoc_find(
        pre.main_purses@,
        entry.unbonder_public_key.account_hash().value,
    );
    &&& target is Some
    &&& (forall|u2: URef| #![trigger post.spec_balance(u2)]
        post.spec_balance(u2) == spec_transfer_balance(
            pre,
            entry.bonding_purse,
            target->Some_0,
            entry.amount,
            u2,
        ))
}

/// When no entry has matured, the kept list is the list itself.
pub proof fn lemma_kept_identity(s: Seq<UnbondingPurse>, current_era: u64, unbonding_delay: u64)
    requires
        forall|j: int|
            0 <= j < s.len() ==> !spec_matured(#[trigger] s[j], current_era, unbonding_delay),
    ensures
        spec_kept_unbonds(s, current_era, unbonding_delay) == s,
    decreases s.len(),
{
    if s.len() > 0 {
        assert(forall|j: int|
            0 <= j < s.drop_first().len() ==> #[trigger] s.drop_first()[j] == s[j + 1]);
        lemma_kept_identity(s.drop_first(), current_era, unbonding_delay);
        assert(spec_kept_unbonds(s, current_era, unbonding_delay) =~= s);
    }
}

/// Whether the pruning step removes this delegator record: no stake left
/// and no unbond of its key still pending.
pub open spec fn spec_prunable(d: Delegator, still_unbonding: Seq<PublicKey>) -> bool {
    d.staked_amount == 0 && !still_unbonding.contains(d.delegator_public_key)
}

/// How many records of a delegator list the pruning step keeps.
pub open spec fn count_kept(s: Seq<Delegator>, still_unbonding: Seq<PublicKey>) -> nat
    decreases s.len(),
{
    if s.len() == 0 {
        0
    } else {
        (if spec_prunable(s[0], still_unbonding) {
            0nat
        } else {
            1nat
        }) + count_kept(s.drop_first(), still_unbonding)
    }
}

/// Appending a record raises the kept count unless it is prunable.
pub proof fn lemma_count_kept_push(
    s: Seq<Delegator>,
    d: Delegator,
    still_unbonding: Seq<PublicKey>,
)
    ensures
        count_kept(s.push(d), still_unbonding) == count_kept(s, still_unbonding) + (
        if spec_prunable(d, still_unbonding) {
            0nat
        } else {
            1nat
        }),
    decreases s.len(),
{
    if s.len() == 0 {
        assert(s.push(d).drop_first() =~= s);
    } else {
        assert(s.push(d).drop_first() =~= s.drop_first().push(d));
        lemma_count_kept_push(s.drop_first(), d, still_unbonding);
    }
}

/// Nothing is kept exactly when every record is prunable.
pub proof fn lemma_count_kept_zero(s: Seq<Delegator>, still_unbonding: Seq<PublicKey>)
    ensures
        (count_kept(s, still_unbonding) == 0) <==> (forall|j: int|
            0 <= j < s.len() ==> spec_prunable(#[trigger] s[j], still_unbonding)),
    decreases s.len(),
{
    if s.len() > 0 {
        lemma_count_kept_zero(s.drop_first(), still_unbonding);
        assert(forall|j: int|
            0 <= j < s.drop_first().len() ==> #[trigger] s.drop_first()[j] == s[j + 1]);
        if count_kept(s, still_unbonding) == 0 {
            assert forall|j: int| 0 <= j < s.len() implies spec_prunable(
                #[trigger] s[j],
                still_unbonding,
            ) by {
                if j > 0 {
                    assert(s.drop_first()[j - 1] == s[j]);
                }
            }
        }
    }
}

/// Whether a key list holds `pk`.
fn pk_list_contains(list: &Vec<PublicKey>, pk: &PublicKey) -> (r: bool)
    ensures
        r == list@.contains(*pk),
{
    let mut i: usize = 0;
    while i < list.len()
        invariant
            i <= list@.len(),
            forall|j: int| 0 <= j < i ==> list@[j] != *pk,
        decreases list@.len() - i,
    {
        if list[i] == *pk {
            return true;
        }
        i = i + 1;
    }
    false
}

/// What outcome a maturation comes to, given how the embedded delegation
/// went: the four delegation rejections map to redelegation fallbacks and
/// the funds are withdrawn instead; any other error is fatal.
pub open spec fn spec_redelegation_outcome(dr: Result<u128, Error>) -> Result<
    UnbondRedelegationOutcome,
    Error,
> {
    match dr {
        Ok(_) => Ok(UnbondRedelegationOutcome::SuccessfullyRedelegated),
        Err(Error::BondTooSmall) => Ok(UnbondRedelegationOutcome::RedelegationTargetIsUnstaked),
        Err(Error::DelegationAmountTooSmall) => Ok(
            UnbondRedelegationOutcome::DelegationAmountBelowCap,
        ),
        Err(Error::ValidatorNotFound) => Ok(
            UnbondRedelegationOutcome::NonexistantRedelegationTarget,
        ),
        Err(Error::ExceededDelegatorSizeLimit) => Ok(
            UnbondRedelegationOutcome::RedelegationTargetHasNoVacancy,
        ),
        Err(e) => Err(e),
    }
}

/// Matures one unbonding entry: an entry without a redelegation target is
/// a withdrawal; otherwise the target is resolved through bridge records
/// and the funds are re-staked with it, falling back to a withdrawal
/// outcome when the target is gone, unstaked, full, or under its minimum.
pub fn handle_redelegation(
    store: &mut Store,
    unbonding_purse: &UnbondingPurse,
    max_delegators_per_validator: u32,
    minimum_delegation_amount: u64,
) -> (r: Result<UnbondRedelegationOutcome, Error>)
    requires
        old(store).wf(),
    ensures
        final(store).wf(),
        old(store).delegators_backed() ==> final(store).delegators_backed(),
        forall|a2: BidAddr| #![trigger final(store).spec_bid(a2)]
            !(a2 is Delegator) ==> final(store).spec_bid(a2) == old(store).spec_bid(a2),
        forall|acct: AccountHash| #![trigger final(store).spec_unbonds(acct)]
            final(store).spec_unbonds(acct) == old(store).spec_unbonds(acct),
        *final(store) == (Store {
            bids: final(store).bids,
            balances: final(store).balances,
            next_purse: final(store).next_purse,
            ..*old(store)
        }),
        (match unbonding_purse.new_validator {
            None => r == Ok::<UnbondRedelegationOutcome, Error>(
                UnbondRedelegationOutcome::Withdrawal,
            ) && *final(store) == *old(store),
            Some(target) => match spec_read_current_validator_bid(
                old(store).bids@,
                BidAddr::Validator(target),
                MAX_BRIDGE_CHAIN_LENGTH as nat,
            ) {
                Err(_) => r == Ok::<UnbondRedelegationOutcome, Error>(
                    UnbondRedelegationOutcome::NonexistantRedelegationTarget,
                ) && *final(store) == *old(store),
                Ok(bid) => {
                    &&& r == spec_redelegation_outcome(
                        spec_delegation_result(
                            *old(store),
                            unbonding_purse.unbonder_public_key,
                            bid.validator_public_key,
                            unbonding_purse.bonding_purse,
                            unbonding_purse.amount,
                            max_delegators_per_validator,
                            minimum_delegation_amount,
                        ),
                    )
                    &&& spec_delegation_result(
                        *old(store),
                        unbonding_purse.unbonder_public_key,
                        bid.validator_public_key,
                        unbonding_purse.bonding_purse,
                        unbonding_purse.amount,
                        max_delegators_per_validator,
                        minimum_delegation_amount,
                    ) is Ok ==> spec_delegation_applied(
                        *old(store),
                        *final(store),
                        unbonding_purse.unbonder_public_key,
                        bid.validator_public_key,
                        unbonding_purse.bonding_purse,
                        unbonding_purse.amount,
                    )
                    &&& spec_delegation_result(
                        *old(store),
                        unbonding_purse.unbonder_public_key,
                        bid.validator_public_key,
                        unbonding_purse.bonding_purse,
                        unbonding_purse.amount,
                        max_delegators_per_validator,
                        minimum_delegation_amount,
                    ) is Err ==> *final(store) == *old(store)
                },
            },
        }),
{
    let redelegation_target_public_key: PublicKey = match &unbonding_purse.new_validator {
        Some(public_key) => {
            // Pick up the current key in case the target validator's
            // public key was rotated since the unbond was queued.
            match read_current_validator_bid(store, BidAddr::Validator(*public_key)) {
                Ok(validator_bid) => validator_bid.validator_public_key,
                Err(_) => {
                    return Ok(UnbondRedelegationOutcome::NonexistantRedelegationTarget);
                },
            }
        },
        None => {
            return Ok(UnbondRedelegationOutcome::Withdrawal);
        },
    };
    match handle_delegation(
        store,
        unbonding_purse.unbonder_public_key,
        redelegation_target_public_key,
        unbonding_purse.bonding_purse,
        unbonding_purse.amount,
        max_delegators_per_validator,
        minimum_delegation_amount,
    ) {
        Ok(_) => Ok(UnbondRedelegationOutcome::SuccessfullyRedelegated),
        Err(Error::BondTooSmall) => Ok(UnbondRedelegationOutcome::RedelegationTargetIsUnstaked),
        Err(Error::DelegationAmountTooSmall) => Ok(
            UnbondRedelegationOutcome::DelegationAmountBelowCap,
        ),
        Err(Error::ValidatorNotFound) => Ok(
            UnbondRedelegationOutcome::NonexistantRedelegationTarget,
        ),
        Err(Error::ExceededDelegatorSizeLimit) => Ok(
            UnbondRedelegationOutcome::RedelegationTargetHasNoVacancy,
        ),
        Err(e) => Err(e),
    }
}

/// Pays a matured withdrawal out: moves the entry's amount from its
/// bonding purse to the unbonder's main purse.
fn unbond_transfer(store: &mut Store, unbonding_purse: &UnbondingPurse) -> (r: Result<(), Error>)
    requires
        old(store).wf(),
    ensures
        final(store).wf(),
        *final(store) == (Store { balances: final(store).balances, ..*old(store) }),
        (match assoc_find(
            old(store).main_purses@,
            unbonding_purse.unbonder_public_key.account_hash().value,
        ) {
            None => r == Err::<(), Error>(Error::MintDestinationNotFound) && *final(store) == *old(
                store,
            ),
            Some(target) => match spec_transfer_err(
                *old(store),
                unbonding_purse.bonding_purse,
                target,
                unbonding_purse.amount,
            ) {
                Some(e) => r == Err::<(), Error>(e) && *final(store) == *old(store),
                None => r == Ok::<(), Error>(()) && (forall|u2: URef|
                    #![trigger final(store).spec_balance(u2)]
                    final(store).spec_balance(u2) == spec_transfer_balance(
                        *old(store),
                        unbonding_purse.bonding_purse,
                        target,
                        unbonding_purse.amount,
                        u2,
                    )),
            },
        }),
{
    let account = unbonding_purse.unbonder_public_key.to_account_hash();
    let target: URef = match store.main_purse_of(account) {
        Some(u) => u,
        None => {
            return Err(Error::MintDestinationNotFound);
        },
    };
    store.mint_transfer_direct(unbonding_purse.bonding_purse, target, unbonding_purse.amount)
}

/// After some of a validator's unbonds were processed, prunes what they
/// left empty: every delegator record of the validator's current identity
/// with no stake and no still-pending unbond, and then the validator's
/// record itself when its stake is zero, it has no still-pending unbond,
/// and no delegator record remains. A validator record thus survives
/// exactly as long as stake, a delegator, or a pending unbond holds it.
#[verifier::rlimit(100)]
pub fn prune_processed_validator(
    store: &mut Store,
    validator_public_key: PublicKey,
    still_unbonding: &Vec<PublicKey>,
) -> (r: Result<(), Error>)
    requires
        old(store).wf(),
    ensures
        final(store).wf(),
        old(store).delegators_backed() ==> final(store).delegators_backed(),
        forall|acct: AccountHash| #![trigger final(store).spec_unbonds(acct)]
            final(store).spec_unbonds(acct) == old(store).spec_unbonds(acct),
        *final(store) == (Store { bids: final(store).bids, ..*old(store) }),
        (match spec_read_current_validator_bid(
            old(store).bids@,
            BidAddr::Validator(validator_public_key),
            MAX_BRIDGE_CHAIN_LENGTH as nat,
        ) {
            Err(e) => r == Err::<(), Error>(e) && *final(store) == *old(store),
            Ok(bid) => {
                &&& r == Ok::<(), Error>(())
                &&& (forall|a2: BidAddr| #![trigger final(store).spec_bid(a2)]
                    a2 != BidAddr::Validator(validator_public_key) && !a2.is_delegator_of(
                        bid.validator_public_key,
                    ) ==> final(store).spec_bid(a2) == old(store).spec_bid(a2))
                // The per-delegator rule over the resolved validator, and
                // the survival of the queried address, hold whether or
                // not the walk crossed a bridge record.
                &&& spec_delegator_prune_rule_by_keys(
                    *old(store),
                    *final(store),
                    still_unbonding@,
                    bid.validator_public_key,
                )
                &&& final(store).spec_bid(BidAddr::Validator(validator_public_key)) == (
                if bid.staked_amount == 0 && !still_unbonding@.contains(bid.validator_public_key)
                    && (forall|d: PublicKey|
                    (#[trigger] final(store).spec_bid(
                        BidAddr::Delegator(bid.validator_public_key, d),
                    )) is None) {
                    None
                } else {
                    old(store).spec_bid(BidAddr::Validator(validator_public_key))
                })
            },
        }),
        // The pruning law, for a validator whose address holds its record:
        // each of its delegators survives iff it has stake or a pending
        // unbond, and the validator bid itself survives iff it has stake,
        // a pending unbond, or a surviving delegator.
        (match old(store).spec_bid(BidAddr::Validator(validator_public_key)) {
            Some(BidKind::Validator(b)) => {
                &&& (forall|d: PublicKey|
                    #![trigger final(store).spec_bid(BidAddr::Delegator(validator_public_key, d))]
                    final(store).spec_bid(BidAddr::Delegator(validator_public_key, d)) == (
                    match old(store).spec_bid(BidAddr::Delegator(validator_public_key, d)) {
                        Some(BidKind::Delegator(db)) => if db.staked_amount == 0
                            && !still_unbonding@.contains(d) {
                            None
                        } else {
                            Some(BidKind::Delegator(db))
                        },
                        other => other,
                    }))
                &&& ((final(store).spec_bid(BidAddr::Validator(validator_public_key)) == Some(
                    BidKind::Validator(b),
                ) && !(b.staked_amount == 0 && !still_unbonding@.contains(validator_public_key)
                    && (forall|d: PublicKey|
                    (#[trigger] final(store).spec_bid(
                        BidAddr::Delegator(validator_public_key, d),
                    )) is None))) || (final(store).spec_bid(
                    BidAddr::Validator(validator_public_key),
                ) is None && b.staked_amount == 0 && !still_unbonding@.contains(
                    validator_public_key,
                ) && (forall|d: PublicKey|
                    (#[trigger] final(store).spec_bid(
                        BidAddr::Delegator(validator_public_key, d),
                    )) is None)))
            },
            _ => true,
        }),
{
    let validator_bid = match read_current_validator_bid(
        store,
        BidAddr::Validator(validator_public_key),
    ) {
        Ok(b) => b,
        Err(e) => {
            return Err(e);
        },
    };
    let current: PublicKey = validator_bid.validator_public_key;
    let delegators = store.delegator_bids_of(&current);
    let ghost dlist = delegators@;
    proof {
        crate::store::lemma_records_distinct(old(store).bids@, current);
        assert forall|k: int| 0 <= k < dlist.len() implies assoc_find(
            old(store).bids@,
            BidAddr::Delegator(current, (#[trigger] dlist[k]).delegator_public_key),
        ) == Some(BidKind::Delegator(dlist[k])) by {
            crate::store::lemma_record_to_find(old(store).bids@, current, k);
        }
    }
    let mut remaining: usize = 0;
    let mut i: usize = 0;
    while i < delegators.len()
        invariant
            store.wf(),
            old(store).wf(),
            i <= dlist.len(),
            delegators@ == dlist,
            dlist == delegator_records_of(old(store).bids@, current),
            forall|k1: int, k2: int|
                0 <= k1 < k2 < dlist.len() ==> (#[trigger] dlist[k1]).delegator_public_key != (
                #[trigger] dlist[k2]).delegator_public_key,
            forall|k: int|
                0 <= k < dlist.len() ==> assoc_find(
                    old(store).bids@,
                    BidAddr::Delegator(current, (#[trigger] dlist[k]).delegator_public_key),
                ) == Some(BidKind::Delegator(dlist[k])),
            remaining == count_kept(dlist.take(i as int), still_unbonding@),
            remaining <= i,
            forall|k: int|
                0 <= k < i ==> store.spec_bid(
                    BidAddr::Delegator(current, (#[trigger] dlist[k]).delegator_public_key),
                ) == (if spec_prunable(dlist[k], still_unbonding@) {
                    None
                } else {
                    Some(BidKind::Delegator(dlist[k]))
                }),
            forall|a2: BidAddr| #![trigger store.spec_bid(a2)]
                (forall|k: int|
                    0 <= k < i ==> a2 != BidAddr::Delegator(
                        current,
                        (#[trigger] dlist[k]).delegator_public_key,
                    )) ==> store.spec_bid(a2) == old(store).spec_bid(a2),
            old(store).delegators_backed() ==> store.delegators_backed(),
            *store == (Store { bids: store.bids, ..*old(store) }),
        decreases dlist.len() - i,
    {
        let delegator: Delegator = delegators[i];
        proof {
            assert(dlist.take(i + 1 as int) =~= dlist.take(i as int).push(dlist[i as int]));
            lemma_count_kept_push(dlist.take(i as int), dlist[i as int], still_unbonding@);
        }
        let keep_for_unbond: bool = pk_list_contains(
            still_unbonding,
            &delegator.delegator_public_key,
        );
        if delegator.staked_amount == 0 && !keep_for_unbond {
            let ghost mid = *store;
            store.prune_bid(BidAddr::Delegator(current, delegator.delegator_public_key));
            proof {
                if old(store).delegators_backed() {
                    assert(mid.delegators_backed());
                    assert forall|v: PublicKey, d: PublicKey|
                        (#[trigger] assoc_find(store.bids@, BidAddr::Delegator(v, d)))
                            is Some implies (assoc_find(store.bids@, BidAddr::Validator(v))
                        matches Some(BidKind::Validator(_))) by {
                        assert(store.spec_bid(BidAddr::Delegator(v, d)) == mid.spec_bid(
                            BidAddr::Delegator(v, d),
                        ) || store.spec_bid(BidAddr::Delegator(v, d)) is None);
                        assert(store.spec_bid(BidAddr::Validator(v)) == mid.spec_bid(
                            BidAddr::Validator(v),
                        ));
                    }
                }
            }
        } else {
            remaining = remaining + 1;
        }
        i = i + 1;
    }
    proof {
        assert(dlist.take(dlist.len() as int) =~= dlist);
        lemma_count_kept_zero(dlist, still_unbonding@);
    }
    let prune_validator: bool = remaining == 0 && validator_bid.staked_amount == 0
        && !pk_list_contains(still_unbonding, &current);
    let ghost mid = *store;
    if prune_validator {
        store.prune_bid(BidAddr::Validator(validator_public_key));
        proof {
            if old(store).delegators_backed() {
                assert(mid.delegators_backed());
                assert forall|v: PublicKey, d: PublicKey|
                    (#[trigger] assoc_find(store.bids@, BidAddr::Delegator(v, d)))
                        is Some implies (assoc_find(store.bids@, BidAddr::Validator(v)) matches Some(
                    BidKind::Validator(_),
                )) by {
                    assert(store.spec_bid(BidAddr::Delegator(v, d)) == mid.spec_bid(
                        BidAddr::Delegator(v, d),
                    ));
                    if v == validator_public_key {
                        assert(mid.spec_bid(BidAddr::Validator(validator_public_key)) == old(
                            store,
                        ).spec_bid(BidAddr::Validator(validator_public_key)));
                        if old(store).spec_bid(BidAddr::Validator(validator_public_key)) matches
                            Some(BidKind::Validator(vb)) {
                            crate::store::lemma_find_implies_agree(
                                old(store).bids@,
                                BidAddr::Validator(validator_public_key),
                            );
                            assert(current == validator_public_key);
                        }
                        lemma_no_delegators_when_pruned(
                            *old(store),
                            mid,
                            current,
                            validator_public_key,
                            dlist,
                            still_unbonding@,
                            d,
                        );
                    } else {
                        assert(store.spec_bid(BidAddr::Validator(v)) == mid.spec_bid(
                            BidAddr::Validator(v),
                        ));
                    }
                }
            }
        }
    }
    proof {
        match old(store).spec_bid(BidAddr::Validator(validator_public_key)) {
            Some(BidKind::Validator(vb)) => {
                crate::store::lemma_find_implies_agree(
                    old(store).bids@,
                    BidAddr::Validator(validator_public_key),
                );
                assert(validator_bid == vb);
            },
            _ => {},
        }
        lemma_prune_law(
            *old(store),
            mid,
            *store,
            validator_public_key,
            current,
            dlist,
            still_unbonding@,
            prune_validator,
            validator_bid.staked_amount == 0,
        );
        lemma_prune_law_resolved(
            *old(store),
            mid,
            *store,
            validator_public_key,
            current,
            dlist,
            still_unbonding@,
            prune_validator,
            validator_bid.staked_amount == 0,
        );
    }
    Ok(())
}

/// Lookup in the written-back unbond lists yields the kept entries of
/// the corresponding original list.
proof fn lemma_find_kept(
    olds: Seq<(u64, Vec<UnbondingPurse>)>,
    news: Seq<(u64, Vec<UnbondingPurse>)>,
    key: u64,
    current_era: u64,
    unbonding_delay: u64,
)
    requires
        olds.len() == news.len(),
        forall|k: int| #![all_triggers]
            0 <= k < olds.len() ==> news[k].0 == olds[k].0 && news[k].1@ == spec_kept_unbonds(
                olds[k].1@,
                current_era,
                unbonding_delay,
            ),
    ensures
        (match (assoc_find(olds, key), assoc_find(news, key)) {
            (Some(ol), Some(nl)) => nl@ == spec_kept_unbonds(ol@, current_era, unbonding_delay),
            (None, None) => true,
            _ => false,
        }),
    decreases olds.len(),
{
    if olds.len() > 0 {
        assert(forall|k: int| #![all_triggers]
            0 <= k < olds.drop_first().len() ==> olds.drop_first()[k] == olds[k + 1]
                && news.drop_first()[k] == news[k + 1]);
        if olds[0].0 != key {
            lemma_find_kept(
                olds.drop_first(),
                news.drop_first(),
                key,
                current_era,
                unbonding_delay,
            );
        }
    }
}

/// Processes every account's unbonding entries: a system-only operation.
/// Entries whose era has come are matured — paid out to the unbonder's
/// main purse, or re-staked when the entry asks for redelegation — and
/// dropped from the lists; younger entries stay. Validators whose unbonds
/// were processed are then pruned if nothing holds their bid any more.
pub fn process_unbond_requests(
    store: &mut Store,
    max_delegators_per_validator: u32,
    minimum_delegation_amount: u64,
) -> (r: Result<(), Error>)
    requires
        old(store).wf(),
    ensures
        final(store).wf(),
        old(store).delegators_backed() ==> final(store).delegators_backed(),
        old(store).caller != (PublicKey { id: SYSTEM_KEY_ID }).account_hash() ==> r == Err::<
            (),
            Error,
        >(Error::InvalidCaller) && *final(store) == *old(store),
        old(store).caller == (PublicKey { id: SYSTEM_KEY_ID }).account_hash() ==> (
        match named_read(old(store).era_id) {
            Err(e) => r == Err::<(), Error>(e) && *final(store) == *old(store),
            Ok(current_era) => match named_read(old(store).unbonding_delay) {
                Err(e) => r == Err::<(), Error>(e) && *final(store) == *old(store),
                Ok(unbonding_delay) => {
                    &&& spec_no_matured(*old(store), current_era, unbonding_delay) ==> {
                        &&& r is Ok
                        &&& (forall|a2: BidAddr| #![trigger final(store).spec_bid(a2)]
                            final(store).spec_bid(a2) == old(store).spec_bid(a2))
                        &&& (forall|u2: URef| #![trigger final(store).spec_balance(u2)]
                            final(store).spec_balance(u2) == old(store).spec_balance(u2))
                        &&& (forall|a: AccountHash| #![trigger final(store).spec_unbonds(a)]
                            final(store).spec_unbonds(a) == old(store).spec_unbonds(a))
                    }
                    &&& (r is Ok && spec_all_processed_direct(
                        *old(store),
                        current_era,
                        unbonding_delay,
                    ) && spec_no_matured_redelegations(*old(store), current_era, unbonding_delay))
                        ==> (forall|pk: PublicKey|
                        #![trigger spec_processed_validator(*old(store), current_era, unbonding_delay, pk)]
                        spec_processed_validator(*old(store), current_era, unbonding_delay, pk)
                            ==> spec_delegator_prune_rule(
                            *old(store),
                            *final(store),
                            current_era,
                            unbonding_delay,
                            pk,
                        ))
                    &&& (forall|a0: AccountHash, j0: int|
                        #![trigger spec_single_matured_withdrawal(*old(store), current_era, unbonding_delay, a0, j0)]
                        spec_single_matured_withdrawal(
                            *old(store),
                            current_era,
                            unbonding_delay,
                            a0,
                            j0,
                        ) ==> {
                            let entry = old(store).spec_unbonds(a0)[j0];
                            let target = assoc_find(
                                old(store).main_purses@,
                                entry.unbonder_public_key.account_hash().value,
                            );
                            &&& (spec_all_processed_direct(
                                *old(store),
                                current_era,
                                unbonding_delay,
                            ) && target is Some && spec_transfer_err(
                                *old(store),
                                entry.bonding_purse,
                                target->Some_0,
                                entry.amount,
                            ) is None) ==> r is Ok
                            &&& r is Ok ==> spec_withdrawal_paid(
                                *old(store),
                                *final(store),
                                entry,
                            )
                        })
                    &&& (r is Ok && spec_all_processed_direct(
                        *old(store),
                        current_era,
                        unbonding_delay,
                    )) ==> (forall|pk: PublicKey|
                        #![trigger spec_processed_validator(*old(store), current_era, unbonding_delay, pk)]
                        spec_processed_validator(*old(store), current_era, unbonding_delay, pk)
                            ==> spec_prune_law(
                            *old(store),
                            *final(store),
                            current_era,
                            unbonding_delay,
                            pk,
                        ))
                    &&& r is Ok ==> {
                        &&& (forall|a: AccountHash| #![trigger final(store).spec_unbonds(a)]
                            final(store).spec_unbonds(a) == spec_kept_unbonds(
                                old(store).spec_unbonds(a),
                                current_era,
                                unbonding_delay,
                            ))
                        &&& (forall|a: AccountHash, j: int|
                            0 <= j < final(store).spec_unbonds(a).len() ==> !spec_matured(
                                #[trigger] final(store).spec_unbonds(a)[j],
                                current_era,
                                unbonding_delay,
                            ))
                    }
                },
            },
        }),
{
    if store.get_caller() != PublicKey::system().to_account_hash() {
        return Err(Error::InvalidCaller);
    }
    let snapshot = get_unbonding_purses(store);
    let current_era: u64 = match get_era_id(store) {
        Ok(e) => e,
        Err(e) => {
            return Err(e);
        },
    };
    let unbonding_delay: u64 = match get_unbonding_delay(store) {
        Ok(d) => d,
        Err(e) => {
            return Err(e);
        },
    };
    let ghost single: Option<(AccountHash, int)> = if exists|a0: AccountHash, j0: int|
        spec_single_matured_withdrawal(*old(store), current_era, unbonding_delay, a0, j0) {
        Some(
            choose|a0: AccountHash, j0: int|
                spec_single_matured_withdrawal(
                    *old(store),
                    current_era,
                    unbonding_delay,
                    a0,
                    j0,
                ),
        )
    } else {
        None
    };
    let mut new_lists: Vec<(u64, Vec<UnbondingPurse>)> = Vec::new();
    let mut processed_validators: Vec<PublicKey> = Vec::new();
    let mut still_unbonding_public_keys: Vec<PublicKey> = Vec::new();
    let mut ai: usize = 0;
    while ai < snapshot.len()
        invariant
            old(store).wf(),
            store.wf(),
            old(store).delegators_backed() ==> store.delegators_backed(),
            ai <= snapshot@.len(),
            snapshot@.len() == old(store).unbonds@.len(),
            forall|k: int| #![all_triggers]
                0 <= k < snapshot@.len() ==> snapshot@[k].0 == old(store).unbonds@[k].0
                    && snapshot@[k].1@ == old(store).unbonds@[k].1@,
            new_lists@.len() == ai,
            forall|k: int| #![all_triggers]
                0 <= k < ai ==> new_lists@[k].0 == snapshot@[k].0 && new_lists@[k].1@
                    == spec_kept_unbonds(snapshot@[k].1@, current_era, unbonding_delay),
            forall|acct: AccountHash| #![trigger store.spec_unbonds(acct)]
                store.spec_unbonds(acct) == old(store).spec_unbonds(acct),
            forall|a2: BidAddr| #![trigger store.spec_bid(a2)]
                !(a2 is Delegator) ==> store.spec_bid(a2) == old(store).spec_bid(a2),
            *store == (Store {
                bids: store.bids,
                balances: store.balances,
                next_purse: store.next_purse,
                ..*old(store)
            }),
            named_read(old(store).era_id) == Ok::<u64, Error>(current_era),
            named_read(old(store).unbonding_delay) == Ok::<u64, Error>(unbonding_delay),
            old(store).caller == (PublicKey { id: SYSTEM_KEY_ID }).account_hash(),
            spec_no_matured(*old(store), current_era, unbonding_delay)
                ==> processed_validators@.len() == 0,
            spec_no_matured_redelegations(*old(store), current_era, unbonding_delay)
                ==> store.bids == old(store).bids,
            spec_no_matured(*old(store), current_era, unbonding_delay) ==> store.balances == old(
                store,
            ).balances,
            (match single {
                None => !(exists|a0: AccountHash, j0: int|
                    spec_single_matured_withdrawal(
                        *old(store),
                        current_era,
                        unbonding_delay,
                        a0,
                        j0,
                    )),
                Some((a0, j0)) => {
                    &&& spec_single_matured_withdrawal(
                        *old(store),
                        current_era,
                        unbonding_delay,
                        a0,
                        j0,
                    )
                    &&& ((exists|k0: int|
                        0 <= k0 < ai && (#[trigger] old(store).unbonds@[k0]).0 == a0.value)
                        ==> spec_withdrawal_paid(
                        *old(store),
                        *store,
                        old(store).spec_unbonds(a0)[j0],
                    ))
                    &&& ((forall|k0: int|
                        0 <= k0 < ai ==> (#[trigger] old(store).unbonds@[k0]).0 != a0.value)
                        ==> store.balances == old(store).balances)
                },
            }),
            forall|m: int|
                0 <= m < processed_validators@.len() ==> spec_processed_validator(
                    *old(store),
                    current_era,
                    unbonding_delay,
                    #[trigger] processed_validators@[m],
                ),
            forall|m1: int, m2: int|
                0 <= m1 < m2 < processed_validators@.len() ==> #[trigger] processed_validators@[m1]
                    != #[trigger] processed_validators@[m2],
            forall|m: int|
                0 <= m < still_unbonding_public_keys@.len() ==> spec_still_unbonding(
                    *old(store),
                    current_era,
                    unbonding_delay,
                    #[trigger] still_unbonding_public_keys@[m],
                ),
            forall|k: int, j2: int| #![all_triggers]
                0 <= k < ai && 0 <= j2 < snapshot@[k].1@.len() ==> {
                    &&& (spec_matured(snapshot@[k].1@[j2], current_era, unbonding_delay)
                        ==> processed_validators@.contains(
                        snapshot@[k].1@[j2].validator_public_key,
                    ))
                    &&& (!spec_matured(snapshot@[k].1@[j2], current_era, unbonding_delay)
                        ==> still_unbonding_public_keys@.contains(
                        snapshot@[k].1@[j2].unbonder_public_key,
                    ))
                },
        decreases snapshot@.len() - ai,
    {
        let account: u64 = snapshot[ai].0;
        let mut new_list: Vec<UnbondingPurse> = Vec::new();
        let mut j: usize = 0;
        while j < snapshot[ai].1.len()
            invariant
                old(store).wf(),
                store.wf(),
                old(store).delegators_backed() ==> store.delegators_backed(),
                ai < snapshot@.len(),
                j <= snapshot@[ai as int].1@.len(),
                new_list@ == spec_kept_unbonds(
                    snapshot@[ai as int].1@.take(j as int),
                    current_era,
                    unbonding_delay,
                ),
                forall|acct: AccountHash| #![trigger store.spec_unbonds(acct)]
                    store.spec_unbonds(acct) == old(store).spec_unbonds(acct),
                forall|a2: BidAddr| #![trigger store.spec_bid(a2)]
                    !(a2 is Delegator) ==> store.spec_bid(a2) == old(store).spec_bid(a2),
                *store == (Store {
                    bids: store.bids,
                    balances: store.balances,
                    next_purse: store.next_purse,
                    ..*old(store)
                }),
                named_read(old(store).era_id) == Ok::<u64, Error>(current_era),
                named_read(old(store).unbonding_delay) == Ok::<u64, Error>(unbonding_delay),
                old(store).caller == (PublicKey { id: SYSTEM_KEY_ID }).account_hash(),
                snapshot@.len() == old(store).unbonds@.len(),
                forall|k: int| #![all_triggers]
                    0 <= k < snapshot@.len() ==> snapshot@[k].0 == old(store).unbonds@[k].0
                        && snapshot@[k].1@ == old(store).unbonds@[k].1@,
                spec_no_matured(*old(store), current_era, unbonding_delay)
                    ==> processed_validators@.len() == 0,
                spec_no_matured_redelegations(*old(store), current_era, unbonding_delay)
                    ==> store.bids == old(store).bids,
                spec_no_matured(*old(store), current_era, unbonding_delay) ==> store.balances
                    == old(store).balances,
                (match single {
                    None => !(exists|a0: AccountHash, j0: int|
                        spec_single_matured_withdrawal(
                            *old(store),
                            current_era,
                            unbonding_delay,
                            a0,
                            j0,
                        )),
                    Some((a0, j0)) => {
                        &&& spec_single_matured_withdrawal(
                            *old(store),
                            current_era,
                            unbonding_delay,
                            a0,
                            j0,
                        )
                        &&& (((exists|k0: int|
                            0 <= k0 < ai && (#[trigger] old(store).unbonds@[k0]).0 == a0.value)
                            || (snapshot@[ai as int].0 == a0.value && j > j0))
                            ==> spec_withdrawal_paid(
                            *old(store),
                            *store,
                            old(store).spec_unbonds(a0)[j0],
                        ))
                        &&& (((forall|k0: int|
                            0 <= k0 < ai ==> (#[trigger] old(store).unbonds@[k0]).0 != a0.value)
                            && (snapshot@[ai as int].0 != a0.value || j <= j0))
                            ==> store.balances == old(store).balances)
                    },
                }),
                forall|m: int|
                    0 <= m < processed_validators@.len() ==> spec_processed_validator(
                        *old(store),
                        current_era,
                        unbonding_delay,
                        #[trigger] processed_validators@[m],
                    ),
                forall|m1: int, m2: int|
                    0 <= m1 < m2 < processed_validators@.len() ==> #[trigger]
                    processed_validators@[m1] != #[trigger] processed_validators@[m2],
                forall|m: int|
                    0 <= m < still_unbonding_public_keys@.len() ==> spec_still_unbonding(
                        *old(store),
                        current_era,
                        unbonding_delay,
                        #[trigger] still_unbonding_public_keys@[m],
                    ),
                forall|k: int, j2: int| #![all_triggers]
                    0 <= k < ai && 0 <= j2 < snapshot@[k].1@.len() ==> {
                        &&& (spec_matured(snapshot@[k].1@[j2], current_era, unbonding_delay)
                            ==> processed_validators@.contains(
                            snapshot@[k].1@[j2].validator_public_key,
                        ))
                        &&& (!spec_matured(snapshot@[k].1@[j2], current_era, unbonding_delay)
                            ==> still_unbonding_public_keys@.contains(
                            snapshot@[k].1@[j2].unbonder_public_key,
                        ))
                    },
                forall|j2: int| #![all_triggers]
                    0 <= j2 < j ==> {
                        &&& (spec_matured(
                            snapshot@[ai as int].1@[j2],
                            current_era,
                            unbonding_delay,
                        ) ==> processed_validators@.contains(
                            snapshot@[ai as int].1@[j2].validator_public_key,
                        ))
                        &&& (!spec_matured(
                            snapshot@[ai as int].1@[j2],
                            current_era,
                            unbonding_delay,
                        ) ==> still_unbonding_public_keys@.contains(
                            snapshot@[ai as int].1@[j2].unbonder_public_key,
                        ))
                    },
            decreases snapshot@[ai as int].1@.len() - j,
        {
            let unbonding_purse: UnbondingPurse = snapshot[ai].1[j];
            // Maturity check: the entry matures once the era it was
            // created in lies a full unbonding delay in the past.
            let matured: bool = match unbonding_purse.era_of_creation.checked_add(unbonding_delay) {
                Some(threshold) => current_era >= threshold,
                None => false,
            };
            let ghost processed0 = processed_validators@;
            let ghost still0 = still_unbonding_public_keys@;
            proof {
                assert(snapshot@[ai as int].1@.take(j + 1 as int) =~= snapshot@[ai as int].1@.take(
                    j as int,
                ).push(snapshot@[ai as int].1@[j as int]));
                lemma_kept_push(
                    snapshot@[ai as int].1@.take(j as int),
                    snapshot@[ai as int].1@[j as int],
                    current_era,
                    unbonding_delay,
                );
                crate::assoc::lemma_sorted_find_at(old(store).unbonds@, ai as int);
                assert(old(store).spec_unbonds(
                    AccountHash { value: old(store).unbonds@[ai as int].0 },
                ) == old(store).unbonds@[ai as int].1@);
                assert(matured == spec_matured(unbonding_purse, current_era, unbonding_delay));
            }
            if matured {
                if !pk_list_contains(&processed_validators, &unbonding_purse.validator_public_key)
                 {
                    processed_validators.push(unbonding_purse.validator_public_key);
                    proof {
                        assert(forall|m: int|
                            0 <= m < processed0.len() ==> #[trigger] processed_validators@[m]
                                == processed0[m]);
                        assert(processed_validators@.last()
                            == unbonding_purse.validator_public_key);
                    }
                }
                proof {
                    assert(processed_validators@.contains(
                        unbonding_purse.validator_public_key,
                    ));
                }
                proof {
                    if spec_no_matured_redelegations(*old(store), current_era, unbonding_delay) {
                        assert(unbonding_purse.new_validator is None);
                    }
                }
                let ghost before_entry = *store;
                let outcome = match handle_redelegation(
                    store,
                    &unbonding_purse,
                    max_delegators_per_validator,
                    minimum_delegation_amount,
                ) {
                    Ok(o) => o,
                    Err(e) => {
                        proof {
                            match single {
                                Some((a0, j0)) => {
                                    assert((AccountHash {
                                        value: old(store).unbonds@[ai as int].0,
                                    }) == a0 && j == j0);
                                    assert(unbonding_purse.new_validator is None);
                                },
                                None => {},
                            }
                        }
                        return Err(e);
                    },
                };
                let ghost after_redelegation = *store;
                if outcome != UnbondRedelegationOutcome::SuccessfullyRedelegated {
                    // Move the funds from the bid purse to the unbonder.
                    match unbond_transfer(store, &unbonding_purse) {
                        Ok(()) => {
                            proof {
                                match single {
                                    Some((a0, j0)) => {
                                        assert((AccountHash {
                                            value: old(store).unbonds@[ai as int].0,
                                        }) == a0 && j == j0);
                                        assert(old(store).spec_unbonds(a0)[j0]
                                            == unbonding_purse);
                                        assert(after_redelegation == before_entry);
                                        assert(after_redelegation.balances == old(
                                            store,
                                        ).balances);
                                        assert(after_redelegation.main_purses == old(
                                            store,
                                        ).main_purses);
                                        let acct =
                                            unbonding_purse.unbonder_public_key.account_hash();
                                        match assoc_find(old(store).main_purses@, acct.value) {
                                            Some(t) => {
                                                lemma_transfer_specs_same(
                                                    after_redelegation,
                                                    *old(store),
                                                    unbonding_purse.bonding_purse,
                                                    t,
                                                    unbonding_purse.amount,
                                                );
                                                assert(spec_withdrawal_paid(
                                                    *old(store),
                                                    *store,
                                                    unbonding_purse,
                                                ));
                                            },
                                            None => {
                                                assert(false);
                                            },
                                        }
                                    },
                                    None => {},
                                }
                            }
                        },
                        Err(_) => {
                            proof {
                                match single {
                                    Some((a0, j0)) => {
                                        assert((AccountHash {
                                            value: old(store).unbonds@[ai as int].0,
                                        }) == a0 && j == j0);
                                        assert(old(store).spec_unbonds(a0)[j0]
                                            == unbonding_purse);
                                        assert(after_redelegation == before_entry);
                                        assert(after_redelegation.balances == old(
                                            store,
                                        ).balances);
                                        assert(after_redelegation.main_purses == old(
                                            store,
                                        ).main_purses);
                                        let acct =
                                            unbonding_purse.unbonder_public_key.account_hash();
                                        match assoc_find(old(store).main_purses@, acct.value) {
                                            Some(t) => {
                                                lemma_transfer_specs_same(
                                                    after_redelegation,
                                                    *old(store),
                                                    unbonding_purse.bonding_purse,
                                                    t,
                                                    unbonding_purse.amount,
                                                );
                                                assert(spec_transfer_err(
                                                    *old(store),
                                                    unbonding_purse.bonding_purse,
                                                    t,
                                                    unbonding_purse.amount,
                                                ) is Some);
                                            },
                                            None => {},
                                        }
                                    },
                                    None => {},
                                }
                            }
                            return Err(Error::TransferToUnbondingPurse);
                        },
                    }
                }
                proof {
                    assert forall|a2: BidAddr| #![trigger store.spec_bid(a2)]
                        !(a2 is Delegator) implies store.spec_bid(a2) == old(store).spec_bid(
                        a2,
                    ) by {
                        assert(store.bids == after_redelegation.bids);
                        assert(after_redelegation.spec_bid(a2) == before_entry.spec_bid(a2));
                        assert(before_entry.spec_bid(a2) == old(store).spec_bid(a2));
                    }
                }
            } else {
                new_list.push(unbonding_purse);
                still_unbonding_public_keys.push(unbonding_purse.unbonder_public_key);
                proof {
                    assert(forall|m: int|
                        0 <= m < still0.len() ==> #[trigger] still_unbonding_public_keys@[m]
                            == still0[m]);
                    assert(still_unbonding_public_keys@.last()
                        == unbonding_purse.unbonder_public_key);
                    assert(still_unbonding_public_keys@.contains(
                        unbonding_purse.unbonder_public_key,
                    ));
                }
            }
            proof {
                assert forall|k: int, j2: int| #![all_triggers]
                    0 <= k < ai && 0 <= j2 < snapshot@[k].1@.len() implies {
                    &&& (spec_matured(snapshot@[k].1@[j2], current_era, unbonding_delay)
                        ==> processed_validators@.contains(
                        snapshot@[k].1@[j2].validator_public_key,
                    ))
                    &&& (!spec_matured(snapshot@[k].1@[j2], current_era, unbonding_delay)
                        ==> still_unbonding_public_keys@.contains(
                        snapshot@[k].1@[j2].unbonder_public_key,
                    ))
                } by {
                    if spec_matured(snapshot@[k].1@[j2], current_era, unbonding_delay) {
                        lemma_contains_grows(
                            processed0,
                            processed_validators@,
                            snapshot@[k].1@[j2].validator_public_key,
                        );
                    } else {
                        lemma_contains_grows(
                            still0,
                            still_unbonding_public_keys@,
                            snapshot@[k].1@[j2].unbonder_public_key,
                        );
                    }
                }
                assert forall|j2: int| #![all_triggers]
                    0 <= j2 < j + 1 implies {
                    &&& (spec_matured(snapshot@[ai as int].1@[j2], current_era, unbonding_delay)
                        ==> processed_validators@.contains(
                        snapshot@[ai as int].1@[j2].validator_public_key,
                    ))
                    &&& (!spec_matured(snapshot@[ai as int].1@[j2], current_era, unbonding_delay)
                        ==> still_unbonding_public_keys@.contains(
                        snapshot@[ai as int].1@[j2].unbonder_public_key,
                    ))
                } by {
                    if j2 < j {
                        if spec_matured(
                            snapshot@[ai as int].1@[j2],
                            current_era,
                            unbonding_delay,
                        ) {
                            lemma_contains_grows(
                                processed0,
                                processed_validators@,
                                snapshot@[ai as int].1@[j2].validator_public_key,
                            );
                        } else {
                            lemma_contains_grows(
                                still0,
                                still_unbonding_public_keys@,
                                snapshot@[ai as int].1@[j2].unbonder_public_key,
                            );
                        }
                    }
                }
            }
            j = j + 1;
        }
        proof {
            assert(snapshot@[ai as int].1@.take(snapshot@[ai as int].1@.len() as int)
                =~= snapshot@[ai as int].1@);
            match single {
                Some((a0, j0)) => {
                    if snapshot@[ai as int].0 == a0.value {
                        assert(old(store).unbonds@[ai as int].0 == a0.value);
                        crate::assoc::lemma_sorted_find_at(old(store).unbonds@, ai as int);
                        assert(old(store).spec_unbonds(a0) == old(
                            store,
                        ).unbonds@[ai as int].1@);
                        assert(j0 < snapshot@[ai as int].1@.len());
                    } else {
                        assert(old(store).unbonds@[ai as int].0 != a0.value);
                    }
                },
                None => {},
            }
        }
        new_lists.push((account, new_list));
        ai = ai + 1;
    }
    proof {
        lemma_pass_one_covers(
            *old(store),
            snapshot@,
            processed_validators@,
            still_unbonding_public_keys@,
            current_era,
            unbonding_delay,
        );
    }
    let ghost nb = spec_all_processed_direct(*old(store), current_era, unbonding_delay);
    let ghost nored = spec_no_matured_redelegations(*old(store), current_era, unbonding_delay);
    proof {
        if nored {
            assert(store.bids == old(store).bids);
            assert forall|m: int, d: PublicKey| #![all_triggers]
                0 <= m < processed_validators@.len() implies store.spec_bid(
                BidAddr::Delegator(processed_validators@[m], d),
            ) == old(store).spec_bid(BidAddr::Delegator(processed_validators@[m], d)) by {
                assert(store.bids@ == old(store).bids@);
            }
        }
        match single {
            Some((a0, j0)) => {
                assert(old(store).spec_unbonds(a0).len() > 0);
                assert(assoc_find(old(store).unbonds@, a0.value) is Some);
                crate::assoc::lemma_find_some_implies_at(old(store).unbonds@, a0.value);
                assert(spec_withdrawal_paid(
                    *old(store),
                    *store,
                    old(store).spec_unbonds(a0)[j0],
                ));
            },
            None => {},
        }
    }
    let mut pi: usize = 0;
    while pi < processed_validators.len()
        invariant
            old(store).wf(),
            store.wf(),
            old(store).delegators_backed() ==> store.delegators_backed(),
            pi <= processed_validators@.len(),
            nb == spec_all_processed_direct(*old(store), current_era, unbonding_delay),
            nored == spec_no_matured_redelegations(*old(store), current_era, unbonding_delay),
            spec_no_matured(*old(store), current_era, unbonding_delay)
                ==> processed_validators@.len() == 0,
            spec_no_matured(*old(store), current_era, unbonding_delay) ==> store.bids == old(
                store,
            ).bids && store.balances == old(store).balances,
            (nb && nored) ==> (forall|m: int, d: PublicKey| #![all_triggers]
                pi <= m < processed_validators@.len() ==> store.spec_bid(
                    BidAddr::Delegator(processed_validators@[m], d),
                ) == old(store).spec_bid(BidAddr::Delegator(processed_validators@[m], d))),
            (nb && nored) ==> (forall|m: int|
                0 <= m < pi ==> spec_delegator_prune_rule(
                    *old(store),
                    *store,
                    current_era,
                    unbonding_delay,
                    #[trigger] processed_validators@[m],
                )),
            (match single {
                None => !(exists|a0: AccountHash, j0: int|
                    spec_single_matured_withdrawal(
                        *old(store),
                        current_era,
                        unbonding_delay,
                        a0,
                        j0,
                    )),
                Some((a0, j0)) => spec_single_matured_withdrawal(
                    *old(store),
                    current_era,
                    unbonding_delay,
                    a0,
                    j0,
                ) && spec_withdrawal_paid(
                    *old(store),
                    *store,
                    old(store).spec_unbonds(a0)[j0],
                ),
            }),
            forall|acct: AccountHash| #![trigger store.spec_unbonds(acct)]
                store.spec_unbonds(acct) == old(store).spec_unbonds(acct),
            *store == (Store {
                bids: store.bids,
                balances: store.balances,
                next_purse: store.next_purse,
                ..*old(store)
            }),
            named_read(old(store).era_id) == Ok::<u64, Error>(current_era),
            named_read(old(store).unbonding_delay) == Ok::<u64, Error>(unbonding_delay),
            old(store).caller == (PublicKey { id: SYSTEM_KEY_ID }).account_hash(),
            forall|m: int|
                0 <= m < processed_validators@.len() ==> spec_processed_validator(
                    *old(store),
                    current_era,
                    unbonding_delay,
                    #[trigger] processed_validators@[m],
                ),
            forall|m1: int, m2: int|
                0 <= m1 < m2 < processed_validators@.len() ==> #[trigger] processed_validators@[m1]
                    != #[trigger] processed_validators@[m2],
            forall|pk: PublicKey|
                #![trigger spec_processed_validator(*old(store), current_era, unbonding_delay, pk)]
                spec_processed_validator(*old(store), current_era, unbonding_delay, pk)
                    ==> processed_validators@.contains(pk),
            forall|d: PublicKey| #![trigger still_unbonding_public_keys@.contains(d)]
                still_unbonding_public_keys@.contains(d) == spec_still_unbonding(
                    *old(store),
                    current_era,
                    unbonding_delay,
                    d,
                ),
            nb ==> (forall|m: int|
                pi <= m < processed_validators@.len() ==> store.spec_bid(
                    BidAddr::Validator(#[trigger] processed_validators@[m]),
                ) == old(store).spec_bid(BidAddr::Validator(processed_validators@[m]))),
            nb ==> (forall|m: int|
                0 <= m < pi ==> spec_prune_law(
                    *old(store),
                    *store,
                    current_era,
                    unbonding_delay,
                    #[trigger] processed_validators@[m],
                )),
        decreases processed_validators@.len() - pi,
    {
        let validator_public_key: PublicKey = processed_validators[pi];
        let ghost sigma = *store;
        match prune_processed_validator(
            store,
            validator_public_key,
            &still_unbonding_public_keys,
        ) {
            Ok(()) => {},
            Err(e) => {
                proof {
                    if nb {
                        assert(spec_processed_validator(
                            *old(store),
                            current_era,
                            unbonding_delay,
                            processed_validators@[pi as int],
                        ));
                        assert(sigma.spec_bid(BidAddr::Validator(validator_public_key)) == old(
                            store,
                        ).spec_bid(BidAddr::Validator(validator_public_key)));
                        assert(false);
                    }
                }
                return Err(e);
            },
        }
        proof {
            match single {
                Some((a0, j0)) => {
                    assert forall|u2: URef| #![trigger store.spec_balance(u2)]
                        store.spec_balance(u2) == sigma.spec_balance(u2) by {
                        assert(store.balances == sigma.balances);
                    }
                    assert(spec_withdrawal_paid(
                        *old(store),
                        *store,
                        old(store).spec_unbonds(a0)[j0],
                    ));
                },
                None => {},
            }
            if nb {
                assert(spec_processed_validator(
                    *old(store),
                    current_era,
                    unbonding_delay,
                    validator_public_key,
                ));
                assert(old(store).spec_bid(BidAddr::Validator(validator_public_key)) matches Some(
                    BidKind::Validator(_),
                ));
                assert(sigma.spec_bid(BidAddr::Validator(validator_public_key)) == old(
                    store,
                ).spec_bid(BidAddr::Validator(validator_public_key)));
                let b = sigma.spec_bid(
                    BidAddr::Validator(validator_public_key),
                )->Some_0->Validator_0;
                assert(spec_read_current_validator_bid(
                    sigma.bids@,
                    BidAddr::Validator(validator_public_key),
                    MAX_BRIDGE_CHAIN_LENGTH as nat,
                ) == Ok::<ValidatorBid, Error>(b));
                assert(b.validator_public_key == validator_public_key) by {
                    crate::store::lemma_find_implies_agree(
                        sigma.bids@,
                        BidAddr::Validator(validator_public_key),
                    );
                }
                assert(spec_prune_law(
                    *old(store),
                    *store,
                    current_era,
                    unbonding_delay,
                    validator_public_key,
                ));
                assert forall|m: int| 0 <= m < pi implies spec_prune_law(
                    *old(store),
                    *store,
                    current_era,
                    unbonding_delay,
                    #[trigger] processed_validators@[m],
                ) by {
                    assert(validator_public_key == processed_validators@[pi as int]);
                    assert(processed_validators@[m] != validator_public_key);
                    assert(store.spec_bid(BidAddr::Validator(processed_validators@[m]))
                        == sigma.spec_bid(BidAddr::Validator(processed_validators@[m])));
                    assert forall|d: PublicKey|
                        #![trigger store.spec_bid(BidAddr::Delegator(processed_validators@[m], d))]
                        #![trigger sigma.spec_bid(BidAddr::Delegator(processed_validators@[m], d))]
                        store.spec_bid(BidAddr::Delegator(processed_validators@[m], d))
                            == sigma.spec_bid(
                            BidAddr::Delegator(processed_validators@[m], d),
                        ) by {
                        assert(processed_validators@[m] != validator_public_key);
                        assert(!BidAddr::Delegator(
                            processed_validators@[m],
                            d,
                        ).is_delegator_of(validator_public_key));
                    }
                }
                if nored {
                    assert(spec_delegator_prune_rule(
                        *old(store),
                        *store,
                        current_era,
                        unbonding_delay,
                        validator_public_key,
                    )) by {
                        assert forall|d: PublicKey|
                            #![trigger store.spec_bid(BidAddr::Delegator(validator_public_key, d))]
                            store.spec_bid(BidAddr::Delegator(validator_public_key, d)) == (
                        match old(store).spec_bid(BidAddr::Delegator(validator_public_key, d)) {
                            Some(BidKind::Delegator(db)) => if db.staked_amount == 0
                                && !spec_still_unbonding(
                                *old(store),
                                current_era,
                                unbonding_delay,
                                d,
                            ) {
                                None
                            } else {
                                Some(BidKind::Delegator(db))
                            },
                            other => other,
                        }) by {
                            assert(sigma.spec_bid(
                                BidAddr::Delegator(validator_public_key, d),
                            ) == old(store).spec_bid(
                                BidAddr::Delegator(validator_public_key, d),
                            ));
                            assert(still_unbonding_public_keys@.contains(d)
                                == spec_still_unbonding(
                                *old(store),
                                current_era,
                                unbonding_delay,
                                d,
                            ));
                        }
                    }
                    assert forall|m: int| 0 <= m < pi implies spec_delegator_prune_rule(
                        *old(store),
                        *store,
                        current_era,
                        unbonding_delay,
                        #[trigger] processed_validators@[m],
                    ) by {
                        assert(processed_validators@[m] != validator_public_key);
                        assert forall|d: PublicKey|
                            #![trigger store.spec_bid(BidAddr::Delegator(processed_validators@[m], d))]
                            #![trigger sigma.spec_bid(BidAddr::Delegator(processed_validators@[m], d))]
                            store.spec_bid(BidAddr::Delegator(processed_validators@[m], d))
                                == sigma.spec_bid(
                                BidAddr::Delegator(processed_validators@[m], d),
                            ) by {
                            assert(!BidAddr::Delegator(
                                processed_validators@[m],
                                d,
                            ).is_delegator_of(validator_public_key));
                        }
                    }
                    assert forall|m: int, d: PublicKey| #![all_triggers]
                        pi + 1 <= m < processed_validators@.len() implies store.spec_bid(
                        BidAddr::Delegator(processed_validators@[m], d),
                    ) == old(store).spec_bid(
                        BidAddr::Delegator(processed_validators@[m], d),
                    ) by {
                        assert(processed_validators@[m] != validator_public_key);
                        assert(!BidAddr::Delegator(
                            processed_validators@[m],
                            d,
                        ).is_delegator_of(validator_public_key));
                        assert(sigma.spec_bid(BidAddr::Delegator(processed_validators@[m], d))
                            == old(store).spec_bid(
                            BidAddr::Delegator(processed_validators@[m], d),
                        ));
                    }
                }
            }
        }
        pi = pi + 1;
    }
    let ghost pre_write = *store;
    set_unbonding_purses(store, new_lists);
    proof {
        assert forall|a: AccountHash| #![trigger store.spec_unbonds(a)]
            store.spec_unbonds(a) == spec_kept_unbonds(
                old(store).spec_unbonds(a),
                current_era,
                unbonding_delay,
            ) by {
            lemma_find_kept(
                old(store).unbonds@,
                new_lists@,
                a.value,
                current_era,
                unbonding_delay,
            );
            assert(forall|k: int| #![all_triggers]
                0 <= k < new_lists@.len() ==> new_lists@[k].0 == old(store).unbonds@[k].0
                    && new_lists@[k].1@ == spec_kept_unbonds(
                    old(store).unbonds@[k].1@,
                    current_era,
                    unbonding_delay,
                ));
        }
        assert forall|a: AccountHash, j: int|
            0 <= j < store.spec_unbonds(a).len() implies !spec_matured(
            #[trigger] store.spec_unbonds(a)[j],
            current_era,
            unbonding_delay,
        ) by {
            lemma_kept_not_matured(old(store).spec_unbonds(a), current_era, unbonding_delay);
        }
        if nb {
            assert forall|pk: PublicKey|
                #![trigger spec_processed_validator(*old(store), current_era, unbonding_delay, pk)]
                spec_processed_validator(
                    *old(store),
                    current_era,
                    unbonding_delay,
                    pk,
                ) implies spec_prune_law(
                *old(store),
                *store,
                current_era,
                unbonding_delay,
                pk,
            ) by {
                assert(processed_validators@.contains(pk));
                let m = choose|m: int|
                    0 <= m < processed_validators@.len() && #[trigger] processed_validators@[m]
                        == pk;
                assert(spec_prune_law(
                    *old(store),
                    pre_write,
                    current_era,
                    unbonding_delay,
                    pk,
                ));
                assert(store.bids == pre_write.bids);
                assert(store.spec_bid(BidAddr::Validator(pk)) == pre_write.spec_bid(
                    BidAddr::Validator(pk),
                ));
                assert forall|d: PublicKey|
                    #![trigger store.spec_bid(BidAddr::Delegator(pk, d))]
                    #![trigger pre_write.spec_bid(BidAddr::Delegator(pk, d))]
                    store.spec_bid(BidAddr::Delegator(pk, d)) == pre_write.spec_bid(
                        BidAddr::Delegator(pk, d),
                    ) by {}
            }
            if nored {
                assert forall|pk: PublicKey|
                    #![trigger spec_processed_validator(*old(store), current_era, unbonding_delay, pk)]
                    spec_processed_validator(
                        *old(store),
                        current_era,
                        unbonding_delay,
                        pk,
                    ) implies spec_delegator_prune_rule(
                    *old(store),
                    *store,
                    current_era,
                    unbonding_delay,
                    pk,
                ) by {
                    assert(processed_validators@.contains(pk));
                    let m = choose|m: int|
                        0 <= m < processed_validators@.len() && #[trigger] processed_validators@[m]
                            == pk;
                    assert(spec_delegator_prune_rule(
                        *old(store),
                        pre_write,
                        current_era,
                        unbonding_delay,
                        pk,
                    ));
                    assert(store.bids == pre_write.bids);
                    assert forall|d: PublicKey|
                        #![trigger store.spec_bid(BidAddr::Delegator(pk, d))]
                        #![trigger pre_write.spec_bid(BidAddr::Delegator(pk, d))]
                        store.spec_bid(BidAddr::Delegator(pk, d)) == pre_write.spec_bid(
                            BidAddr::Delegator(pk, d),
                        ) by {}
                }
            }
        }
        match single {
            Some((a0, j0)) => {
                assert(store.balances == pre_write.balances);
                assert forall|u2: URef| #![trigger store.spec_balance(u2)]
                    store.spec_balance(u2) == pre_write.spec_balance(u2) by {
                    assert(store.balances@ == pre_write.balances@);
                }
                assert(spec_withdrawal_paid(
                    *old(store),
                    *store,
                    old(store).spec_unbonds(a0)[j0],
                ));
            },
            None => {},
        }
        if spec_no_matured(*old(store), current_era, unbonding_delay) {
            assert(store.bids == pre_write.bids);
            assert forall|a2: BidAddr| #![trigger store.spec_bid(a2)]
                store.spec_bid(a2) == old(store).spec_bid(a2) by {
                assert(store.bids@ == old(store).bids@);
            }
            assert forall|u2: URef| #![trigger store.spec_balance(u2)]
                store.spec_balance(u2) == old(store).spec_balance(u2) by {
                assert(store.balances@ == old(store).balances@);
            }
            assert forall|a: AccountHash| #![trigger store.spec_unbonds(a)]
                store.spec_unbonds(a) == old(store).spec_unbonds(a) by {
                lemma_kept_identity(old(store).spec_unbonds(a), current_era, unbonding_delay);
            }
        }
    }
    Ok(())
}

/// Membership in a key list survives its growth by appension.
proof fn lemma_contains_grows(s0: Seq<PublicKey>, s1: Seq<PublicKey>, pk: PublicKey)
    requires
        s0.len() <= s1.len(),
        forall|m: int| 0 <= m < s0.len() ==> #[trigger] s1[m] == s0[m],
        s0.contains(pk),
    ensures
        s1.contains(pk),
{
    let m = choose|m: int| 0 <= m < s0.len() && s0[m] == pk;
    assert(s1[m] == pk);
}

/// After the maturation pass, the revisit list covers every validator a
/// matured entry points at, and the pending list holds exactly the keys
/// with an entry still waiting.
proof fn lemma_pass_one_covers(
    orig: Store,
    snapshot: Seq<(u64, Vec<UnbondingPurse>)>,
    processed: Seq<PublicKey>,
    still: Seq<PublicKey>,
    current_era: u64,
    unbonding_delay: u64,
)
    requires
        orig.wf(),
        snapshot.len() == orig.unbonds@.len(),
        forall|k: int| #![all_triggers]
            0 <= k < snapshot.len() ==> snapshot[k].0 == orig.unbonds@[k].0 && snapshot[k].1@
                == orig.unbonds@[k].1@,
        forall|m: int|
            0 <= m < still.len() ==> spec_still_unbonding(
                orig,
                current_era,
                unbonding_delay,
                #[trigger] still[m],
            ),
        forall|k: int, j2: int| #![all_triggers]
            0 <= k < snapshot.len() && 0 <= j2 < snapshot[k].1@.len() ==> {
                &&& (spec_matured(snapshot[k].1@[j2], current_era, unbonding_delay)
                    ==> processed.contains(snapshot[k].1@[j2].validator_public_key))
                &&& (!spec_matured(snapshot[k].1@[j2], current_era, unbonding_delay)
                    ==> still.contains(snapshot[k].1@[j2].unbonder_public_key))
            },
    ensures
        forall|pk: PublicKey|
            #![trigger spec_processed_validator(orig, current_era, unbonding_delay, pk)]
            spec_processed_validator(orig, current_era, unbonding_delay, pk) ==> processed.contains(
                pk,
            ),
        forall|d: PublicKey| #![trigger still.contains(d)]
            still.contains(d) == spec_still_unbonding(orig, current_era, unbonding_delay, d),
{
    assert forall|pk: PublicKey|
        #![trigger spec_processed_validator(orig, current_era, unbonding_delay, pk)]
        spec_processed_validator(orig, current_era, unbonding_delay, pk) implies processed.contains(
        pk,
    ) by {
        let (a, j) = choose|a: AccountHash, j: int|
            0 <= j < orig.spec_unbonds(a).len() && spec_matured(
                #[trigger] orig.spec_unbonds(a)[j],
                current_era,
                unbonding_delay,
            ) && orig.spec_unbonds(a)[j].validator_public_key == pk;
        crate::assoc::lemma_find_some_implies_at(orig.unbonds@, a.value);
        let k = choose|k: int|
            0 <= k < orig.unbonds@.len() && #[trigger] orig.unbonds@[k] == (
            a.value,
            assoc_find(orig.unbonds@, a.value)->Some_0,
        );
        assert(snapshot[k].1@[j] == orig.spec_unbonds(a)[j]);
    }
    assert forall|d: PublicKey| #![trigger still.contains(d)]
        still.contains(d) == spec_still_unbonding(orig, current_era, unbonding_delay, d) by {
        if still.contains(d) {
            let m = choose|m: int| 0 <= m < still.len() && still[m] == d;
            assert(spec_still_unbonding(orig, current_era, unbonding_delay, still[m]));
        }
        if spec_still_unbonding(orig, current_era, unbonding_delay, d) {
            let (a, j) = choose|a: AccountHash, j: int|
                0 <= j < orig.spec_unbonds(a).len() && !spec_matured(
                    #[trigger] orig.spec_unbonds(a)[j],
                    current_era,
                    unbonding_delay,
                ) && orig.spec_unbonds(a)[j].unbonder_public_key == d;
            crate::assoc::lemma_find_some_implies_at(orig.unbonds@, a.value);
            let k = choose|k: int|
                0 <= k < orig.unbonds@.len() && #[trigger] orig.unbonds@[k] == (
                a.value,
                assoc_find(orig.unbonds@, a.value)->Some_0,
            );
            assert(snapshot[k].1@[j] == orig.spec_unbonds(a)[j]);
        }
    }
}

/// When the pruning loop kept nothing and the validator record sits under
/// its own key, no delegator bid of that key remains.
proof fn lemma_no_delegators_when_pruned(
    orig: Store,
    mid: Store,
    current: PublicKey,
    validator_public_key: PublicKey,
    dlist: Seq<Delegator>,
    still_unbonding: Seq<PublicKey>,
    d: PublicKey,
)
    requires
        orig.wf(),
        mid.delegators_backed(),
        dlist == delegator_records_of(orig.bids@, current),
        forall|k: int|
            0 <= k < dlist.len() ==> mid.spec_bid(
                BidAddr::Delegator(current, (#[trigger] dlist[k]).delegator_public_key),
            ) == (if spec_prunable(dlist[k], still_unbonding) {
                None
            } else {
                Some(BidKind::Delegator(dlist[k]))
            }),
        forall|a2: BidAddr| #![trigger mid.spec_bid(a2)]
            (forall|k: int|
                0 <= k < dlist.len() ==> a2 != BidAddr::Delegator(
                    current,
                    (#[trigger] dlist[k]).delegator_public_key,
                )) ==> mid.spec_bid(a2) == orig.spec_bid(a2),
        forall|k: int| 0 <= k < dlist.len() ==> spec_prunable(#[trigger] dlist[k], still_unbonding),
        mid.spec_bid(BidAddr::Validator(validator_public_key)) == orig.spec_bid(
            BidAddr::Validator(validator_public_key),
        ),
        (orig.spec_bid(BidAddr::Validator(validator_public_key)) matches Some(
            BidKind::Validator(_),
        )) ==> current == validator_public_key,
    ensures
        mid.spec_bid(BidAddr::Delegator(validator_public_key, d)) is None,
{
    if mid.spec_bid(BidAddr::Delegator(validator_public_key, d)) is Some {
        // A surviving delegator of this key forces a validator record at
        // its address, so the walk found the record under its own key and
        // the two keys coincide.
        assert(mid.spec_bid(BidAddr::Validator(validator_public_key)) matches Some(
            BidKind::Validator(_),
        ));
        if validator_public_key == current {
            if forall|k: int|
                0 <= k < dlist.len() ==> BidAddr::Delegator(validator_public_key, d)
                    != BidAddr::Delegator(current, (#[trigger] dlist[k]).delegator_public_key) {
                assert(mid.spec_bid(BidAddr::Delegator(validator_public_key, d)) == orig.spec_bid(
                    BidAddr::Delegator(validator_public_key, d),
                ));
                crate::store::lemma_find_to_record(orig.bids@, current, d);
                let db = orig.spec_bid(BidAddr::Delegator(current, d))->Some_0->Delegator_0;
                assert(dlist.contains(db));
                let k = choose|k: int| 0 <= k < dlist.len() && dlist[k] == db;
                assert(BidAddr::Delegator(validator_public_key, d) == BidAddr::Delegator(
                    current,
                    dlist[k].delegator_public_key,
                ));
            } else {
                let k = choose|k: int|
                    0 <= k < dlist.len() && BidAddr::Delegator(validator_public_key, d)
                        == BidAddr::Delegator(current, (#[trigger] dlist[k]).delegator_public_key);
                assert(spec_prunable(dlist[k], still_unbonding));
            }
        } else {
            // The walk crossed a bridge, so the original address does not
            // hold a validator record; the backing requirement of the
            // surviving delegator is contradicted.
            assert(orig.spec_bid(BidAddr::Validator(validator_public_key)) matches Some(
                BidKind::Validator(_),
            ));
        }
    }
}

/// Assembles the pruning law of one validator from the loop facts.
proof fn lemma_prune_law(
    orig: Store,
    mid: Store,
    post: Store,
    validator_public_key: PublicKey,
    current: PublicKey,
    dlist: Seq<Delegator>,
    still_unbonding: Seq<PublicKey>,
    pruned_validator: bool,
    stake_is_zero: bool,
)
    requires
        orig.wf(),
        dlist == delegator_records_of(orig.bids@, current),
        forall|k: int|
            0 <= k < dlist.len() ==> assoc_find(
                orig.bids@,
                BidAddr::Delegator(current, (#[trigger] dlist[k]).delegator_public_key),
            ) == Some(BidKind::Delegator(dlist[k])),
        forall|k: int|
            0 <= k < dlist.len() ==> mid.spec_bid(
                BidAddr::Delegator(current, (#[trigger] dlist[k]).delegator_public_key),
            ) == (if spec_prunable(dlist[k], still_unbonding) {
                None
            } else {
                Some(BidKind::Delegator(dlist[k]))
            }),
        forall|a2: BidAddr| #![trigger mid.spec_bid(a2)]
            (forall|k: int|
                0 <= k < dlist.len() ==> a2 != BidAddr::Delegator(
                    current,
                    (#[trigger] dlist[k]).delegator_public_key,
                )) ==> mid.spec_bid(a2) == orig.spec_bid(a2),
        pruned_validator ==> (forall|k: int|
            0 <= k < dlist.len() ==> spec_prunable(#[trigger] dlist[k], still_unbonding))
            && stake_is_zero && !still_unbonding.contains(current),
        !pruned_validator ==> post == mid && ((exists|k: int|
            0 <= k < dlist.len() && !spec_prunable(#[trigger] dlist[k], still_unbonding))
            || !stake_is_zero || still_unbonding.contains(current)),
        pruned_validator ==> (forall|a2: BidAddr| #![trigger post.spec_bid(a2)]
            post.spec_bid(a2) == (if a2 == BidAddr::Validator(validator_public_key) {
                None
            } else {
                mid.spec_bid(a2)
            })),
        (match orig.spec_bid(BidAddr::Validator(validator_public_key)) {
            Some(BidKind::Validator(b)) => b.validator_public_key == current && (stake_is_zero
                <==> b.staked_amount == 0) && current == validator_public_key,
            _ => true,
        }),
    ensures
        (match orig.spec_bid(BidAddr::Validator(validator_public_key)) {
            Some(BidKind::Validator(b)) => {
                &&& (forall|d: PublicKey|
                    #![trigger post.spec_bid(BidAddr::Delegator(validator_public_key, d))]
                    post.spec_bid(BidAddr::Delegator(validator_public_key, d)) == (
                    match orig.spec_bid(BidAddr::Delegator(validator_public_key, d)) {
                        Some(BidKind::Delegator(db)) => if db.staked_amount == 0
                            && !still_unbonding.contains(d) {
                            None
                        } else {
                            Some(BidKind::Delegator(db))
                        },
                        other => other,
                    }))
                &&& ((post.spec_bid(BidAddr::Validator(validator_public_key)) == Some(
                    BidKind::Validator(b),
                ) && !(b.staked_amount == 0 && !still_unbonding.contains(validator_public_key) && (
                forall|d: PublicKey|
                    (#[trigger] post.spec_bid(
                        BidAddr::Delegator(validator_public_key, d),
                    )) is None))) || (post.spec_bid(BidAddr::Validator(validator_public_key)) is None
                    && b.staked_amount == 0 && !still_unbonding.contains(validator_public_key) && (
                forall|d: PublicKey|
                    (#[trigger] post.spec_bid(
                        BidAddr::Delegator(validator_public_key, d),
                    )) is None)))
            },
            _ => true,
        }),
{
    match orig.spec_bid(BidAddr::Validator(validator_public_key)) {
        Some(BidKind::Validator(b)) => {
            assert forall|d: PublicKey|
                #![trigger post.spec_bid(BidAddr::Delegator(validator_public_key, d))]
                post.spec_bid(BidAddr::Delegator(validator_public_key, d)) == (match orig.spec_bid(
                BidAddr::Delegator(validator_public_key, d),
            ) {
                Some(BidKind::Delegator(db)) => if db.staked_amount == 0
                    && !still_unbonding.contains(d) {
                    None
                } else {
                    Some(BidKind::Delegator(db))
                },
                other => other,
            }) by {
                assert(post.spec_bid(BidAddr::Delegator(validator_public_key, d)) == mid.spec_bid(
                    BidAddr::Delegator(validator_public_key, d),
                ));
                match orig.spec_bid(BidAddr::Delegator(validator_public_key, d)) {
                    Some(kind) => {
                        crate::store::lemma_find_to_record(orig.bids@, validator_public_key, d);
                        let db = kind->Delegator_0;
                        assert(dlist.contains(db));
                        let k = choose|k: int| 0 <= k < dlist.len() && dlist[k] == db;
                        assert(mid.spec_bid(
                            BidAddr::Delegator(current, dlist[k].delegator_public_key),
                        ) == (if spec_prunable(dlist[k], still_unbonding) {
                            None
                        } else {
                            Some(BidKind::Delegator(dlist[k]))
                        }));
                    },
                    None => {
                        assert forall|k: int| 0 <= k < dlist.len() implies BidAddr::Delegator(
                            validator_public_key,
                            d,
                        ) != BidAddr::Delegator(
                            current,
                            (#[trigger] dlist[k]).delegator_public_key,
                        ) by {
                            if BidAddr::Delegator(validator_public_key, d) == BidAddr::Delegator(
                                current,
                                dlist[k].delegator_public_key,
                            ) {
                                assert(assoc_find(
                                    orig.bids@,
                                    BidAddr::Delegator(current, dlist[k].delegator_public_key),
                                ) == Some(BidKind::Delegator(dlist[k])));
                            }
                        }
                        assert(mid.spec_bid(BidAddr::Delegator(validator_public_key, d))
                            == orig.spec_bid(BidAddr::Delegator(validator_public_key, d)));
                    },
                }
            }
            if pruned_validator {
                assert(post.spec_bid(BidAddr::Validator(validator_public_key)) is None);
                assert forall|d: PublicKey|
                    (#[trigger] post.spec_bid(
                        BidAddr::Delegator(validator_public_key, d),
                    )) is None by {
                    match orig.spec_bid(BidAddr::Delegator(validator_public_key, d)) {
                        Some(kind) => {
                            crate::store::lemma_find_to_record(
                                orig.bids@,
                                validator_public_key,
                                d,
                            );
                            let db = kind->Delegator_0;
                            assert(dlist.contains(db));
                            let k = choose|k: int| 0 <= k < dlist.len() && dlist[k] == db;
                            assert(spec_prunable(dlist[k], still_unbonding));
                        },
                        None => {},
                    }
                }
            } else {
                assert(post.spec_bid(BidAddr::Validator(validator_public_key)) == orig.spec_bid(
                    BidAddr::Validator(validator_public_key),
                )) by {
                    assert forall|k: int| 0 <= k < dlist.len() implies BidAddr::Validator(
                        validator_public_key,
                    ) != BidAddr::Delegator(
                        current,
                        (#[trigger] dlist[k]).delegator_public_key,
                    ) by {}
                }
                if b.staked_amount == 0 && !still_unbonding.contains(validator_public_key) {
                    // Something was kept, and what is kept survives.
                    let k = choose|k: int|
                        0 <= k < dlist.len() && !spec_prunable(
                            #[trigger] dlist[k],
                            still_unbonding,
                        );
                    assert(post.spec_bid(
                        BidAddr::Delegator(current, dlist[k].delegator_public_key),
                    ) == mid.spec_bid(BidAddr::Delegator(current, dlist[k].delegator_public_key)));
                    assert(post.spec_bid(
                        BidAddr::Delegator(validator_public_key, dlist[k].delegator_public_key),
                    ) is Some);
                }
            }
        },
        _ => {},
    }
}

/// Assembles the pruning law of the resolved validator, bridge hop or
/// not: each of its delegator bids goes exactly when it has no stake and
/// no pending key; the queried address survives exactly while stake, a
/// surviving delegator, or a pending key holds the resolved bid.
proof fn lemma_prune_law_resolved(
    orig: Store,
    mid: Store,
    post: Store,
    validator_public_key: PublicKey,
    current: PublicKey,
    dlist: Seq<Delegator>,
    still_unbonding: Seq<PublicKey>,
    pruned_validator: bool,
    stake_is_zero: bool,
)
    requires
        orig.wf(),
        dlist == delegator_records_of(orig.bids@, current),
        forall|k: int|
            0 <= k < dlist.len() ==> assoc_find(
                orig.bids@,
                BidAddr::Delegator(current, (#[trigger] dlist[k]).delegator_public_key),
            ) == Some(BidKind::Delegator(dlist[k])),
        forall|k: int|
            0 <= k < dlist.len() ==> mid.spec_bid(
                BidAddr::Delegator(current, (#[trigger] dlist[k]).delegator_public_key),
            ) == (if spec_prunable(dlist[k], still_unbonding) {
                None
            } else {
                Some(BidKind::Delegator(dlist[k]))
            }),
        forall|a2: BidAddr| #![trigger mid.spec_bid(a2)]
            (forall|k: int|
                0 <= k < dlist.len() ==> a2 != BidAddr::Delegator(
                    current,
                    (#[trigger] dlist[k]).delegator_public_key,
                )) ==> mid.spec_bid(a2) == orig.spec_bid(a2),
        pruned_validator ==> (forall|k: int|
            0 <= k < dlist.len() ==> spec_prunable(#[trigger] dlist[k], still_unbonding))
            && stake_is_zero && !still_unbonding.contains(current),
        !pruned_validator ==> post == mid && ((exists|k: int|
            0 <= k < dlist.len() && !spec_prunable(#[trigger] dlist[k], still_unbonding))
            || !stake_is_zero || still_unbonding.contains(current)),
        pruned_validator ==> (forall|a2: BidAddr| #![trigger post.spec_bid(a2)]
            post.spec_bid(a2) == (if a2 == BidAddr::Validator(validator_public_key) {
                None
            } else {
                mid.spec_bid(a2)
            })),
    ensures
        spec_delegator_prune_rule_by_keys(orig, post, still_unbonding, current),
        post.spec_bid(BidAddr::Validator(validator_public_key)) == (if stake_is_zero
            && !still_unbonding.contains(current) && (forall|d: PublicKey|
            (#[trigger] post.spec_bid(BidAddr::Delegator(current, d))) is None) {
            None
        } else {
            orig.spec_bid(BidAddr::Validator(validator_public_key))
        }),
{
    assert forall|d: PublicKey| #![trigger post.spec_bid(BidAddr::Delegator(current, d))]
        post.spec_bid(BidAddr::Delegator(current, d)) == (match orig.spec_bid(
        BidAddr::Delegator(current, d),
    ) {
        Some(BidKind::Delegator(db)) => if db.staked_amount == 0 && !still_unbonding.contains(d) {
            None
        } else {
            Some(BidKind::Delegator(db))
        },
        other => other,
    }) by {
        assert(post.spec_bid(BidAddr::Delegator(current, d)) == mid.spec_bid(
            BidAddr::Delegator(current, d),
        ));
        match orig.spec_bid(BidAddr::Delegator(current, d)) {
            Some(kind) => {
                crate::store::lemma_find_to_record(orig.bids@, current, d);
                let db = kind->Delegator_0;
                assert(dlist.contains(db));
                let k = choose|k: int| 0 <= k < dlist.len() && dlist[k] == db;
                assert(mid.spec_bid(BidAddr::Delegator(current, dlist[k].delegator_public_key))
                    == (if spec_prunable(dlist[k], still_unbonding) {
                    None
                } else {
                    Some(BidKind::Delegator(dlist[k]))
                }));
            },
            None => {
                assert forall|k: int| 0 <= k < dlist.len() implies BidAddr::Delegator(current, d)
                    != BidAddr::Delegator(
                    current,
                    (#[trigger] dlist[k]).delegator_public_key,
                ) by {
                    if BidAddr::Delegator(current, d) == BidAddr::Delegator(
                        current,
                        dlist[k].delegator_public_key,
                    ) {
                        assert(assoc_find(
                            orig.bids@,
                            BidAddr::Delegator(current, dlist[k].delegator_public_key),
                        ) == Some(BidKind::Delegator(dlist[k])));
                    }
                }
                assert(mid.spec_bid(BidAddr::Delegator(current, d)) == orig.spec_bid(
                    BidAddr::Delegator(current, d),
                ));
            },
        }
    }
    if pruned_validator {
        assert(post.spec_bid(BidAddr::Validator(validator_public_key)) is None);
        assert forall|d: PublicKey|
            (#[trigger] post.spec_bid(BidAddr::Delegator(current, d))) is None by {
            match orig.spec_bid(BidAddr::Delegator(current, d)) {
                Some(kind) => {
                    crate::store::lemma_find_to_record(orig.bids@, current, d);
                    let db = kind->Delegator_0;
                    assert(dlist.contains(db));
                    let k = choose|k: int| 0 <= k < dlist.len() && dlist[k] == db;
                    assert(spec_prunable(dlist[k], still_unbonding));
                },
                None => {},
            }
        }
    } else {
        assert(post.spec_bid(BidAddr::Validator(validator_public_key)) == orig.spec_bid(
            BidAddr::Validator(validator_public_key),
        )) by {
            assert forall|k: int| 0 <= k < dlist.len() implies BidAddr::Validator(
                validator_public_key,
            ) != BidAddr::Delegator(current, (#[trigger] dlist[k]).delegator_public_key) by {}
        }
        if stake_is_zero && !still_unbonding.contains(current) {
            // Something was kept, and what is kept survives.
            let k = choose|k: int|
                0 <= k < dlist.len() && !spec_prunable(#[trigger] dlist[k], still_unbonding);
            assert(post.spec_bid(BidAddr::Delegator(current, dlist[k].delegator_public_key))
                == mid.spec_bid(BidAddr::Delegator(current, dlist[k].delegator_public_key)));
            assert(post.spec_bid(
                BidAddr::Delegator(current, dlist[k].delegator_public_key),
            ) is Some);
        }
    }
}

} // verus!
