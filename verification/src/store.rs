//! The deterministic key/value store the auction runs against.
//!
//! Reads are snapshot-consistent within one entry-point invocation and
//! writes land in the same in-memory state, which stands for the
//! transactional tracking copy. Record spaces are association lists, so
//! enumeration is deterministic on every node. The store also carries the
//! purse ledger (the mint) and the named configuration values.

use vstd::prelude::*;

use crate::assoc::{
    assoc_find, assoc_unique, keys_sorted, lemma_find_at, lemma_find_absent, lemma_find_push,
    lemma_find_remove, lemma_find_update, map_get_ref, map_set, copy_vec,
};
use crate::error::Error;
use crate::keys::{AccountHash, BidAddr, PublicKey, URef};
use crate::records::{BidKind, Delegator, SeigniorageRecipient, UnbondingPurse};

verus! {

/// What a named-key lookup can resolve to.
#[derive(Clone, Copy, Debug)]
pub enum NamedValue<T> {
    /// The named key is not present at all.
    Absent,
    /// The named key resolves to something that is not a purse reference.
    WrongVariant,
    /// The named key resolves to a purse with nothing stored under it.
    Empty,
    /// The named key resolves to a stored value.
    Present(T),
}

/// Whether a record may be stored under an address: the address components
/// must agree with the record's own fields. A rotated-away validator
/// address may also hold the bridge record left behind by the rotation.
pub open spec fn addr_record_agree(addr: BidAddr, kind: BidKind) -> bool {
    match addr {
        BidAddr::Validator(p) => match kind {
            BidKind::Validator(b) => b.validator_public_key == p,
            BidKind::Bridge(br) => br.old_validator_public_key == p,
            _ => false,
        },
        BidAddr::Delegator(v, d) => match kind {
            BidKind::Delegator(db) => db.validator_public_key == v && db.delegator_public_key
                == d,
            _ => false,
        },
        BidAddr::Credit(v, e) => match kind {
            BidKind::Credit(c) => c.validator_public_key == v && c.era_id == e,
            _ => false,
        },
        BidAddr::Bridge(p) => match kind {
            BidKind::Bridge(br) => br.old_validator_public_key == p,
            _ => false,
        },
    }
}

/// Every stored record sits under an address that agrees with it.
pub open spec fn bids_agree(s: Seq<(BidAddr, BidKind)>) -> bool {
    forall|i: int| 0 <= i < s.len() ==> addr_record_agree(#[trigger] s[i].0, s[i].1)
}

/// How many delegator records point at `v`.
pub open spec fn delegator_count_of(s: Seq<(BidAddr, BidKind)>, v: PublicKey) -> nat
    decreases s.len(),
{
    if s.len() == 0 {
        0
    } else {
        (if s[0].0.is_delegator_of(v) {
            1nat
        } else {
            0nat
        }) + delegator_count_of(s.drop_first(), v)
    }
}

/// The delegator records of `v`, in store order.
pub open spec fn delegator_records_of(s: Seq<(BidAddr, BidKind)>, v: PublicKey) -> Seq<Delegator>
    decreases s.len(),
{
    if s.len() == 0 {
        Seq::empty()
    } else {
        let rest = delegator_records_of(s.drop_first(), v);
        if s[0].0.is_delegator_of(v) && s[0].1 is Delegator {
            seq![s[0].1->Delegator_0] + rest
        } else {
            rest
        }
    }
}

/// The delegator count never exceeds the store size.
pub proof fn lemma_count_le_len(s: Seq<(BidAddr, BidKind)>, v: PublicKey)
    ensures
        delegator_count_of(s, v) <= s.len(),
    decreases s.len(),
{
    if s.len() > 0 {
        lemma_count_le_len(s.drop_first(), v);
    }
}

/// Appending a pair raises the count of exactly the validator it points at.
pub proof fn lemma_count_push(s: Seq<(BidAddr, BidKind)>, p: (BidAddr, BidKind), v: PublicKey)
    ensures
        delegator_count_of(s.push(p), v) == delegator_count_of(s, v) + (if p.0.is_delegator_of(v) {
            1nat
        } else {
            0nat
        }),
    decreases s.len(),
{
    if s.len() == 0 {
        assert(s.push(p).drop_first() =~= s);
    } else {
        assert(s.push(p).drop_first() =~= s.drop_first().push(p));
        lemma_count_push(s.drop_first(), p, v);
    }
}

/// The count depends on the keys alone.
pub proof fn lemma_count_keys_only(
    s: Seq<(BidAddr, BidKind)>,
    t: Seq<(BidAddr, BidKind)>,
    v: PublicKey,
)
    requires
        s.len() == t.len(),
        forall|j: int| 0 <= j < s.len() ==> s[j].0 == t[j].0,
    ensures
        delegator_count_of(s, v) == delegator_count_of(t, v),
    decreases s.len(),
{
    if s.len() > 0 {
        assert(forall|j: int|
            0 <= j < s.drop_first().len() ==> s.drop_first()[j].0 == t.drop_first()[j].0);
        lemma_count_keys_only(s.drop_first(), t.drop_first(), v);
    }
}

/// Removing the pair at index `i` lowers the count of exactly the
/// validator it points at.
pub proof fn lemma_count_remove(s: Seq<(BidAddr, BidKind)>, i: int, v: PublicKey)
    requires
        0 <= i < s.len(),
    ensures
        delegator_count_of(s, v) == delegator_count_of(s.remove(i), v) + (
        if s[i].0.is_delegator_of(v) {
            1nat
        } else {
            0nat
        }),
    decreases s.len(),
{
    if i == 0 {
        assert(s.remove(0) =~= s.drop_first());
    } else {
        assert(s.remove(i)[0] == s[0]);
        assert(s.remove(i).drop_first() =~= s.drop_first().remove(i - 1));
        lemma_count_remove(s.drop_first(), i - 1, v);
    }
}

/// Appending a pair appends to the record list of exactly the validator
/// it points at.
pub proof fn lemma_records_push(s: Seq<(BidAddr, BidKind)>, p: (BidAddr, BidKind), v: PublicKey)
    ensures
        delegator_records_of(s.push(p), v) == (if p.0.is_delegator_of(v) && p.1 is Delegator {
            delegator_records_of(s, v).push(p.1->Delegator_0)
        } else {
            delegator_records_of(s, v)
        }),
    decreases s.len(),
{
    if s.len() == 0 {
        assert(s.push(p).drop_first() =~= s);
        if p.0.is_delegator_of(v) && p.1 is Delegator {
            assert(delegator_records_of(s.push(p), v) =~= delegator_records_of(s, v).push(
                p.1->Delegator_0,
            ));
        }
    } else {
        assert(s.push(p).drop_first() =~= s.drop_first().push(p));
        lemma_records_push(s.drop_first(), p, v);
        if p.0.is_delegator_of(v) && p.1 is Delegator {
            if s[0].0.is_delegator_of(v) && s[0].1 is Delegator {
                assert(delegator_records_of(s.push(p), v) =~= delegator_records_of(s, v).push(
                    p.1->Delegator_0,
                ));
            }
        }
    }
}

/// The record list of `v` is unchanged by edits at keys not pointing at `v`.
pub proof fn lemma_records_agree(
    s: Seq<(BidAddr, BidKind)>,
    t: Seq<(BidAddr, BidKind)>,
    v: PublicKey,
)
    requires
        s.len() == t.len(),
        forall|j: int| 0 <= j < s.len() ==> s[j].0 == t[j].0,
        forall|j: int| 0 <= j < s.len() && s[j].0.is_delegator_of(v) ==> s[j].1 == t[j].1,
    ensures
        delegator_records_of(s, v) == delegator_records_of(t, v),
    decreases s.len(),
{
    if s.len() > 0 {
        assert(forall|j: int|
            0 <= j < s.drop_first().len() ==> s.drop_first()[j].0 == t.drop_first()[j].0 && (
            s.drop_first()[j].0.is_delegator_of(v) ==> s.drop_first()[j].1
                == t.drop_first()[j].1));
        lemma_records_agree(s.drop_first(), t.drop_first(), v);
    }
}

/// Whether delegators are backed depends on the bid space alone.
pub proof fn lemma_backed_depends_on_bids(pre: Store, post: Store)
    requires
        post.bids@ == pre.bids@,
    ensures
        post.delegators_backed() == pre.delegators_backed(),
{
    if pre.delegators_backed() {
        assert forall|v: PublicKey, d: PublicKey|
            (#[trigger] assoc_find(post.bids@, BidAddr::Delegator(v, d))) is Some implies (
        assoc_find(post.bids@, BidAddr::Validator(v)) matches Some(BidKind::Validator(_))) by {
            assert(assoc_find(pre.bids@, BidAddr::Delegator(v, d)) is Some);
        }
    }
    if post.delegators_backed() {
        assert forall|v: PublicKey, d: PublicKey|
            (#[trigger] assoc_find(pre.bids@, BidAddr::Delegator(v, d))) is Some implies (
        assoc_find(pre.bids@, BidAddr::Validator(v)) matches Some(BidKind::Validator(_))) by {
            assert(assoc_find(post.bids@, BidAddr::Delegator(v, d)) is Some);
        }
    }
}

/// What lookup finds in an agreeing store agrees with its address.
pub proof fn lemma_find_implies_agree(s: Seq<(BidAddr, BidKind)>, addr: BidAddr)
    requires
        bids_agree(s),
        assoc_find(s, addr) is Some,
    ensures
        addr_record_agree(addr, assoc_find(s, addr)->Some_0),
    decreases s.len(),
{
    if s.len() > 0 && s[0].0 != addr {
        assert(forall|j: int|
            0 <= j < s.drop_first().len() ==> #[trigger] s.drop_first()[j] == s[j + 1]);
        lemma_find_implies_agree(s.drop_first(), addr);
    }
}

/// A snapshot of seigniorage recipients: for each era, the recipients
/// keyed by validator public key.
pub struct SeigniorageRecipientsSnapshot {
    /// One entry per era, in ascending era order.
    pub eras: Vec<(u64, Vec<(PublicKey, SeigniorageRecipient)>)>,
}

/// The full auction state: the bid record space, the unbond queues, the
/// purse ledger, and the named configuration values.
pub struct Store {
    /// The bid record space, keyed by structured bid address.
    pub bids: Vec<(BidAddr, BidKind)>,
    /// Unbonding entries per account hash, in insertion order per account.
    pub unbonds: Vec<(u64, Vec<UnbondingPurse>)>,
    /// The purse ledger: balance per purse id.
    pub balances: Vec<(u64, u128)>,
    /// The main purse of each account, where withdrawals are paid to.
    pub main_purses: Vec<(u64, URef)>,
    /// The next purse id the mint will hand out.
    pub next_purse: u64,
    /// The account invoking the current entry point.
    pub caller: AccountHash,
    /// The current era id.
    pub era_id: NamedValue<u64>,
    /// When the current era ends, in milliseconds.
    pub era_end_timestamp_millis: NamedValue<u64>,
    /// How many eras pass between an auction and the era it elects.
    pub auction_delay: NamedValue<u64>,
    /// How many eras an unbond waits before it matures.
    pub unbonding_delay: NamedValue<u64>,
    /// How many validator slots the auction fills.
    pub validator_slots: NamedValue<u32>,
    /// The snapshot of upcoming seigniorage recipients.
    pub snapshot: NamedValue<SeigniorageRecipientsSnapshot>,
}

impl Store {
    /// Structural well-formedness: unique, agreeing bid keys; sorted
    /// numeric key spaces; and every ledgered purse id below the next
    /// purse id the mint will hand out.
    pub open spec fn wf(self) -> bool {
        &&& assoc_unique(self.bids@)
        &&& bids_agree(self.bids@)
        &&& keys_sorted(self.unbonds@)
        &&& keys_sorted(self.balances@)
        &&& keys_sorted(self.main_purses@)
        &&& forall|p: u64| p >= self.next_purse ==> (#[trigger] assoc_find(self.balances@, p))
            is None
    }

    /// Every delegator record is backed by a validator record for the
    /// validator it points at.
    pub open spec fn delegators_backed(self) -> bool {
        forall|v: PublicKey, d: PublicKey|
            (#[trigger] assoc_find(self.bids@, BidAddr::Delegator(v, d))) is Some ==> (assoc_find(
                self.bids@,
                BidAddr::Validator(v),
            ) matches Some(BidKind::Validator(_)))
    }

    /// The record stored under `addr`.
    pub open spec fn spec_bid(self, addr: BidAddr) -> Option<BidKind> {
        assoc_find(self.bids@, addr)
    }

    /// The unbond list of `account`; absent and empty are alike.
    pub open spec fn spec_unbonds(self, account: AccountHash) -> Seq<UnbondingPurse> {
        match assoc_find(self.unbonds@, account.value) {
            Some(list) => list@,
            None => Seq::empty(),
        }
    }

    /// The balance of the purse `uref`, if the purse exists.
    pub open spec fn spec_balance(self, uref: URef) -> Option<u128> {
        assoc_find(self.balances@, uref.id)
    }

    /// An empty store; the caller starts out as the system account.
    pub fn new() -> (r: Store)
        ensures
            r.wf(),
            r.delegators_backed(),
            r.bids@.len() == 0,
            r.unbonds@.len() == 0,
            r.balances@.len() == 0,
            r.main_purses@.len() == 0,
            r.caller == (PublicKey { id: crate::keys::SYSTEM_KEY_ID }).account_hash(),
            r.era_id is Absent,
            r.era_end_timestamp_millis is Absent,
            r.auction_delay is Absent,
            r.unbonding_delay is Absent,
            r.validator_slots is Absent,
            r.snapshot is Absent,
    {
        Store {
            bids: Vec::new(),
            unbonds: Vec::new(),
            balances: Vec::new(),
            main_purses: Vec::new(),
            next_purse: 1,
            caller: AccountHash { value: crate::keys::SYSTEM_KEY_ID },
            era_id: NamedValue::Absent,
            era_end_timestamp_millis: NamedValue::Absent,
            auction_delay: NamedValue::Absent,
            unbonding_delay: NamedValue::Absent,
            validator_slots: NamedValue::Absent,
            snapshot: NamedValue::Absent,
        }
    }

    /// The account invoking the current entry point.
    pub fn get_caller(&self) -> (r: AccountHash)
        ensures
            r == self.caller,
    {
        self.caller
    }

    /// Finds the index of `addr` in the bid space.
    fn bid_index_of(&self, addr: BidAddr) -> (r: Option<usize>)
        ensures
            match r {
                Some(i) => i < self.bids@.len() && self.bids@[i as int].0 == addr && self.spec_bid(
                    addr,
                ) == Some(self.bids@[i as int].1),
                None => self.spec_bid(addr) is None,
            },
    {
        let mut i: usize = 0;
        while i < self.bids.len()
            invariant
                i <= self.bids@.len(),
                forall|j: int| 0 <= j < i ==> self.bids@[j].0 != addr,
            decreases self.bids@.len() - i,
        {
            if self.bids[i].0 == addr {
                proof {
                    lemma_find_at(self.bids@, addr, i as int);
                }
                return Some(i);
            }
            i = i + 1;
        }
        proof {
            lemma_find_absent(self.bids@, addr);
        }
        None
    }

    /// Reads the record under `addr`, if any.
    pub fn read_bid(&self, addr: BidAddr) -> (r: Option<BidKind>)
        ensures
            r == self.spec_bid(addr),
            self.wf() && r is Some ==> addr_record_agree(addr, r->Some_0),
    {
        proof {
            if self.wf() && self.spec_bid(addr) is Some {
                lemma_find_implies_agree(self.bids@, addr);
            }
        }
        match self.bid_index_of(addr) {
            Some(i) => Some(self.bids[i].1),
            None => None,
        }
    }

    /// Writes `kind` under `addr`, replacing any previous record.
    pub fn write_bid(&mut self, addr: BidAddr, kind: BidKind)
        requires
            old(self).wf(),
            addr_record_agree(addr, kind),
        ensures
            final(self).wf(),
            forall|a2: BidAddr| #![trigger final(self).spec_bid(a2)]
                final(self).spec_bid(a2) == (if a2 == addr {
                    Some(kind)
                } else {
                    old(self).spec_bid(a2)
                }),
            forall|v: PublicKey| #![trigger delegator_count_of(final(self).bids@, v)]
                delegator_count_of(final(self).bids@, v) == delegator_count_of(old(self).bids@, v)
                    + (if addr.is_delegator_of(v) && old(self).spec_bid(addr) is None {
                    1nat
                } else {
                    0nat
                }),
            forall|v: PublicKey| #![trigger delegator_records_of(final(self).bids@, v)]
                !addr.is_delegator_of(v) ==> delegator_records_of(final(self).bids@, v)
                    == delegator_records_of(old(self).bids@, v),
            *final(self) == (Store { bids: final(self).bids, ..*old(self) }),
    {
        let ghost s0 = self.bids@;
        match self.bid_index_of(addr) {
            Some(i) => {
                self.bids[i] = (addr, kind);
                proof {
                    assert forall|a2: BidAddr| #![trigger assoc_find(self.bids@, a2)]
                        assoc_find(self.bids@, a2) == (if a2 == addr {
                            Some(kind)
                        } else {
                            assoc_find(s0, a2)
                        }) by {
                        lemma_find_update(s0, i as int, kind, a2);
                    }
                    assert forall|v: PublicKey|
                        #![trigger delegator_count_of(self.bids@, v)]
                        delegator_count_of(self.bids@, v) == delegator_count_of(s0, v) by {
                        lemma_count_keys_only(s0, self.bids@, v);
                    }
                    assert forall|v: PublicKey|
                        #![trigger delegator_records_of(self.bids@, v)]
                        !addr.is_delegator_of(v) implies delegator_records_of(self.bids@, v)
                        == delegator_records_of(s0, v) by {
                        lemma_records_agree(s0, self.bids@, v);
                    }
                }
            },
            None => {
                self.bids.push((addr, kind));
                proof {
                    assert forall|a2: BidAddr| #![trigger assoc_find(self.bids@, a2)]
                        assoc_find(self.bids@, a2) == (if a2 == addr {
                            Some(kind)
                        } else {
                            assoc_find(s0, a2)
                        }) by {
                        lemma_find_push(s0, a2, addr, kind);
                    }
                    assert(assoc_unique(self.bids@)) by {
                        assert(forall|j: int| 0 <= j < s0.len() ==> s0[j].0 != addr) by {
                            if exists|j: int| 0 <= j < s0.len() && s0[j].0 == addr {
                                let j = choose|j: int| 0 <= j < s0.len() && s0[j].0 == addr;
                                crate::assoc::lemma_find_present(s0, addr, j);
                            }
                        }
                    }
                    assert forall|v: PublicKey|
                        #![trigger delegator_count_of(self.bids@, v)]
                        delegator_count_of(self.bids@, v) == delegator_count_of(s0, v) + (
                        if addr.is_delegator_of(v) {
                            1nat
                        } else {
                            0nat
                        }) by {
                        lemma_count_push(s0, (addr, kind), v);
                    }
                    assert forall|v: PublicKey|
                        #![trigger delegator_records_of(self.bids@, v)]
                        !addr.is_delegator_of(v) implies delegator_records_of(self.bids@, v)
                        == delegator_records_of(s0, v) by {
                        lemma_records_push(s0, (addr, kind), v);
                    }
                }
            },
        }
    }

    /// Removes the record under `addr`, if any.
    pub fn prune_bid(&mut self, addr: BidAddr)
        requires
            old(self).wf(),
        ensures
            final(self).wf(),
            forall|a2: BidAddr| #![trigger final(self).spec_bid(a2)]
                final(self).spec_bid(a2) == (if a2 == addr {
                    None
                } else {
                    old(self).spec_bid(a2)
                }),
            forall|v: PublicKey| #![trigger delegator_count_of(final(self).bids@, v)]
                delegator_count_of(old(self).bids@, v) == delegator_count_of(final(self).bids@, v)
                    + (if addr.is_delegator_of(v) && old(self).spec_bid(addr) is Some {
                    1nat
                } else {
                    0nat
                }),
            forall|v: PublicKey| #![trigger delegator_records_of(final(self).bids@, v)]
                !addr.is_delegator_of(v) ==> delegator_records_of(final(self).bids@, v)
                    == delegator_records_of(old(self).bids@, v),
            *final(self) == (Store { bids: final(self).bids, ..*old(self) }),
    {
        let ghost s0 = self.bids@;
        match self.bid_index_of(addr) {
            Some(i) => {
                self.bids.remove(i);
                proof {
                    assert forall|a2: BidAddr| #![trigger assoc_find(self.bids@, a2)]
                        assoc_find(self.bids@, a2) == (if a2 == addr {
                            None::<BidKind>
                        } else {
                            assoc_find(s0, a2)
                        }) by {
                        lemma_find_remove(s0, i as int, a2);
                    }
                    assert(assoc_unique(self.bids@)) by {
                        assert(forall|j: int|
                            0 <= j < self.bids@.len() ==> #[trigger] self.bids@[j] == (if j < i {
                                s0[j]
                            } else {
                                s0[j + 1]
                            }));
                    }
                    assert(bids_agree(self.bids@)) by {
                        assert(forall|j: int|
                            0 <= j < self.bids@.len() ==> #[trigger] self.bids@[j] == (if j < i {
                                s0[j]
                            } else {
                                s0[j + 1]
                            }));
                    }
                    assert forall|v: PublicKey|
                        #![trigger delegator_count_of(self.bids@, v)]
                        delegator_count_of(s0, v) == delegator_count_of(self.bids@, v) + (
                        if addr.is_delegator_of(v) {
                            1nat
                        } else {
                            0nat
                        }) by {
                        lemma_count_remove(s0, i as int, v);
                    }
                    assert forall|v: PublicKey|
                        #![trigger delegator_records_of(self.bids@, v)]
                        !addr.is_delegator_of(v) implies delegator_records_of(self.bids@, v)
                        == delegator_records_of(s0, v) by {
                        lemma_records_remove_other(s0, i as int, v);
                    }
                }
            },
            None => {},
        }
    }

    /// How many delegator records point at `validator`.
    pub fn delegator_count(&self, validator: &PublicKey) -> (r: usize)
        ensures
            r == delegator_count_of(self.bids@, *validator),
    {
        proof {
            lemma_count_le_len(self.bids@, *validator);
        }
        let mut count: usize = 0;
        let mut i: usize = 0;
        while i < self.bids.len()
            invariant
                i <= self.bids@.len(),
                count == delegator_count_of(self.bids@.take(i as int), *validator),
                count <= i,
            decreases self.bids@.len() - i,
        {
            let is_match: bool = match &self.bids[i].0 {
                BidAddr::Delegator(v, _) => v.id == validator.id,
                _ => false,
            };
            proof {
                assert(self.bids@.take(i + 1 as int) =~= self.bids@.take(i as int).push(
                    self.bids@[i as int],
                ));
                lemma_count_push(self.bids@.take(i as int), self.bids@[i as int], *validator);
            }
            if is_match {
                count = count + 1;
            }
            i = i + 1;
        }
        proof {
            assert(self.bids@.take(self.bids@.len() as int) =~= self.bids@);
        }
        count
    }

    /// The delegator records pointing at `validator`, in store order; the
    /// enumeration a delegator-prefix key scan would yield.
    pub fn delegator_bids_of(&self, validator: &PublicKey) -> (r: Vec<Delegator>)
        ensures
            r@ == delegator_records_of(self.bids@, *validator),
    {
        let mut r: Vec<Delegator> = Vec::new();
        let mut i: usize = 0;
        while i < self.bids.len()
            invariant
                i <= self.bids@.len(),
                r@ == delegator_records_of(self.bids@.take(i as int), *validator),
            decreases self.bids@.len() - i,
        {
            proof {
                assert(self.bids@.take(i + 1 as int) =~= self.bids@.take(i as int).push(
                    self.bids@[i as int],
                ));
                lemma_records_push(self.bids@.take(i as int), self.bids@[i as int], *validator);
            }
            let is_match: bool = match &self.bids[i].0 {
                BidAddr::Delegator(v, _) => v.id == validator.id,
                _ => false,
            };
            if is_match {
                match &self.bids[i].1 {
                    BidKind::Delegator(d) => {
                        r.push(*d);
                    },
                    _ => {},
                }
            }
            i = i + 1;
        }
        proof {
            assert(self.bids@.take(self.bids@.len() as int) =~= self.bids@);
        }
        r
    }

    /// The unbond list of `account`; an absent list reads as empty.
    pub fn read_unbonds(&self, account: AccountHash) -> (r: Vec<UnbondingPurse>)
        ensures
            r@ == self.spec_unbonds(account),
    {
        match map_get_ref(&self.unbonds, account.value) {
            Some(list) => copy_vec(list),
            None => Vec::new(),
        }
    }

    /// Replaces the unbond list of `account`.
    pub fn write_unbonds(&mut self, account: AccountHash, list: Vec<UnbondingPurse>)
        requires
            old(self).wf(),
        ensures
            final(self).wf(),
            forall|a2: AccountHash| #![trigger final(self).spec_unbonds(a2)]
                final(self).spec_unbonds(a2) == (if a2.value == account.value {
                    list@
                } else {
                    old(self).spec_unbonds(a2)
                }),
            *final(self) == (Store { unbonds: final(self).unbonds, ..*old(self) }),
    {
        map_set(&mut self.unbonds, account.value, list);
    }

    /// Mints a fresh purse with a zero balance.
    pub fn create_purse(&mut self) -> (r: Result<URef, Error>)
        requires
            old(self).wf(),
        ensures
            final(self).wf(),
            old(self).next_purse < u64::MAX ==> (match r {
                Ok(uref) => uref.id == old(self).next_purse && final(self).next_purse == old(
                    self,
                ).next_purse + 1 && old(self).spec_balance(uref) is None && (forall|u2: URef|
                    #![trigger final(self).spec_balance(u2)]
                    final(self).spec_balance(u2) == (if u2.id == uref.id {
                        Some(0u128)
                    } else {
                        old(self).spec_balance(u2)
                    })),
                Err(_) => false,
            }),
            old(self).next_purse == u64::MAX ==> r == Err::<URef, Error>(Error::InvalidAmount)
                && *final(self) == *old(self),
            *final(self) == (Store {
                balances: final(self).balances,
                next_purse: final(self).next_purse,
                ..*old(self)
            }),
    {
        if self.next_purse == u64::MAX {
            return Err(Error::InvalidAmount);
        }
        let id: u64 = self.next_purse;
        map_set(&mut self.balances, id, 0u128);
        self.next_purse = id + 1;
        Ok(URef { id })
    }

    /// The available balance of `uref`, if the purse exists.
    pub fn available_balance(&self, uref: URef) -> (r: Option<u128>)
        ensures
            r == self.spec_balance(uref),
    {
        match map_get_ref(&self.balances, uref.id) {
            Some(b) => Some(*b),
            None => None,
        }
    }

    /// Moves `amount` from `source` to `target` in the purse ledger, as
    /// the mint would on a system-authorized transfer. Fails when either
    /// purse is unknown, the source balance is short, or the target
    /// balance cannot take the amount.
    pub fn mint_transfer_direct(&mut self, source: URef, target: URef, amount: u128) -> (r: Result<
        (),
        Error,
    >)
        requires
            old(self).wf(),
        ensures
            final(self).wf(),
            *final(self) == (Store { balances: final(self).balances, ..*old(self) }),
            old(self).spec_balance(source) is None ==> r == Err::<(), Error>(
                Error::MintSourceNotFound,
            ) && *final(self) == *old(self),
            old(self).spec_balance(source) matches Some(sb) && old(self).spec_balance(target)
                is None ==> r == Err::<(), Error>(Error::MintDestinationNotFound) && *final(self)
                == *old(self),
            old(self).spec_balance(source) matches Some(sb) && sb < amount && old(
                self,
            ).spec_balance(target) is Some ==> r == Err::<(), Error>(Error::MintInsufficientFunds)
                && *final(self) == *old(self),
            source.id == target.id && (old(self).spec_balance(source) matches Some(sb) && sb
                >= amount) ==> r == Ok::<(), Error>(()) && *final(self) == *old(self),
            source.id != target.id && (old(self).spec_balance(source) matches Some(sb) && sb
                >= amount) && (old(self).spec_balance(target) matches Some(tb) && tb + amount
                > u128::MAX) ==> r == Err::<(), Error>(Error::InvalidAmount) && *final(self)
                == *old(self),
            source.id != target.id && (old(self).spec_balance(source) matches Some(sb) && sb
                >= amount) && (old(self).spec_balance(target) matches Some(tb) && tb + amount
                <= u128::MAX) ==> r == Ok::<(), Error>(()) && (forall|u2: URef|
                #![trigger final(self).spec_balance(u2)]
                final(self).spec_balance(u2) == (if u2.id == source.id {
                    Some((old(self).spec_balance(source)->Some_0 - amount) as u128)
                } else if u2.id == target.id {
                    Some((old(self).spec_balance(target)->Some_0 + amount) as u128)
                } else {
                    old(self).spec_balance(u2)
                })),
    {
        let source_balance: u128 = match self.available_balance(source) {
            Some(b) => b,
            None => {
                return Err(Error::MintSourceNotFound);
            },
        };
        let target_balance: u128 = match self.available_balance(target) {
            Some(b) => b,
            None => {
                return Err(Error::MintDestinationNotFound);
            },
        };
        if source_balance < amount {
            return Err(Error::MintInsufficientFunds);
        }
        if source.id == target.id {
            return Ok(());
        }
        match target_balance.checked_add(amount) {
            Some(new_target) => {
                map_set(&mut self.balances, source.id, source_balance - amount);
                map_set(&mut self.balances, target.id, new_target);
                Ok(())
            },
            None => Err(Error::InvalidAmount),
        }
    }

    /// Sets the balance of `uref` outright, registering the purse if it
    /// is new; genesis and test plumbing.
    pub fn set_balance(&mut self, uref: URef, amount: u128)
        requires
            old(self).wf(),
            uref.id < u64::MAX,
        ensures
            final(self).wf(),
            forall|u2: URef| #![trigger final(self).spec_balance(u2)]
                final(self).spec_balance(u2) == (if u2.id == uref.id {
                    Some(amount)
                } else {
                    old(self).spec_balance(u2)
                }),
            *final(self) == (Store {
                balances: final(self).balances,
                next_purse: final(self).next_purse,
                ..*old(self)
            }),
    {
        map_set(&mut self.balances, uref.id, amount);
        if self.next_purse <= uref.id {
            self.next_purse = uref.id + 1;
        }
    }

    /// The main purse of `account`, where withdrawn funds are paid.
    pub fn main_purse_of(&self, account: AccountHash) -> (r: Option<URef>)
        ensures
            r == assoc_find(self.main_purses@, account.value),
    {
        match map_get_ref(&self.main_purses, account.value) {
            Some(u) => Some(*u),
            None => None,
        }
    }

    /// Registers the main purse of `account`; test and setup plumbing.
    pub fn set_main_purse(&mut self, account: AccountHash, uref: URef)
        requires
            old(self).wf(),
        ensures
            final(self).wf(),
            forall|a2: AccountHash| #![trigger assoc_find(final(self).main_purses@, a2.value)]
                assoc_find(final(self).main_purses@, a2.value) == (if a2.value == account.value {
                    Some(uref)
                } else {
                    assoc_find(old(self).main_purses@, a2.value)
                }),
            *final(self) == (Store { main_purses: final(self).main_purses, ..*old(self) }),
    {
        map_set(&mut self.main_purses, account.value, uref);
    }
}

/// A stored pair that is a delegator record of `v` appears in `v`'s
/// record list.
pub proof fn lemma_entry_in_records(s: Seq<(BidAddr, BidKind)>, v: PublicKey, i: int)
    requires
        0 <= i < s.len(),
        s[i].0.is_delegator_of(v),
        s[i].1 is Delegator,
    ensures
        delegator_records_of(s, v).contains(s[i].1->Delegator_0),
    decreases i,
{
    if i == 0 {
        assert(delegator_records_of(s, v)[0] == s[0].1->Delegator_0);
    } else {
        lemma_entry_in_records(s.drop_first(), v, i - 1);
        let rest = delegator_records_of(s.drop_first(), v);
        let j = choose|j: int| 0 <= j < rest.len() && rest[j] == s[i].1->Delegator_0;
        if s[0].0.is_delegator_of(v) && s[0].1 is Delegator {
            assert(delegator_records_of(s, v)[j + 1] == s[i].1->Delegator_0);
        } else {
            assert(delegator_records_of(s, v)[j] == s[i].1->Delegator_0);
        }
    }
}

/// A present delegator bid of `(v, d)` is a delegator record of `v` in
/// its record list, carrying `d` as its own key.
pub proof fn lemma_find_to_record(s: Seq<(BidAddr, BidKind)>, v: PublicKey, d: PublicKey)
    requires
        bids_agree(s),
        assoc_find(s, BidAddr::Delegator(v, d)) is Some,
    ensures
        (assoc_find(s, BidAddr::Delegator(v, d)) matches Some(BidKind::Delegator(db))
            && db.delegator_public_key == d && db.validator_public_key == v
            && delegator_records_of(s, v).contains(db)),
{
    lemma_find_implies_agree(s, BidAddr::Delegator(v, d));
    crate::assoc::lemma_find_some_implies_at(s, BidAddr::Delegator(v, d));
    let i = choose|i: int|
        0 <= i < s.len() && #[trigger] s[i] == (
        BidAddr::Delegator(v, d),
        assoc_find(s, BidAddr::Delegator(v, d))->Some_0,
    );
    lemma_entry_in_records(s, v, i);
}

/// Each record in `v`'s record list is stored as the delegator bid of
/// `(v, its own key)`.
pub proof fn lemma_record_to_find(s: Seq<(BidAddr, BidKind)>, v: PublicKey, k: int)
    requires
        assoc_unique(s),
        bids_agree(s),
        0 <= k < delegator_records_of(s, v).len(),
    ensures
        ({
            let db = delegator_records_of(s, v)[k];
            assoc_find(s, BidAddr::Delegator(v, db.delegator_public_key)) == Some(
                BidKind::Delegator(db),
            )
        }),
    decreases s.len(),
{
    let db = delegator_records_of(s, v)[k];
    let rest = s.drop_first();
    assert(forall|j: int| 0 <= j < rest.len() ==> #[trigger] rest[j] == s[j + 1]);
    if s[0].0.is_delegator_of(v) && s[0].1 is Delegator {
        let db0 = s[0].1->Delegator_0;
        if k == 0 {
            assert(s[0].0 == BidAddr::Delegator(v, db0.delegator_public_key));
        } else {
            lemma_record_to_find(rest, v, k - 1);
            assert(delegator_records_of(rest, v)[k - 1] == db);
            crate::assoc::lemma_find_some_implies_at(
                rest,
                BidAddr::Delegator(v, db.delegator_public_key),
            );
            let j = choose|j: int|
                0 <= j < rest.len() && #[trigger] rest[j] == (
                BidAddr::Delegator(v, db.delegator_public_key),
                assoc_find(rest, BidAddr::Delegator(v, db.delegator_public_key))->Some_0,
            );
            assert(s[j + 1].0 == BidAddr::Delegator(v, db.delegator_public_key));
            assert(s[0].0 != BidAddr::Delegator(v, db.delegator_public_key));
        }
    } else {
        lemma_record_to_find(rest, v, k);
        assert(s[0].0 != BidAddr::Delegator(v, db.delegator_public_key));
    }
}

/// The records in `v`'s record list carry pairwise distinct delegator
/// keys.
pub proof fn lemma_records_distinct(s: Seq<(BidAddr, BidKind)>, v: PublicKey)
    requires
        assoc_unique(s),
        bids_agree(s),
    ensures
        forall|k1: int, k2: int|
            0 <= k1 < k2 < delegator_records_of(s, v).len()
                ==> (#[trigger] delegator_records_of(s, v)[k1]).delegator_public_key != (
            #[trigger] delegator_records_of(s, v)[k2]).delegator_public_key,
    decreases s.len(),
{
    if s.len() > 0 {
        let rest = s.drop_first();
        assert(forall|j: int| 0 <= j < rest.len() ==> #[trigger] rest[j] == s[j + 1]);
        lemma_records_distinct(rest, v);
        if s[0].0.is_delegator_of(v) && s[0].1 is Delegator {
            let db0 = s[0].1->Delegator_0;
            assert forall|k2: int|
                1 <= k2 < delegator_records_of(s, v).len() implies (#[trigger] delegator_records_of(
                s,
                v,
            )[k2]).delegator_public_key != db0.delegator_public_key by {
                let db = delegator_records_of(s, v)[k2];
                assert(delegator_records_of(rest, v)[k2 - 1] == db);
                lemma_record_to_find(rest, v, k2 - 1);
                if db.delegator_public_key == db0.delegator_public_key {
                    crate::assoc::lemma_find_some_implies_at(
                        rest,
                        BidAddr::Delegator(v, db.delegator_public_key),
                    );
                    let j = choose|j: int|
                        0 <= j < rest.len() && #[trigger] rest[j] == (
                        BidAddr::Delegator(v, db.delegator_public_key),
                        assoc_find(rest, BidAddr::Delegator(v, db.delegator_public_key))->Some_0,
                    );
                    assert(s[j + 1].0 == s[0].0);
                }
            }
            assert(forall|k1: int, k2: int|
                1 <= k1 < k2 < delegator_records_of(s, v).len()
                    ==> (#[trigger] delegator_records_of(s, v)[k1]).delegator_public_key != (
                #[trigger] delegator_records_of(s, v)[k2]).delegator_public_key) by {
                assert(forall|k: int|
                    1 <= k < delegator_records_of(s, v).len()
                        ==> #[trigger] delegator_records_of(s, v)[k] == delegator_records_of(
                        rest,
                        v,
                    )[k - 1]);
            }
        }
    }
}

/// Removing a pair at a key not pointing at `v` keeps `v`'s record list.
pub proof fn lemma_records_remove_other(s: Seq<(BidAddr, BidKind)>, i: int, v: PublicKey)
    requires
        0 <= i < s.len(),
        !s[i].0.is_delegator_of(v),
    ensures
        delegator_records_of(s.remove(i), v) == delegator_records_of(s, v),
    decreases s.len(),
{
    if i == 0 {
        assert(s.remove(0) =~= s.drop_first());
    } else {
        assert(s.remove(i)[0] == s[0]);
        assert(s.remove(i).drop_first() =~= s.drop_first().remove(i - 1));
        lemma_records_remove_other(s.drop_first(), i - 1, v);
    }
}

} // verus!
