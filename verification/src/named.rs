//! Access to the named configuration values.
//!
//! A named key resolves in one of four ways: it is absent, it is not a
//! purse reference, it is a purse with nothing under it, or it holds a
//! value. Reads and writes surface these as `MissingKey`,
//! `InvalidKeyVariant` and `MissingValue` exactly as the entry points do.

use vstd::prelude::*;

use crate::assoc::{assoc_find, copy_vec};
use crate::error::Error;
use crate::keys::AccountHash;
use crate::records::UnbondingPurse;
use crate::store::{NamedValue, SeigniorageRecipientsSnapshot, Store};

verus! {

/// What reading a named value yields.
pub open spec fn named_read<T>(nv: NamedValue<T>) -> Result<T, Error> {
    match nv {
        NamedValue::Present(v) => Ok(v),
        NamedValue::Absent => Err(Error::MissingKey),
        NamedValue::WrongVariant => Err(Error::InvalidKeyVariant),
        NamedValue::Empty => Err(Error::MissingValue),
    }
}

/// Whether a named value can be written through its named key.
pub open spec fn named_writable<T>(nv: NamedValue<T>) -> bool {
    match nv {
        NamedValue::Present(_) => true,
        NamedValue::Empty => true,
        NamedValue::Absent => false,
        NamedValue::WrongVariant => false,
    }
}

/// What a failed write through a named value reports.
pub open spec fn named_write_err<T>(nv: NamedValue<T>) -> Error {
    match nv {
        NamedValue::Absent => Error::MissingKey,
        _ => Error::InvalidKeyVariant,
    }
}

/// Reads a plainly copyable named value.
fn read_named<T: Copy>(nv: &NamedValue<T>) -> (r: Result<T, Error>)
    ensures
        r == named_read(*nv),
{
    match nv {
        NamedValue::Present(v) => Ok(*v),
        NamedValue::Absent => Err(Error::MissingKey),
        NamedValue::WrongVariant => Err(Error::InvalidKeyVariant),
        NamedValue::Empty => Err(Error::MissingValue),
    }
}

/// Writes a named value through its named key.
fn write_named<T>(nv: &mut NamedValue<T>, value: T) -> (r: Result<(), Error>)
    ensures
        named_writable(*old(nv)) ==> r == Ok::<(), Error>(()) && *final(nv)
            == NamedValue::Present(value),
        !named_writable(*old(nv)) ==> r == Err::<(), Error>(named_write_err(*old(nv)))
            && *final(nv) == *old(nv),
{
    match nv {
        NamedValue::Absent => Err(Error::MissingKey),
        NamedValue::WrongVariant => Err(Error::InvalidKeyVariant),
        _ => {
            *nv = NamedValue::Present(value);
            Ok(())
        },
    }
}

/// Reads the current era id.
pub fn get_era_id(store: &Store) -> (r: Result<u64, Error>)
    ensures
        r == named_read(store.era_id),
{
    read_named(&store.era_id)
}

/// Writes the current era id.
pub fn set_era_id(store: &mut Store, era_id: u64) -> (r: Result<(), Error>)
    ensures
        named_writable(old(store).era_id) ==> r == Ok::<(), Error>(()) && *final(store) == (Store {
            era_id: NamedValue::Present(era_id),
            ..*old(store)
        }),
        !named_writable(old(store).era_id) ==> r == Err::<(), Error>(
            named_write_err(old(store).era_id),
        ) && *final(store) == *old(store),
{
    write_named(&mut store.era_id, era_id)
}

/// Reads the timestamp at which the current era ends.
pub fn get_era_end_timestamp_millis(store: &Store) -> (r: Result<u64, Error>)
    ensures
        r == named_read(store.era_end_timestamp_millis),
{
    read_named(&store.era_end_timestamp_millis)
}

/// Writes the timestamp at which the current era ends.
pub fn set_era_end_timestamp_millis(store: &mut Store, era_end_timestamp_millis: u64) -> (r:
    Result<(), Error>)
    ensures
        named_writable(old(store).era_end_timestamp_millis) ==> r == Ok::<(), Error>(())
            && *final(store) == (Store {
            era_end_timestamp_millis: NamedValue::Present(era_end_timestamp_millis),
            ..*old(store)
        }),
        !named_writable(old(store).era_end_timestamp_millis) ==> r == Err::<(), Error>(
            named_write_err(old(store).era_end_timestamp_millis),
        ) && *final(store) == *old(store),
{
    write_named(&mut store.era_end_timestamp_millis, era_end_timestamp_millis)
}

/// Reads the auction delay.
pub fn get_auction_delay(store: &Store) -> (r: Result<u64, Error>)
    ensures
        r == named_read(store.auction_delay),
{
    read_named(&store.auction_delay)
}

/// Reads the unbonding delay.
pub(crate) fn get_unbonding_delay(store: &Store) -> (r: Result<u64, Error>)
    ensures
        r == named_read(store.unbonding_delay),
{
    read_named(&store.unbonding_delay)
}

/// Reads the number of validator slots.
pub fn get_validator_slots(store: &Store) -> (r: Result<usize, Error>)
    ensures
        (match named_read(store.validator_slots) {
            Ok(v) => r == Ok::<usize, Error>(v as usize),
            Err(e) => r == Err::<usize, Error>(e),
        }),
{
    match read_named(&store.validator_slots) {
        Ok(v) => Ok(v as usize),
        Err(e) => Err(e),
    }
}

/// Borrows the snapshot of upcoming seigniorage recipients.
pub fn get_seigniorage_recipients_snapshot(store: &Store) -> (r: Result<
    &SeigniorageRecipientsSnapshot,
    Error,
>)
    ensures
        (match store.snapshot {
            NamedValue::Present(_) => (r matches Ok(s) && store.snapshot
                == NamedValue::Present(*s)),
            NamedValue::Absent => r == Err::<&SeigniorageRecipientsSnapshot, Error>(
                Error::MissingKey,
            ),
            NamedValue::WrongVariant => r == Err::<&SeigniorageRecipientsSnapshot, Error>(
                Error::InvalidKeyVariant,
            ),
            NamedValue::Empty => r == Err::<&SeigniorageRecipientsSnapshot, Error>(
                Error::MissingValue,
            ),
        }),
{
    match &store.snapshot {
        NamedValue::Present(s) => Ok(s),
        NamedValue::Absent => Err(Error::MissingKey),
        NamedValue::WrongVariant => Err(Error::InvalidKeyVariant),
        NamedValue::Empty => Err(Error::MissingValue),
    }
}

/// Writes the snapshot of upcoming seigniorage recipients.
pub fn set_seigniorage_recipients_snapshot(
    store: &mut Store,
    snapshot: SeigniorageRecipientsSnapshot,
) -> (r: Result<(), Error>)
    ensures
        named_writable(old(store).snapshot) ==> r == Ok::<(), Error>(()) && *final(store)
            == (Store { snapshot: NamedValue::Present(snapshot), ..*old(store) }),
        !named_writable(old(store).snapshot) ==> r == Err::<(), Error>(
            named_write_err(old(store).snapshot),
        ) && *final(store) == *old(store),
{
    write_named(&mut store.snapshot, snapshot)
}

/// Reads every account's unbond list, keyed by account hash.
pub fn get_unbonding_purses(store: &Store) -> (r: Vec<(u64, Vec<UnbondingPurse>)>)
    ensures
        r@.len() == store.unbonds@.len(),
        forall|i: int| #![all_triggers] 0 <= i < r@.len() ==> r@[i].0 == store.unbonds@[i].0
            && r@[i].1@ == store.unbonds@[i].1@,
{
    let mut r: Vec<(u64, Vec<UnbondingPurse>)> = Vec::new();
    let mut i: usize = 0;
    while i < store.unbonds.len()
        invariant
            i <= store.unbonds@.len(),
            r@.len() == i,
            forall|j: int| #![all_triggers] 0 <= j < i ==> r@[j].0 == store.unbonds@[j].0
                && r@[j].1@ == store.unbonds@[j].1@,
        decreases store.unbonds@.len() - i,
    {
        let account: u64 = store.unbonds[i].0;
        let list: Vec<UnbondingPurse> = copy_vec(&store.unbonds[i].1);
        r.push((account, list));
        i = i + 1;
    }
    r
}

/// Writes back every account's unbond list.
pub fn set_unbonding_purses(store: &mut Store, unbonding_purses: Vec<(u64, Vec<UnbondingPurse>)>)
    requires
        old(store).wf(),
    ensures
        final(store).wf(),
        forall|a: AccountHash| #![trigger final(store).spec_unbonds(a)]
            final(store).spec_unbonds(a) == (match assoc_find(unbonding_purses@, a.value) {
                Some(list) => list@,
                None => old(store).spec_unbonds(a),
            }),
        *final(store) == (Store { unbonds: final(store).unbonds, ..*old(store) }),
{
    let ghost orig = unbonding_purses@;
    let mut rest = unbonding_purses;
    while rest.len() > 0
        invariant
            store.wf(),
            rest@ == orig.take(rest@.len() as int),
            rest@.len() <= orig.len(),
            forall|a: AccountHash| #![trigger store.spec_unbonds(a)]
                store.spec_unbonds(a) == (match assoc_find(orig.skip(rest@.len() as int), a.value) {
                    Some(list) => list@,
                    None => old(store).spec_unbonds(a),
                }),
            *store == (Store { unbonds: store.unbonds, ..*old(store) }),
        decreases rest@.len(),
    {
        let ghost n = rest@.len() as int;
        let entry = rest.pop().unwrap();
        let account: u64 = entry.0;
        let list = entry.1;
        proof {
            assert(rest@ =~= orig.take(n - 1));
            assert(orig.skip(n - 1)[0] == orig[n - 1]);
            assert(orig.skip(n - 1).drop_first() =~= orig.skip(n));
        }
        let ghost pre = *store;
        store.write_unbonds(AccountHash { value: account }, list);
        proof {
            assert forall|a: AccountHash| #![trigger store.spec_unbonds(a)]
                store.spec_unbonds(a) == (match assoc_find(orig.skip(n - 1), a.value) {
                    Some(l) => l@,
                    None => old(store).spec_unbonds(a),
                }) by {
                if a.value != account {
                    assert(store.spec_unbonds(a) == pre.spec_unbonds(a));
                }
            }
        }
    }
    proof {
        assert(orig.skip(0) =~= orig);
    }
}

} // verus!
