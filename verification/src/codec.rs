//! Canonical byte serialization of the stored record types.
//!
//! Every field is encoded at a fixed position in little-endian order;
//! variable-length parts carry a length prefix. For each record type the
//! parser is proven to return exactly the serialized value, wherever the
//! encoding stands in a buffer.

use vstd::prelude::*;

use crate::error::Error;
use crate::keys::{PublicKey, URef};
use crate::records::{BridgeRecord, Delegator, SeigniorageRecipient, UnbondingPurse,
    ValidatorBid, ValidatorCredit, VestingSchedule};
use crate::whitelist_entry::WhitelistEntry;
use crate::entity_costs::EntityCosts;

verus! {

/// The eight little-endian bytes of a 64-bit value.
pub open spec fn spec_ser_u64(x: u64) -> Seq<u8> {
    seq![
        x as u8,
        (x >> 8) as u8,
        (x >> 16) as u8,
        (x >> 24) as u8,
        (x >> 32) as u8,
        (x >> 40) as u8,
        (x >> 48) as u8,
        (x >> 56) as u8,
    ]
}

/// The 64-bit value read at `pos`, with the next position.
pub open spec fn spec_parse_u64(s: Seq<u8>, pos: int) -> Option<(u64, int)> {
    if 0 <= pos && pos + 8 <= s.len() {
        Some(
            (
                (s[pos] as u64) | (s[pos + 1] as u64) << 8 | (s[pos + 2] as u64) << 16 | (s[pos
                    + 3] as u64) << 24 | (s[pos + 4] as u64) << 32 | (s[pos + 5] as u64) << 40 | (
                s[pos + 6] as u64) << 48 | (s[pos + 7] as u64) << 56,
                pos + 8,
            ),
        )
    } else {
        None
    }
}

/// Law: reading the eight serialized bytes of a value back yields it.
pub proof fn lemma_u64_roundtrip(s: Seq<u8>, pos: int, x: u64)
    requires
        0 <= pos,
        pos + 8 <= s.len(),
        s.subrange(pos, pos + 8) == spec_ser_u64(x),
    ensures
        spec_parse_u64(s, pos) == Some((x, pos + 8)),
{
    assert(forall|i: int| 0 <= i < 8 ==> s[pos + i] == #[trigger] spec_ser_u64(x)[i]);
    let b0 = x as u8;
    let b1 = (x >> 8) as u8;
    let b2 = (x >> 16) as u8;
    let b3 = (x >> 24) as u8;
    let b4 = (x >> 32) as u8;
    let b5 = (x >> 40) as u8;
    let b6 = (x >> 48) as u8;
    let b7 = (x >> 56) as u8;
    assert((b0 as u64) | (b1 as u64) << 8 | (b2 as u64) << 16 | (b3 as u64) << 24 | (b4 as u64)
        << 32 | (b5 as u64) << 40 | (b6 as u64) << 48 | (b7 as u64) << 56 == x) by (bit_vector)
        requires
            b0 == x as u8,
            b1 == (x >> 8) as u8,
            b2 == (x >> 16) as u8,
            b3 == (x >> 24) as u8,
            b4 == (x >> 32) as u8,
            b5 == (x >> 40) as u8,
            b6 == (x >> 48) as u8,
            b7 == (x >> 56) as u8,
    ;
}

/// A piece of a serialized whole standing at `pos` is itself at its
/// offset: splits one subrange equation into a component's.
pub proof fn lemma_subrange_part(s: Seq<u8>, pos: int, a: int, b: int, whole: Seq<u8>, part: Seq<
    u8,
>)
    requires
        0 <= pos,
        0 <= a <= b <= whole.len(),
        pos + whole.len() <= s.len(),
        s.subrange(pos, pos + whole.len()) == whole,
        part.len() == b - a,
        forall|j: int| 0 <= j < b - a ==> #[trigger] part[j] == whole[a + j],
    ensures
        s.subrange(pos + a, pos + b) == part,
{
    assert forall|j: int| 0 <= j < b - a implies #[trigger] s.subrange(pos + a, pos + b)[j]
        == part[j] by {
        assert(s.subrange(pos, pos + whole.len())[a + j] == s[pos + a + j]);
        assert(s.subrange(pos + a, pos + b)[j] == s[pos + a + j]);
    }
    assert(s.subrange(pos + a, pos + b) =~= part);
}

/// Appends the eight little-endian bytes of `x`.
fn write_u64(out: &mut Vec<u8>, x: u64)
    ensures
        final(out)@ == old(out)@ + spec_ser_u64(x),
{
    out.push(#[verifier::truncate] (x as u8));
    out.push(#[verifier::truncate] ((x >> 8) as u8));
    out.push(#[verifier::truncate] ((x >> 16) as u8));
    out.push(#[verifier::truncate] ((x >> 24) as u8));
    out.push(#[verifier::truncate] ((x >> 32) as u8));
    out.push(#[verifier::truncate] ((x >> 40) as u8));
    out.push(#[verifier::truncate] ((x >> 48) as u8));
    out.push(#[verifier::truncate] ((x >> 56) as u8));
    assert(out@ =~= old(out)@ + spec_ser_u64(x));
}

/// Reads a 64-bit value at `pos`.
fn read_u64(bytes: &[u8], pos: usize) -> (r: Result<(u64, usize), Error>)
    ensures
        (match spec_parse_u64(bytes@, pos as int) {
            Some((x, end)) => (r matches Ok(v) && v.0 == x && v.1 == end),
            None => r == Err::<(u64, usize), Error>(Error::Serialization),
        }),
{
    let n: usize = bytes.len();
    match pos.checked_add(8) {
        Some(end) => {
            if end <= n {
                let x: u64 = (bytes[pos] as u64) | (bytes[pos + 1] as u64) << 8 | (bytes[pos
                    + 2] as u64) << 16 | (bytes[pos + 3] as u64) << 24 | (bytes[pos + 4] as u64)
                    << 32 | (bytes[pos + 5] as u64) << 40 | (bytes[pos + 6] as u64) << 48 | (
                bytes[pos + 7] as u64) << 56;
                Ok((x, end))
            } else {
                Err(Error::Serialization)
            }
        },
        None => Err(Error::Serialization),
    }
}

/// The sixteen little-endian bytes of a 128-bit value.
pub open spec fn spec_ser_u128(x: u128) -> Seq<u8> {
    spec_ser_u64(x as u64) + spec_ser_u64((x >> 64) as u64)
}

/// The 128-bit value read at `pos`, with the next position.
pub open spec fn spec_parse_u128(s: Seq<u8>, pos: int) -> Option<(u128, int)> {
    match spec_parse_u64(s, pos) {
        None => None,
        Some((lo, p1)) => match spec_parse_u64(s, p1) {
            None => None,
            Some((hi, p2)) => Some(((lo as u128) | (hi as u128) << 64, p2)),
        },
    }
}

/// Law: reading the sixteen serialized bytes of a value back yields it.
pub proof fn lemma_u128_roundtrip(s: Seq<u8>, pos: int, x: u128)
    requires
        0 <= pos,
        pos + 16 <= s.len(),
        s.subrange(pos, pos + 16) == spec_ser_u128(x),
    ensures
        spec_parse_u128(s, pos) == Some((x, pos + 16)),
{
    let lo = x as u64;
    let hi = (x >> 64) as u64;
    lemma_subrange_part(s, pos, 0, 8, spec_ser_u128(x), spec_ser_u64(lo));
    lemma_subrange_part(s, pos, 8, 16, spec_ser_u128(x), spec_ser_u64(hi));
    lemma_u64_roundtrip(s, pos, lo);
    lemma_u64_roundtrip(s, pos + 8, hi);
    assert((lo as u128) | (hi as u128) << 64 == x) by (bit_vector)
        requires
            lo == x as u64,
            hi == (x >> 64) as u64,
    ;
}

/// Appends the sixteen little-endian bytes of `x`.
fn write_u128(out: &mut Vec<u8>, x: u128)
    ensures
        final(out)@ == old(out)@ + spec_ser_u128(x),
{
    write_u64(out, #[verifier::truncate] (x as u64));
    write_u64(out, #[verifier::truncate] ((x >> 64) as u64));
    assert(out@ =~= old(out)@ + spec_ser_u128(x));
}

/// Reads a 128-bit value at `pos`.
fn read_u128(bytes: &[u8], pos: usize) -> (r: Result<(u128, usize), Error>)
    ensures
        (match spec_parse_u128(bytes@, pos as int) {
            Some((x, end)) => (r matches Ok(v) && v.0 == x && v.1 == end),
            None => r == Err::<(u128, usize), Error>(Error::Serialization),
        }),
{
    let (lo, p1) = match read_u64(bytes, pos) {
        Ok(v) => v,
        Err(e) => {
            return Err(e);
        },
    };
    let (hi, p2) = match read_u64(bytes, p1) {
        Ok(v) => v,
        Err(e) => {
            return Err(e);
        },
    };
    Ok(((lo as u128) | (hi as u128) << 64, p2))
}

/// The single canonical byte of a flag.
pub open spec fn spec_ser_bool(x: bool) -> Seq<u8> {
    if x {
        seq![1u8]
    } else {
        seq![0u8]
    }
}

/// The flag read at `pos`; any byte but 0 or 1 is rejected.
pub open spec fn spec_parse_bool(s: Seq<u8>, pos: int) -> Option<(bool, int)> {
    if 0 <= pos && pos + 1 <= s.len() {
        if s[pos] == 0 {
            Some((false, pos + 1))
        } else if s[pos] == 1 {
            Some((true, pos + 1))
        } else {
            None
        }
    } else {
        None
    }
}

/// Law: reading the serialized byte of a flag back yields it.
pub proof fn lemma_bool_roundtrip(s: Seq<u8>, pos: int, x: bool)
    requires
        0 <= pos,
        pos + 1 <= s.len(),
        s.subrange(pos, pos + 1) == spec_ser_bool(x),
    ensures
        spec_parse_bool(s, pos) == Some((x, pos + 1)),
{
    assert(s[pos] == spec_ser_bool(x)[0]);
}

/// Appends the canonical byte of `x`.
fn write_bool(out: &mut Vec<u8>, x: bool)
    ensures
        final(out)@ == old(out)@ + spec_ser_bool(x),
{
    if x {
        out.push(1u8);
    } else {
        out.push(0u8);
    }
    assert(out@ =~= old(out)@ + spec_ser_bool(x));
}

/// Reads a flag at `pos`.
fn read_bool(bytes: &[u8], pos: usize) -> (r: Result<(bool, usize), Error>)
    ensures
        (match spec_parse_bool(bytes@, pos as int) {
            Some((x, end)) => (r matches Ok(v) && v.0 == x && v.1 == end),
            None => r == Err::<(bool, usize), Error>(Error::Serialization),
        }),
{
    if pos < bytes.len() {
        if bytes[pos] == 0 {
            Ok((false, pos + 1))
        } else if bytes[pos] == 1 {
            Ok((true, pos + 1))
        } else {
            Err(Error::Serialization)
        }
    } else {
        Err(Error::Serialization)
    }
}

/// A vesting schedule: release timestamp, then the initialized flag.
pub open spec fn spec_ser_vesting_schedule(x: VestingSchedule) -> Seq<u8> {
    spec_ser_u64(x.initial_release_timestamp_millis) + spec_ser_bool(x.initialized)
}

/// The vesting schedule read at `pos`, with the next position.
pub open spec fn spec_parse_vesting_schedule(s: Seq<u8>, pos: int) -> Option<(
    VestingSchedule,
    int,
)> {
    match spec_parse_u64(s, pos) {
        None => None,
        Some((ts, p1)) => match spec_parse_bool(s, p1) {
            None => None,
            Some((init, p2)) => Some(
                (
                    VestingSchedule {
                        initial_release_timestamp_millis: ts,
                        initialized: init,
                    },
                    p2,
                ),
            ),
        },
    }
}

/// Law: reading a serialized vesting schedule back yields it.
pub proof fn lemma_vesting_schedule_roundtrip(s: Seq<u8>, pos: int, x: VestingSchedule)
    requires
        0 <= pos,
        pos + 9 <= s.len(),
        s.subrange(pos, pos + 9) == spec_ser_vesting_schedule(x),
    ensures
        spec_parse_vesting_schedule(s, pos) == Some((x, pos + 9)),
{
    lemma_subrange_part(
        s,
        pos,
        0,
        8,
        spec_ser_vesting_schedule(x),
        spec_ser_u64(x.initial_release_timestamp_millis),
    );
    lemma_subrange_part(
        s,
        pos,
        8,
        9,
        spec_ser_vesting_schedule(x),
        spec_ser_bool(x.initialized),
    );
    lemma_u64_roundtrip(s, pos, x.initial_release_timestamp_millis);
    lemma_bool_roundtrip(s, pos + 8, x.initialized);
}

/// An optional value: a presence byte, then the value when present.
pub open spec fn spec_ser_opt_public_key(x: Option<PublicKey>) -> Seq<u8> {
    match x {
        None => seq![0u8],
        Some(pk) => seq![1u8] + spec_ser_u64(pk.id),
    }
}

/// The optional public key read at `pos`, with the next position.
pub open spec fn spec_parse_opt_public_key(s: Seq<u8>, pos: int) -> Option<(
    Option<PublicKey>,
    int,
)> {
    if 0 <= pos && pos + 1 <= s.len() {
        if s[pos] == 0 {
            Some((None, pos + 1))
        } else if s[pos] == 1 {
            match spec_parse_u64(s, pos + 1) {
                None => None,
                Some((id, p1)) => Some((Some(PublicKey { id }), p1)),
            }
        } else {
            None
        }
    } else {
        None
    }
}

/// Law: reading a serialized optional public key back yields it.
pub proof fn lemma_opt_public_key_roundtrip(s: Seq<u8>, pos: int, x: Option<PublicKey>)
    requires
        0 <= pos,
        pos + spec_ser_opt_public_key(x).len() <= s.len(),
        s.subrange(pos, pos + spec_ser_opt_public_key(x).len()) == spec_ser_opt_public_key(x),
    ensures
        spec_parse_opt_public_key(s, pos) == Some(
            (x, pos + spec_ser_opt_public_key(x).len()),
        ),
{
    let whole = spec_ser_opt_public_key(x);
    assert(s.subrange(pos, pos + whole.len())[0] == s[pos]);
    match x {
        None => {
            assert(s[pos] == 0);
        },
        Some(pk) => {
            assert(s[pos] == 1);
            lemma_subrange_part(s, pos, 1, 9, whole, spec_ser_u64(pk.id));
            lemma_u64_roundtrip(s, pos + 1, pk.id);
        },
    }
}

/// Appends an optional public key.
fn write_opt_public_key(out: &mut Vec<u8>, x: &Option<PublicKey>)
    ensures
        final(out)@ == old(out)@ + spec_ser_opt_public_key(*x),
{
    match x {
        None => {
            out.push(0u8);
            assert(out@ =~= old(out)@ + spec_ser_opt_public_key(*x));
        },
        Some(pk) => {
            out.push(1u8);
            write_u64(out, pk.id);
            assert(out@ =~= old(out)@ + spec_ser_opt_public_key(*x));
        },
    }
}

/// Reads an optional public key at `pos`.
fn read_opt_public_key(bytes: &[u8], pos: usize) -> (r: Result<(Option<PublicKey>, usize), Error>)
    ensures
        (match spec_parse_opt_public_key(bytes@, pos as int) {
            Some((x, end)) => (r matches Ok(v) && v.0 == x && v.1 == end),
            None => r == Err::<(Option<PublicKey>, usize), Error>(Error::Serialization),
        }),
{
    if pos < bytes.len() {
        if bytes[pos] == 0 {
            Ok((None, pos + 1))
        } else if bytes[pos] == 1 {
            match read_u64(bytes, pos + 1) {
                Ok((id, p1)) => Ok((Some(PublicKey { id }), p1)),
                Err(e) => Err(e),
            }
        } else {
            Err(Error::Serialization)
        }
    } else {
        Err(Error::Serialization)
    }
}

/// An optional vesting schedule: a presence byte, then the schedule.
pub open spec fn spec_ser_opt_vesting_schedule(x: Option<VestingSchedule>) -> Seq<u8> {
    match x {
        None => seq![0u8],
        Some(vs) => seq![1u8] + spec_ser_vesting_schedule(vs),
    }
}

/// The optional vesting schedule read at `pos`, with the next position.
pub open spec fn spec_parse_opt_vesting_schedule(s: Seq<u8>, pos: int) -> Option<(
    Option<VestingSchedule>,
    int,
)> {
    if 0 <= pos && pos + 1 <= s.len() {
        if s[pos] == 0 {
            Some((None, pos + 1))
        } else if s[pos] == 1 {
            match spec_parse_vesting_schedule(s, pos + 1) {
                None => None,
                Some((vs, p1)) => Some((Some(vs), p1)),
            }
        } else {
            None
        }
    } else {
        None
    }
}

/// Law: reading a serialized optional vesting schedule back yields it.
pub proof fn lemma_opt_vesting_schedule_roundtrip(s: Seq<u8>, pos: int, x: Option<VestingSchedule>)
    requires
        0 <= pos,
        pos + spec_ser_opt_vesting_schedule(x).len() <= s.len(),
        s.subrange(pos, pos + spec_ser_opt_vesting_schedule(x).len())
            == spec_ser_opt_vesting_schedule(x),
    ensures
        spec_parse_opt_vesting_schedule(s, pos) == Some(
            (x, pos + spec_ser_opt_vesting_schedule(x).len()),
        ),
{
    let whole = spec_ser_opt_vesting_schedule(x);
    assert(s.subrange(pos, pos + whole.len())[0] == s[pos]);
    match x {
        None => {
            assert(s[pos] == 0);
        },
        Some(vs) => {
            assert(s[pos] == 1);
            lemma_subrange_part(s, pos, 1, 10, whole, spec_ser_vesting_schedule(vs));
            lemma_vesting_schedule_roundtrip(s, pos + 1, vs);
        },
    }
}

/// Appends an optional vesting schedule.
fn write_opt_vesting_schedule(out: &mut Vec<u8>, x: &Option<VestingSchedule>)
    ensures
        final(out)@ == old(out)@ + spec_ser_opt_vesting_schedule(*x),
{
    match x {
        None => {
            out.push(0u8);
            assert(out@ =~= old(out)@ + spec_ser_opt_vesting_schedule(*x));
        },
        Some(vs) => {
            out.push(1u8);
            write_u64(out, vs.initial_release_timestamp_millis);
            write_bool(out, vs.initialized);
            assert(out@ =~= old(out)@ + spec_ser_opt_vesting_schedule(*x));
        },
    }
}

/// Reads an optional vesting schedule at `pos`.
fn read_opt_vesting_schedule(bytes: &[u8], pos: usize) -> (r: Result<
    (Option<VestingSchedule>, usize),
    Error,
>)
    ensures
        (match spec_parse_opt_vesting_schedule(bytes@, pos as int) {
            Some((x, end)) => (r matches Ok(v) && v.0 == x && v.1 == end),
            None => r == Err::<(Option<VestingSchedule>, usize), Error>(Error::Serialization),
        }),
{
    if pos < bytes.len() {
        if bytes[pos] == 0 {
            Ok((None, pos + 1))
        } else if bytes[pos] == 1 {
            let (ts, p1) = match read_u64(bytes, pos + 1) {
                Ok(v) => v,
                Err(e) => {
                    return Err(e);
                },
            };
            let (init, p2) = match read_bool(bytes, p1) {
                Ok(v) => v,
                Err(e) => {
                    return Err(e);
                },
            };
            Ok((Some(VestingSchedule { initial_release_timestamp_millis: ts, initialized: init }), p2))
        } else {
            Err(Error::Serialization)
        }
    } else {
        Err(Error::Serialization)
    }
}


/// The single byte of an eight-bit value.
pub open spec fn spec_ser_u8(x: u8) -> Seq<u8> {
    seq![x]
}

/// The eight-bit value read at `pos`.
pub open spec fn spec_parse_u8(s: Seq<u8>, pos: int) -> Option<(u8, int)> {
    if 0 <= pos && pos + 1 <= s.len() {
        Some((s[pos], pos + 1))
    } else {
        None
    }
}

/// Law: reading the serialized byte of an eight-bit value back yields it.
pub proof fn lemma_u8_roundtrip(s: Seq<u8>, pos: int, x: u8)
    requires
        0 <= pos,
        pos + 1 <= s.len(),
        s.subrange(pos, pos + 1) == spec_ser_u8(x),
    ensures
        spec_parse_u8(s, pos) == Some((x, pos + 1)),
{
    assert(s[pos] == spec_ser_u8(x)[0]);
}

/// Reads an eight-bit value at `pos`.
fn read_u8(bytes: &[u8], pos: usize) -> (r: Result<(u8, usize), Error>)
    ensures
        (match spec_parse_u8(bytes@, pos as int) {
            Some((x, end)) => (r matches Ok(v) && v.0 == x && v.1 == end),
            None => r == Err::<(u8, usize), Error>(Error::Serialization),
        }),
{
    if pos < bytes.len() {
        Ok((bytes[pos], pos + 1))
    } else {
        Err(Error::Serialization)
    }
}

/// A whitelist entry: the delegator's key, then the validator's.
pub open spec fn spec_ser_whitelist_entry(x: WhitelistEntry) -> Seq<u8> {
    spec_ser_u64(x.delegator_public_key.id) + spec_ser_u64(x.validator_public_key.id)
}

/// The whitelist entry read at `pos`, with the next position.
pub open spec fn spec_parse_whitelist_entry(s: Seq<u8>, pos: int) -> Option<(
    WhitelistEntry,
    int,
)> {
    match spec_parse_u64(s, pos) {
        None => None,
        Some((d, p1)) => match spec_parse_u64(s, p1) {
            None => None,
            Some((v, p2)) => Some(
                (
                    WhitelistEntry {
                        delegator_public_key: PublicKey { id: d },
                        validator_public_key: PublicKey { id: v },
                    },
                    p2,
                ),
            ),
        },
    }
}

/// Law: reading a serialized whitelist entry back yields it.
pub proof fn lemma_whitelist_entry_roundtrip(s: Seq<u8>, pos: int, x: WhitelistEntry)
    requires
        0 <= pos,
        pos + 16 <= s.len(),
        s.subrange(pos, pos + 16) == spec_ser_whitelist_entry(x),
    ensures
        spec_parse_whitelist_entry(s, pos) == Some((x, pos + 16)),
{
    let whole = spec_ser_whitelist_entry(x);
    lemma_subrange_part(s, pos, 0, 8, whole, spec_ser_u64(x.delegator_public_key.id));
    lemma_subrange_part(s, pos, 8, 16, whole, spec_ser_u64(x.validator_public_key.id));
    lemma_u64_roundtrip(s, pos, x.delegator_public_key.id);
    lemma_u64_roundtrip(s, pos + 8, x.validator_public_key.id);
}

impl WhitelistEntry {
    /// Serializes the entry canonically.
    pub fn to_bytes(&self) -> (r: Vec<u8>)
        ensures
            r@ == spec_ser_whitelist_entry(*self),
    {
        let mut out: Vec<u8> = Vec::new();
        write_u64(&mut out, self.delegator_public_key.id);
        write_u64(&mut out, self.validator_public_key.id);
        assert(out@ =~= spec_ser_whitelist_entry(*self));
        out
    }

    /// The exact length of the canonical serialization.
    pub fn serialized_length(&self) -> (r: usize)
        ensures
            r == spec_ser_whitelist_entry(*self).len(),
    {
        16
    }

    /// Reads an entry from the front of `bytes`, returning it with the
    /// number of bytes consumed.
    pub fn from_bytes(bytes: &[u8]) -> (r: Result<(WhitelistEntry, usize), Error>)
        ensures
            (match spec_parse_whitelist_entry(bytes@, 0) {
                Some((x, end)) => (r matches Ok(v) && v.0 == x && v.1 == end),
                None => r == Err::<(WhitelistEntry, usize), Error>(Error::Serialization),
            }),
    {
        let (d, p1) = match read_u64(bytes, 0) {
            Ok(v) => v,
            Err(e) => {
                return Err(e);
            },
        };
        let (v, p2) = match read_u64(bytes, p1) {
            Ok(v) => v,
            Err(e) => {
                return Err(e);
            },
        };
        Ok(
            (
                WhitelistEntry {
                    delegator_public_key: PublicKey { id: d },
                    validator_public_key: PublicKey { id: v },
                },
                p2,
            ),
        )
    }
}

/// Entity costs: the three entry-point costs in declaration order.
pub open spec fn spec_ser_entity_costs(x: EntityCosts) -> Seq<u8> {
    spec_ser_u64(x.add_associated_key) + spec_ser_u64(x.remove_associated_key) + spec_ser_u64(
        x.update_associated_key,
    )
}

/// The entity costs read at `pos`, with the next position.
pub open spec fn spec_parse_entity_costs(s: Seq<u8>, pos: int) -> Option<(EntityCosts, int)> {
    match spec_parse_u64(s, pos) {
        None => None,
        Some((a, p1)) => match spec_parse_u64(s, p1) {
            None => None,
            Some((b, p2)) => match spec_parse_u64(s, p2) {
                None => None,
                Some((c, p3)) => Some(
                    (
                        EntityCosts {
                            add_associated_key: a,
                            remove_associated_key: b,
                            update_associated_key: c,
                        },
                        p3,
                    ),
                ),
            },
        },
    }
}

/// Law: reading serialized entity costs back yields them.
pub proof fn lemma_entity_costs_roundtrip(s: Seq<u8>, pos: int, x: EntityCosts)
    requires
        0 <= pos,
        pos + 24 <= s.len(),
        s.subrange(pos, pos + 24) == spec_ser_entity_costs(x),
    ensures
        spec_parse_entity_costs(s, pos) == Some((x, pos + 24)),
{
    let whole = spec_ser_entity_costs(x);
    lemma_subrange_part(s, pos, 0, 8, whole, spec_ser_u64(x.add_associated_key));
    lemma_subrange_part(s, pos, 8, 16, whole, spec_ser_u64(x.remove_associated_key));
    lemma_subrange_part(s, pos, 16, 24, whole, spec_ser_u64(x.update_associated_key));
    lemma_u64_roundtrip(s, pos, x.add_associated_key);
    lemma_u64_roundtrip(s, pos + 8, x.remove_associated_key);
    lemma_u64_roundtrip(s, pos + 16, x.update_associated_key);
}

impl EntityCosts {
    /// Serializes the costs canonically.
    pub fn to_bytes(&self) -> (r: Vec<u8>)
        ensures
            r@ == spec_ser_entity_costs(*self),
    {
        let mut out: Vec<u8> = Vec::new();
        write_u64(&mut out, self.add_associated_key);
        write_u64(&mut out, self.remove_associated_key);
        write_u64(&mut out, self.update_associated_key);
        assert(out@ =~= spec_ser_entity_costs(*self));
        out
    }

    /// The exact length of the canonical serialization.
    pub fn serialized_length(&self) -> (r: usize)
        ensures
            r == spec_ser_entity_costs(*self).len(),
    {
        24
    }

    /// Reads costs from the front of `bytes`, returning them with the
    /// number of bytes consumed.
    pub fn from_bytes(bytes: &[u8]) -> (r: Result<(EntityCosts, usize), Error>)
        ensures
            (match spec_parse_entity_costs(bytes@, 0) {
                Some((x, end)) => (r matches Ok(v) && v.0 == x && v.1 == end),
                None => r == Err::<(EntityCosts, usize), Error>(Error::Serialization),
            }),
    {
        let (a, p1) = match read_u64(bytes, 0) {
            Ok(v) => v,
            Err(e) => {
                return Err(e);
            },
        };
        let (b, p2) = match read_u64(bytes, p1) {
            Ok(v) => v,
            Err(e) => {
                return Err(e);
            },
        };
        let (c, p3) = match read_u64(bytes, p2) {
            Ok(v) => v,
            Err(e) => {
                return Err(e);
            },
        };
        Ok(
            (
                EntityCosts {
                    add_associated_key: a,
                    remove_associated_key: b,
                    update_associated_key: c,
                },
                p3,
            ),
        )
    }
}

/// A validator credit: validator key, era, amount.
pub open spec fn spec_ser_validator_credit(x: ValidatorCredit) -> Seq<u8> {
    spec_ser_u64(x.validator_public_key.id) + spec_ser_u64(x.era_id) + spec_ser_u128(x.amount)
}

/// The validator credit read at `pos`, with the next position.
pub open spec fn spec_parse_validator_credit(s: Seq<u8>, pos: int) -> Option<(
    ValidatorCredit,
    int,
)> {
    match spec_parse_u64(s, pos) {
        None => None,
        Some((id, p1)) => match spec_parse_u64(s, p1) {
            None => None,
            Some((era, p2)) => match spec_parse_u128(s, p2) {
                None => None,
                Some((amount, p3)) => Some(
                    (
                        ValidatorCredit {
                            validator_public_key: PublicKey { id },
                            era_id: era,
                            amount,
                        },
                        p3,
                    ),
                ),
            },
        },
    }
}

/// Law: reading a serialized validator credit back yields it.
pub proof fn lemma_validator_credit_roundtrip(s: Seq<u8>, pos: int, x: ValidatorCredit)
    requires
        0 <= pos,
        pos + 32 <= s.len(),
        s.subrange(pos, pos + 32) == spec_ser_validator_credit(x),
    ensures
        spec_parse_validator_credit(s, pos) == Some((x, pos + 32)),
{
    let whole = spec_ser_validator_credit(x);
    lemma_subrange_part(s, pos, 0, 8, whole, spec_ser_u64(x.validator_public_key.id));
    lemma_subrange_part(s, pos, 8, 16, whole, spec_ser_u64(x.era_id));
    lemma_subrange_part(s, pos, 16, 32, whole, spec_ser_u128(x.amount));
    lemma_u64_roundtrip(s, pos, x.validator_public_key.id);
    lemma_u64_roundtrip(s, pos + 8, x.era_id);
    lemma_u128_roundtrip(s, pos + 16, x.amount);
}

impl ValidatorCredit {
    /// Serializes the credit canonically.
    pub fn to_bytes(&self) -> (r: Vec<u8>)
        ensures
            r@ == spec_ser_validator_credit(*self),
    {
        let mut out: Vec<u8> = Vec::new();
        write_u64(&mut out, self.validator_public_key.id);
        write_u64(&mut out, self.era_id);
        write_u128(&mut out, self.amount);
        assert(out@ =~= spec_ser_validator_credit(*self));
        out
    }

    /// The exact length of the canonical serialization.
    pub fn serialized_length(&self) -> (r: usize)
        ensures
            r == spec_ser_validator_credit(*self).len(),
    {
        32
    }

    /// Reads a credit from the front of `bytes`, returning it with the
    /// number of bytes consumed.
    pub fn from_bytes(bytes: &[u8]) -> (r: Result<(ValidatorCredit, usize), Error>)
        ensures
            (match spec_parse_validator_credit(bytes@, 0) {
                Some((x, end)) => (r matches Ok(v) && v.0 == x && v.1 == end),
                None => r == Err::<(ValidatorCredit, usize), Error>(Error::Serialization),
            }),
    {
        let (id, p1) = match read_u64(bytes, 0) {
            Ok(v) => v,
            Err(e) => {
                return Err(e);
            },
        };
        let (era, p2) = match read_u64(bytes, p1) {
            Ok(v) => v,
            Err(e) => {
                return Err(e);
            },
        };
        let (amount, p3) = match read_u128(bytes, p2) {
            Ok(v) => v,
            Err(e) => {
                return Err(e);
            },
        };
        Ok(
            (
                ValidatorCredit { validator_public_key: PublicKey { id }, era_id: era, amount },
                p3,
            ),
        )
    }
}

/// A bridge record: old key, new key, era.
pub open spec fn spec_ser_bridge_record(x: BridgeRecord) -> Seq<u8> {
    spec_ser_u64(x.old_validator_public_key.id) + spec_ser_u64(x.new_validator_public_key.id)
        + spec_ser_u64(x.era_id)
}

/// The bridge record read at `pos`, with the next position.
pub open spec fn spec_parse_bridge_record(s: Seq<u8>, pos: int) -> Option<(BridgeRecord, int)> {
    match spec_parse_u64(s, pos) {
        None => None,
        Some((o, p1)) => match spec_parse_u64(s, p1) {
            None => None,
            Some((n, p2)) => match spec_parse_u64(s, p2) {
                None => None,
                Some((era, p3)) => Some(
                    (
                        BridgeRecord {
                            old_validator_public_key: PublicKey { id: o },
                            new_validator_public_key: PublicKey { id: n },
                            era_id: era,
                        },
                        p3,
                    ),
                ),
            },
        },
    }
}

/// Law: reading a serialized bridge record back yields it.
pub proof fn lemma_bridge_record_roundtrip(s: Seq<u8>, pos: int, x: BridgeRecord)
    requires
        0 <= pos,
        pos + 24 <= s.len(),
        s.subrange(pos, pos + 24) == spec_ser_bridge_record(x),
    ensures
        spec_parse_bridge_record(s, pos) == Some((x, pos + 24)),
{
    let whole = spec_ser_bridge_record(x);
    lemma_subrange_part(s, pos, 0, 8, whole, spec_ser_u64(x.old_validator_public_key.id));
    lemma_subrange_part(s, pos, 8, 16, whole, spec_ser_u64(x.new_validator_public_key.id));
    lemma_subrange_part(s, pos, 16, 24, whole, spec_ser_u64(x.era_id));
    lemma_u64_roundtrip(s, pos, x.old_validator_public_key.id);
    lemma_u64_roundtrip(s, pos + 8, x.new_validator_public_key.id);
    lemma_u64_roundtrip(s, pos + 16, x.era_id);
}

impl BridgeRecord {
    /// Serializes the record canonically.
    pub fn to_bytes(&self) -> (r: Vec<u8>)
        ensures
            r@ == spec_ser_bridge_record(*self),
    {
        let mut out: Vec<u8> = Vec::new();
        write_u64(&mut out, self.old_validator_public_key.id);
        write_u64(&mut out, self.new_validator_public_key.id);
        write_u64(&mut out, self.era_id);
        assert(out@ =~= spec_ser_bridge_record(*self));
        out
    }

    /// The exact length of the canonical serialization.
    pub fn serialized_length(&self) -> (r: usize)
        ensures
            r == spec_ser_bridge_record(*self).len(),
    {
        24
    }

    /// Reads a record from the front of `bytes`, returning it with the
    /// number of bytes consumed.
    pub fn from_bytes(bytes: &[u8]) -> (r: Result<(BridgeRecord, usize), Error>)
        ensures
            (match spec_parse_bridge_record(bytes@, 0) {
                Some((x, end)) => (r matches Ok(v) && v.0 == x && v.1 == end),
                None => r == Err::<(BridgeRecord, usize), Error>(Error::Serialization),
            }),
    {
        let (o, p1) = match read_u64(bytes, 0) {
            Ok(v) => v,
            Err(e) => {
                return Err(e);
            },
        };
        let (n, p2) = match read_u64(bytes, p1) {
            Ok(v) => v,
            Err(e) => {
                return Err(e);
            },
        };
        let (era, p3) = match read_u64(bytes, p2) {
            Ok(v) => v,
            Err(e) => {
                return Err(e);
            },
        };
        Ok(
            (
                BridgeRecord {
                    old_validator_public_key: PublicKey { id: o },
                    new_validator_public_key: PublicKey { id: n },
                    era_id: era,
                },
                p3,
            ),
        )
    }
}


/// An unbonding entry: purse, validator, unbonder, era, amount, and the
/// optional redelegation target.
pub open spec fn spec_ser_unbonding_purse(x: UnbondingPurse) -> Seq<u8> {
    spec_ser_u64(x.bonding_purse.id) + spec_ser_u64(x.validator_public_key.id) + spec_ser_u64(
        x.unbonder_public_key.id,
    ) + spec_ser_u64(x.era_of_creation) + spec_ser_u128(x.amount) + spec_ser_opt_public_key(
        x.new_validator,
    )
}

/// The unbonding entry read at `pos`, with the next position.
pub open spec fn spec_parse_unbonding_purse(s: Seq<u8>, pos: int) -> Option<(
    UnbondingPurse,
    int,
)> {
    match spec_parse_u64(s, pos) {
        None => None,
        Some((purse, p1)) => match spec_parse_u64(s, p1) {
            None => None,
            Some((vk, p2)) => match spec_parse_u64(s, p2) {
                None => None,
                Some((uk, p3)) => match spec_parse_u64(s, p3) {
                    None => None,
                    Some((era, p4)) => match spec_parse_u128(s, p4) {
                        None => None,
                        Some((amount, p5)) => match spec_parse_opt_public_key(s, p5) {
                            None => None,
                            Some((nv, p6)) => Some(
                                (
                                    UnbondingPurse {
                                        bonding_purse: URef { id: purse },
                                        validator_public_key: PublicKey { id: vk },
                                        unbonder_public_key: PublicKey { id: uk },
                                        era_of_creation: era,
                                        amount,
                                        new_validator: nv,
                                    },
                                    p6,
                                ),
                            ),
                        },
                    },
                },
            },
        },
    }
}

/// Law: reading a serialized unbonding entry back yields it.
pub proof fn lemma_unbonding_purse_roundtrip(s: Seq<u8>, pos: int, x: UnbondingPurse)
    requires
        0 <= pos,
        pos + spec_ser_unbonding_purse(x).len() <= s.len(),
        s.subrange(pos, pos + spec_ser_unbonding_purse(x).len()) == spec_ser_unbonding_purse(x),
    ensures
        spec_parse_unbonding_purse(s, pos) == Some(
            (x, pos + spec_ser_unbonding_purse(x).len()),
        ),
{
    let whole = spec_ser_unbonding_purse(x);
    let ol = spec_ser_opt_public_key(x.new_validator).len() as int;
    lemma_subrange_part(s, pos, 0, 8, whole, spec_ser_u64(x.bonding_purse.id));
    lemma_subrange_part(s, pos, 8, 16, whole, spec_ser_u64(x.validator_public_key.id));
    lemma_subrange_part(s, pos, 16, 24, whole, spec_ser_u64(x.unbonder_public_key.id));
    lemma_subrange_part(s, pos, 24, 32, whole, spec_ser_u64(x.era_of_creation));
    lemma_subrange_part(s, pos, 32, 48, whole, spec_ser_u128(x.amount));
    lemma_subrange_part(s, pos, 48, 48 + ol, whole, spec_ser_opt_public_key(x.new_validator));
    lemma_u64_roundtrip(s, pos, x.bonding_purse.id);
    lemma_u64_roundtrip(s, pos + 8, x.validator_public_key.id);
    lemma_u64_roundtrip(s, pos + 16, x.unbonder_public_key.id);
    lemma_u64_roundtrip(s, pos + 24, x.era_of_creation);
    lemma_u128_roundtrip(s, pos + 32, x.amount);
    lemma_opt_public_key_roundtrip(s, pos + 48, x.new_validator);
}

impl UnbondingPurse {
    /// Serializes the entry canonically.
    pub fn to_bytes(&self) -> (r: Vec<u8>)
        ensures
            r@ == spec_ser_unbonding_purse(*self),
    {
        let mut out: Vec<u8> = Vec::new();
        write_u64(&mut out, self.bonding_purse.id);
        write_u64(&mut out, self.validator_public_key.id);
        write_u64(&mut out, self.unbonder_public_key.id);
        write_u64(&mut out, self.era_of_creation);
        write_u128(&mut out, self.amount);
        write_opt_public_key(&mut out, &self.new_validator);
        assert(out@ =~= spec_ser_unbonding_purse(*self));
        out
    }

    /// The exact length of the canonical serialization.
    pub fn serialized_length(&self) -> (r: usize)
        ensures
            r == spec_ser_unbonding_purse(*self).len(),
    {
        match &self.new_validator {
            None => 49,
            Some(_) => 57,
        }
    }

    /// Reads an entry from the front of `bytes`, returning it with the
    /// number of bytes consumed.
    pub fn from_bytes(bytes: &[u8]) -> (r: Result<(UnbondingPurse, usize), Error>)
        ensures
            (match spec_parse_unbonding_purse(bytes@, 0) {
                Some((x, end)) => (r matches Ok(v) && v.0 == x && v.1 == end),
                None => r == Err::<(UnbondingPurse, usize), Error>(Error::Serialization),
            }),
    {
        let (purse, p1) = match read_u64(bytes, 0) {
            Ok(v) => v,
            Err(e) => {
                return Err(e);
            },
        };
        let (vk, p2) = match read_u64(bytes, p1) {
            Ok(v) => v,
            Err(e) => {
                return Err(e);
            },
        };
        let (uk, p3) = match read_u64(bytes, p2) {
            Ok(v) => v,
            Err(e) => {
                return Err(e);
            },
        };
        let (era, p4) = match read_u64(bytes, p3) {
            Ok(v) => v,
            Err(e) => {
                return Err(e);
            },
        };
        let (amount, p5) = match read_u128(bytes, p4) {
            Ok(v) => v,
            Err(e) => {
                return Err(e);
            },
        };
        let (nv, p6) = match read_opt_public_key(bytes, p5) {
            Ok(v) => v,
            Err(e) => {
                return Err(e);
            },
        };
        Ok(
            (
                UnbondingPurse {
                    bonding_purse: URef { id: purse },
                    validator_public_key: PublicKey { id: vk },
                    unbonder_public_key: PublicKey { id: uk },
                    era_of_creation: era,
                    amount,
                    new_validator: nv,
                },
                p6,
            ),
        )
    }
}

/// A delegator bid: key, stake, purse, validator, optional schedule.
pub open spec fn spec_ser_delegator(x: Delegator) -> Seq<u8> {
    spec_ser_u64(x.delegator_public_key.id) + spec_ser_u128(x.staked_amount) + spec_ser_u64(
        x.bonding_purse.id,
    ) + spec_ser_u64(x.validator_public_key.id) + spec_ser_opt_vesting_schedule(
        x.vesting_schedule,
    )
}

/// The delegator bid read at `pos`, with the next position.
pub open spec fn spec_parse_delegator(s: Seq<u8>, pos: int) -> Option<(Delegator, int)> {
    match spec_parse_u64(s, pos) {
        None => None,
        Some((dk, p1)) => match spec_parse_u128(s, p1) {
            None => None,
            Some((stake, p2)) => match spec_parse_u64(s, p2) {
                None => None,
                Some((purse, p3)) => match spec_parse_u64(s, p3) {
                    None => None,
                    Some((vk, p4)) => match spec_parse_opt_vesting_schedule(s, p4) {
                        None => None,
                        Some((vs, p5)) => Some(
                            (
                                Delegator {
                                    delegator_public_key: PublicKey { id: dk },
                                    staked_amount: stake,
                                    bonding_purse: URef { id: purse },
                                    validator_public_key: PublicKey { id: vk },
                                    vesting_schedule: vs,
                                },
                                p5,
                            ),
                        ),
                    },
                },
            },
        },
    }
}

/// Law: reading a serialized delegator bid back yields it.
pub proof fn lemma_delegator_roundtrip(s: Seq<u8>, pos: int, x: Delegator)
    requires
        0 <= pos,
        pos + spec_ser_delegator(x).len() <= s.len(),
        s.subrange(pos, pos + spec_ser_delegator(x).len()) == spec_ser_delegator(x),
    ensures
        spec_parse_delegator(s, pos) == Some((x, pos + spec_ser_delegator(x).len())),
{
    let whole = spec_ser_delegator(x);
    let ol = spec_ser_opt_vesting_schedule(x.vesting_schedule).len() as int;
    lemma_subrange_part(s, pos, 0, 8, whole, spec_ser_u64(x.delegator_public_key.id));
    lemma_subrange_part(s, pos, 8, 24, whole, spec_ser_u128(x.staked_amount));
    lemma_subrange_part(s, pos, 24, 32, whole, spec_ser_u64(x.bonding_purse.id));
    lemma_subrange_part(s, pos, 32, 40, whole, spec_ser_u64(x.validator_public_key.id));
    lemma_subrange_part(
        s,
        pos,
        40,
        40 + ol,
        whole,
        spec_ser_opt_vesting_schedule(x.vesting_schedule),
    );
    lemma_u64_roundtrip(s, pos, x.delegator_public_key.id);
    lemma_u128_roundtrip(s, pos + 8, x.staked_amount);
    lemma_u64_roundtrip(s, pos + 24, x.bonding_purse.id);
    lemma_u64_roundtrip(s, pos + 32, x.validator_public_key.id);
    lemma_opt_vesting_schedule_roundtrip(s, pos + 40, x.vesting_schedule);
}

impl Delegator {
    /// Serializes the bid canonically.
    pub fn to_bytes(&self) -> (r: Vec<u8>)
        ensures
            r@ == spec_ser_delegator(*self),
    {
        let mut out: Vec<u8> = Vec::new();
        write_u64(&mut out, self.delegator_public_key.id);
        write_u128(&mut out, self.staked_amount);
        write_u64(&mut out, self.bonding_purse.id);
        write_u64(&mut out, self.validator_public_key.id);
        write_opt_vesting_schedule(&mut out, &self.vesting_schedule);
        assert(out@ =~= spec_ser_delegator(*self));
        out
    }

    /// The exact length of the canonical serialization.
    pub fn serialized_length(&self) -> (r: usize)
        ensures
            r == spec_ser_delegator(*self).len(),
    {
        match &self.vesting_schedule {
            None => 41,
            Some(_) => 50,
        }
    }

    /// Reads a bid from the front of `bytes`, returning it with the
    /// number of bytes consumed.
    pub fn from_bytes(bytes: &[u8]) -> (r: Result<(Delegator, usize), Error>)
        ensures
            (match spec_parse_delegator(bytes@, 0) {
                Some((x, end)) => (r matches Ok(v) && v.0 == x && v.1 == end),
                None => r == Err::<(Delegator, usize), Error>(Error::Serialization),
            }),
    {
        let (dk, p1) = match read_u64(bytes, 0) {
            Ok(v) => v,
            Err(e) => {
                return Err(e);
            },
        };
        let (stake, p2) = match read_u128(bytes, p1) {
            Ok(v) => v,
            Err(e) => {
                return Err(e);
            },
        };
        let (purse, p3) = match read_u64(bytes, p2) {
            Ok(v) => v,
            Err(e) => {
                return Err(e);
            },
        };
        let (vk, p4) = match read_u64(bytes, p3) {
            Ok(v) => v,
            Err(e) => {
                return Err(e);
            },
        };
        let (vs, p5) = match read_opt_vesting_schedule(bytes, p4) {
            Ok(v) => v,
            Err(e) => {
                return Err(e);
            },
        };
        Ok(
            (
                Delegator {
                    delegator_public_key: PublicKey { id: dk },
                    staked_amount: stake,
                    bonding_purse: URef { id: purse },
                    validator_public_key: PublicKey { id: vk },
                    vesting_schedule: vs,
                },
                p5,
            ),
        )
    }
}

/// A validator bid: key, purse, stake, rate, activity flag, optional
/// schedule, and the delegation bounds.
pub open spec fn spec_ser_validator_bid(x: ValidatorBid) -> Seq<u8> {
    spec_ser_u64(x.validator_public_key.id) + spec_ser_u64(x.bonding_purse.id) + spec_ser_u128(
        x.staked_amount,
    ) + spec_ser_u8(x.delegation_rate) + spec_ser_bool(x.inactive) + spec_ser_opt_vesting_schedule(
        x.vesting_schedule,
    ) + spec_ser_u64(x.minimum_delegation_amount) + spec_ser_u64(x.maximum_delegation_amount)
}

/// The validator bid read at `pos`, with the next position.
pub open spec fn spec_parse_validator_bid(s: Seq<u8>, pos: int) -> Option<(ValidatorBid, int)> {
    match spec_parse_u64(s, pos) {
        None => None,
        Some((vk, p1)) => match spec_parse_u64(s, p1) {
            None => None,
            Some((purse, p2)) => match spec_parse_u128(s, p2) {
                None => None,
                Some((stake, p3)) => match spec_parse_u8(s, p3) {
                    None => None,
                    Some((rate, p4)) => match spec_parse_bool(s, p4) {
                        None => None,
                        Some((inactive, p5)) => match spec_parse_opt_vesting_schedule(s, p5) {
                            None => None,
                            Some((vs, p6)) => match spec_parse_u64(s, p6) {
                                None => None,
                                Some((min, p7)) => match spec_parse_u64(s, p7) {
                                    None => None,
                                    Some((max, p8)) => Some(
                                        (
                                            ValidatorBid {
                                                validator_public_key: PublicKey { id: vk },
                                                bonding_purse: URef { id: purse },
                                                staked_amount: stake,
                                                delegation_rate: rate,
                                                inactive,
                                                vesting_schedule: vs,
                                                minimum_delegation_amount: min,
                                                maximum_delegation_amount: max,
                                            },
                                            p8,
                                        ),
                                    ),
                                },
                            },
                        },
                    },
                },
            },
        },
    }
}

/// Law: reading a serialized validator bid back yields it.
pub proof fn lemma_validator_bid_roundtrip(s: Seq<u8>, pos: int, x: ValidatorBid)
    requires
        0 <= pos,
        pos + spec_ser_validator_bid(x).len() <= s.len(),
        s.subrange(pos, pos + spec_ser_validator_bid(x).len()) == spec_ser_validator_bid(x),
    ensures
        spec_parse_validator_bid(s, pos) == Some((x, pos + spec_ser_validator_bid(x).len())),
{
    let whole = spec_ser_validator_bid(x);
    let ol = spec_ser_opt_vesting_schedule(x.vesting_schedule).len() as int;
    lemma_subrange_part(s, pos, 0, 8, whole, spec_ser_u64(x.validator_public_key.id));
    lemma_subrange_part(s, pos, 8, 16, whole, spec_ser_u64(x.bonding_purse.id));
    lemma_subrange_part(s, pos, 16, 32, whole, spec_ser_u128(x.staked_amount));
    lemma_subrange_part(s, pos, 32, 33, whole, spec_ser_u8(x.delegation_rate));
    lemma_subrange_part(s, pos, 33, 34, whole, spec_ser_bool(x.inactive));
    lemma_subrange_part(
        s,
        pos,
        34,
        34 + ol,
        whole,
        spec_ser_opt_vesting_schedule(x.vesting_schedule),
    );
    lemma_subrange_part(
        s,
        pos,
        34 + ol,
        42 + ol,
        whole,
        spec_ser_u64(x.minimum_delegation_amount),
    );
    lemma_subrange_part(
        s,
        pos,
        42 + ol,
        50 + ol,
        whole,
        spec_ser_u64(x.maximum_delegation_amount),
    );
    lemma_u64_roundtrip(s, pos, x.validator_public_key.id);
    lemma_u64_roundtrip(s, pos + 8, x.bonding_purse.id);
    lemma_u128_roundtrip(s, pos + 16, x.staked_amount);
    lemma_u8_roundtrip(s, pos + 32, x.delegation_rate);
    lemma_bool_roundtrip(s, pos + 33, x.inactive);
    lemma_opt_vesting_schedule_roundtrip(s, pos + 34, x.vesting_schedule);
    lemma_u64_roundtrip(s, pos + 34 + ol, x.minimum_delegation_amount);
    lemma_u64_roundtrip(s, pos + 42 + ol, x.maximum_delegation_amount);
}

impl ValidatorBid {
    /// Serializes the bid canonically.
    pub fn to_bytes(&self) -> (r: Vec<u8>)
        ensures
            r@ == spec_ser_validator_bid(*self),
    {
        let mut out: Vec<u8> = Vec::new();
        write_u64(&mut out, self.validator_public_key.id);
        write_u64(&mut out, self.bonding_purse.id);
        write_u128(&mut out, self.staked_amount);
        out.push(self.delegation_rate);
        write_bool(&mut out, self.inactive);
        write_opt_vesting_schedule(&mut out, &self.vesting_schedule);
        write_u64(&mut out, self.minimum_delegation_amount);
        write_u64(&mut out, self.maximum_delegation_amount);
        assert(out@ =~= spec_ser_validator_bid(*self));
        out
    }

    /// The exact length of the canonical serialization.
    pub fn serialized_length(&self) -> (r: usize)
        ensures
            r == spec_ser_validator_bid(*self).len(),
    {
        match &self.vesting_schedule {
            None => 51,
            Some(_) => 60,
        }
    }

    /// Reads a bid from the front of `bytes`, returning it with the
    /// number of bytes consumed.
    pub fn from_bytes(bytes: &[u8]) -> (r: Result<(ValidatorBid, usize), Error>)
        ensures
            (match spec_parse_validator_bid(bytes@, 0) {
                Some((x, end)) => (r matches Ok(v) && v.0 == x && v.1 == end),
                None => r == Err::<(ValidatorBid, usize), Error>(Error::Serialization),
            }),
    {
        let (vk, p1) = match read_u64(bytes, 0) {
            Ok(v) => v,
            Err(e) => {
                return Err(e);
            },
        };
        let (purse, p2) = match read_u64(bytes, p1) {
            Ok(v) => v,
            Err(e) => {
                return Err(e);
            },
        };
        let (stake, p3) = match read_u128(bytes, p2) {
            Ok(v) => v,
            Err(e) => {
                return Err(e);
            },
        };
        let (rate, p4) = match read_u8(bytes, p3) {
            Ok(v) => v,
            Err(e) => {
                return Err(e);
            },
        };
        let (inactive, p5) = match read_bool(bytes, p4) {
            Ok(v) => v,
            Err(e) => {
                return Err(e);
            },
        };
        let (vs, p6) = match read_opt_vesting_schedule(bytes, p5) {
            Ok(v) => v,
            Err(e) => {
                return Err(e);
            },
        };
        let (min, p7) = match read_u64(bytes, p6) {
            Ok(v) => v,
            Err(e) => {
                return Err(e);
            },
        };
        let (max, p8) = match read_u64(bytes, p7) {
            Ok(v) => v,
            Err(e) => {
                return Err(e);
            },
        };
        Ok(
            (
                ValidatorBid {
                    validator_public_key: PublicKey { id: vk },
                    bonding_purse: URef { id: purse },
                    staked_amount: stake,
                    delegation_rate: rate,
                    inactive,
                    vesting_schedule: vs,
                    minimum_delegation_amount: min,
                    maximum_delegation_amount: max,
                },
                p8,
            ),
        )
    }
}


/// The concatenated entries of a delegator-stake list: key then stake.
pub open spec fn spec_ser_stake_list(s: Seq<(PublicKey, u128)>) -> Seq<u8>
    decreases s.len(),
{
    if s.len() == 0 {
        Seq::empty()
    } else {
        spec_ser_u64(s[0].0.id) + spec_ser_u128(s[0].1) + spec_ser_stake_list(s.drop_first())
    }
}

/// Each entry takes 24 bytes.
pub proof fn lemma_ser_stake_list_len(s: Seq<(PublicKey, u128)>)
    ensures
        spec_ser_stake_list(s).len() == 24 * s.len(),
    decreases s.len(),
{
    if s.len() > 0 {
        lemma_ser_stake_list_len(s.drop_first());
    }
}

/// Appending an entry appends its 24 bytes.
pub proof fn lemma_ser_stake_list_push(s: Seq<(PublicKey, u128)>, p: (PublicKey, u128))
    ensures
        spec_ser_stake_list(s.push(p)) == spec_ser_stake_list(s) + spec_ser_u64(p.0.id)
            + spec_ser_u128(p.1),
    decreases s.len(),
{
    if s.len() == 0 {
        assert(s.push(p).drop_first() =~= s);
        assert(spec_ser_stake_list(s.push(p)) =~= spec_ser_stake_list(s) + spec_ser_u64(p.0.id)
            + spec_ser_u128(p.1));
    } else {
        assert(s.push(p).drop_first() =~= s.drop_first().push(p));
        lemma_ser_stake_list_push(s.drop_first(), p);
        assert(spec_ser_stake_list(s.push(p)) =~= spec_ser_stake_list(s) + spec_ser_u64(p.0.id)
            + spec_ser_u128(p.1));
    }
}

/// The `count` stake entries read at `pos`, with the next position.
pub open spec fn spec_parse_stake_list(s: Seq<u8>, pos: int, count: nat) -> Option<(
    Seq<(PublicKey, u128)>,
    int,
)>
    decreases count,
{
    if count == 0 {
        Some((Seq::empty(), pos))
    } else {
        match spec_parse_u64(s, pos) {
            None => None,
            Some((id, p1)) => match spec_parse_u128(s, p1) {
                None => None,
                Some((amount, p2)) => match spec_parse_stake_list(s, p2, (count - 1) as nat) {
                    None => None,
                    Some((rest, p3)) => Some(
                        (seq![(PublicKey { id }, amount)] + rest, p3),
                    ),
                },
            },
        }
    }
}

/// Law: reading a serialized stake list back yields it.
pub proof fn lemma_stake_list_roundtrip(s: Seq<u8>, pos: int, lst: Seq<(PublicKey, u128)>)
    requires
        0 <= pos,
        pos + 24 * lst.len() <= s.len(),
        s.subrange(pos, pos + 24 * lst.len()) == spec_ser_stake_list(lst),
    ensures
        spec_parse_stake_list(s, pos, lst.len()) == Some((lst, pos + 24 * lst.len())),
    decreases lst.len(),
{
    lemma_ser_stake_list_len(lst);
    if lst.len() == 0 {
    } else {
        let whole = spec_ser_stake_list(lst);
        let rest = lst.drop_first();
        lemma_ser_stake_list_len(rest);
        lemma_subrange_part(s, pos, 0, 8, whole, spec_ser_u64(lst[0].0.id));
        lemma_subrange_part(s, pos, 8, 24, whole, spec_ser_u128(lst[0].1));
        lemma_subrange_part(s, pos, 24, 24 * lst.len() as int, whole, spec_ser_stake_list(rest));
        lemma_u64_roundtrip(s, pos, lst[0].0.id);
        lemma_u128_roundtrip(s, pos + 8, lst[0].1);
        lemma_stake_list_roundtrip(s, pos + 24, rest);
        assert(seq![(PublicKey { id: lst[0].0.id }, lst[0].1)] + rest =~= lst);
    }
}

/// A seigniorage recipient: stake, delegation rate, then the delegator
/// stakes behind a count.
pub open spec fn spec_ser_seigniorage_recipient(x: SeigniorageRecipient) -> Seq<u8> {
    spec_ser_u128(x.stake) + spec_ser_u8(x.delegation_rate) + spec_ser_u64(
        x.delegator_stake@.len() as u64,
    ) + spec_ser_stake_list(x.delegator_stake@)
}

/// The recipient fields read at `pos`: stake, rate and delegator stakes,
/// with the next position.
pub open spec fn spec_parse_seigniorage_recipient(s: Seq<u8>, pos: int) -> Option<(
    (u128, u8, Seq<(PublicKey, u128)>),
    int,
)> {
    match spec_parse_u128(s, pos) {
        None => None,
        Some((stake, p1)) => match spec_parse_u8(s, p1) {
            None => None,
            Some((rate, p2)) => match spec_parse_u64(s, p2) {
                None => None,
                Some((count, p3)) => match spec_parse_stake_list(s, p3, count as nat) {
                    None => None,
                    Some((lst, p4)) => Some(((stake, rate, lst), p4)),
                },
            },
        },
    }
}

/// Law: reading a serialized recipient back yields its fields.
pub proof fn lemma_seigniorage_recipient_roundtrip(s: Seq<u8>, pos: int, x: SeigniorageRecipient)
    requires
        0 <= pos,
        pos + spec_ser_seigniorage_recipient(x).len() <= s.len(),
        s.subrange(pos, pos + spec_ser_seigniorage_recipient(x).len())
            == spec_ser_seigniorage_recipient(x),
    ensures
        spec_parse_seigniorage_recipient(s, pos) == Some(
            (
                (x.stake, x.delegation_rate, x.delegator_stake@),
                pos + spec_ser_seigniorage_recipient(x).len(),
            ),
        ),
{
    let whole = spec_ser_seigniorage_recipient(x);
    let n = x.delegator_stake@.len() as int;
    lemma_ser_stake_list_len(x.delegator_stake@);
    vstd::std_specs::vec::axiom_spec_len(&x.delegator_stake);
    assert(x.delegator_stake@.len() <= usize::MAX);
    lemma_subrange_part(s, pos, 0, 16, whole, spec_ser_u128(x.stake));
    lemma_subrange_part(s, pos, 16, 17, whole, spec_ser_u8(x.delegation_rate));
    lemma_subrange_part(s, pos, 17, 25, whole, spec_ser_u64(x.delegator_stake@.len() as u64));
    lemma_subrange_part(s, pos, 25, 25 + 24 * n, whole, spec_ser_stake_list(x.delegator_stake@));
    lemma_u128_roundtrip(s, pos, x.stake);
    lemma_u8_roundtrip(s, pos + 16, x.delegation_rate);
    lemma_u64_roundtrip(s, pos + 17, x.delegator_stake@.len() as u64);
    lemma_stake_list_roundtrip(s, pos + 25, x.delegator_stake@);
}

impl SeigniorageRecipient {
    /// Serializes the recipient canonically.
    pub fn to_bytes(&self) -> (r: Vec<u8>)
        ensures
            r@ == spec_ser_seigniorage_recipient(*self),
    {
        let mut out: Vec<u8> = Vec::new();
        write_u128(&mut out, self.stake);
        out.push(self.delegation_rate);
        write_u64(&mut out, self.delegator_stake.len() as u64);
        let ghost head = out@;
        let ghost lst = self.delegator_stake@;
        let mut i: usize = 0;
        while i < self.delegator_stake.len()
            invariant
                i <= lst.len(),
                self.delegator_stake@ == lst,
                out@ == head + spec_ser_stake_list(lst.take(i as int)),
            decreases lst.len() - i,
        {
            proof {
                assert(lst.take(i + 1 as int) =~= lst.take(i as int).push(lst[i as int]));
                lemma_ser_stake_list_push(lst.take(i as int), lst[i as int]);
            }
            write_u64(&mut out, self.delegator_stake[i].0.id);
            write_u128(&mut out, self.delegator_stake[i].1);
            proof {
                assert(out@ =~= head + spec_ser_stake_list(lst.take(i + 1 as int)));
            }
            i = i + 1;
        }
        proof {
            assert(lst.take(lst.len() as int) =~= lst);
            assert(out@ =~= spec_ser_seigniorage_recipient(*self));
        }
        out
    }

    /// The exact length of the canonical serialization, which must be
    /// representable on this machine.
    pub fn serialized_length(&self) -> (r: usize)
        requires
            25 + 24 * self.delegator_stake@.len() <= usize::MAX,
        ensures
            r == spec_ser_seigniorage_recipient(*self).len(),
    {
        proof {
            lemma_ser_stake_list_len(self.delegator_stake@);
        }
        25 + 24 * self.delegator_stake.len()
    }

    /// Reads a recipient from the front of `bytes`, returning it with
    /// the number of bytes consumed.
    pub fn from_bytes(bytes: &[u8]) -> (r: Result<(SeigniorageRecipient, usize), Error>)
        ensures
            (match spec_parse_seigniorage_recipient(bytes@, 0) {
                Some(((stake, rate, lst), end)) => (r matches Ok(v) && v.0.stake == stake
                    && v.0.delegation_rate == rate && v.0.delegator_stake@ == lst && v.1 == end),
                None => r == Err::<(SeigniorageRecipient, usize), Error>(Error::Serialization),
            }),
    {
        let (stake, p1) = match read_u128(bytes, 0) {
            Ok(v) => v,
            Err(e) => {
                return Err(e);
            },
        };
        let (rate, p2) = match read_u8(bytes, p1) {
            Ok(v) => v,
            Err(e) => {
                return Err(e);
            },
        };
        let (count, p3) = match read_u64(bytes, p2) {
            Ok(v) => v,
            Err(e) => {
                return Err(e);
            },
        };
        let mut delegator_stake: Vec<(PublicKey, u128)> = Vec::new();
        let mut pos: usize = p3;
        let mut i: u64 = 0;
        while i < count
            invariant
                i <= count,
                delegator_stake@.len() == i,
                spec_parse_u128(bytes@, 0) == Some::<(u128, int)>((stake, p1 as int)),
                spec_parse_u8(bytes@, p1 as int) == Some::<(u8, int)>((rate, p2 as int)),
                spec_parse_u64(bytes@, p2 as int) == Some::<(u64, int)>((count, p3 as int)),
                (match spec_parse_stake_list(bytes@, p3 as int, count as nat) {
                    Some((lst, end)) => spec_parse_stake_list(
                        bytes@,
                        pos as int,
                        (count - i) as nat,
                    ) matches Some(tail) && lst == delegator_stake@ + tail.0 && end == tail.1,
                    None => spec_parse_stake_list(bytes@, pos as int, (count - i) as nat)
                        is None,
                }),
            decreases count - i,
        {
            let (id, q1) = match read_u64(bytes, pos) {
                Ok(v) => v,
                Err(_) => {
                    proof {
                        assert(spec_parse_stake_list(bytes@, pos as int, (count - i) as nat)
                            is None);
                    }
                    return Err(Error::Serialization);
                },
            };
            let (amount, q2) = match read_u128(bytes, q1) {
                Ok(v) => v,
                Err(_) => {
                    proof {
                        assert(spec_parse_stake_list(bytes@, pos as int, (count - i) as nat)
                            is None);
                    }
                    return Err(Error::Serialization);
                },
            };
            proof {
                match spec_parse_stake_list(bytes@, q2 as int, (count - i - 1) as nat) {
                    Some(t) => {
                        assert(delegator_stake@.push((PublicKey { id }, amount)) + t.0
                            =~= delegator_stake@ + (seq![(PublicKey { id }, amount)] + t.0));
                    },
                    None => {},
                }
            }
            delegator_stake.push((PublicKey { id }, amount));
            pos = q2;
            i = i + 1;
        }
        proof {
            assert(delegator_stake@ + Seq::<(PublicKey, u128)>::empty() =~= delegator_stake@);
        }
        Ok((SeigniorageRecipient { stake, delegation_rate: rate, delegator_stake }, pos))
    }
}

} // verus!
