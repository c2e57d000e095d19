//! Identity and addressing types.
//!
//! Public keys, account hashes and purse references are opaque value types
//! with a total order and a deterministic derivation from one another; each
//! is modeled by its numeric identity. `BidAddr` is the structured key that
//! discriminates the bid record subspace.

use vstd::prelude::*;

verus! {

/// The identity reserved for the system itself.
pub const SYSTEM_KEY_ID: u64 = 0;

/// A validator or delegator identity, modeled by an opaque numeric id.
#[derive(Clone, Copy, Debug, Hash, PartialEq, Eq, Structural)]
pub struct PublicKey {
    pub id: u64,
}

/// The hash of an account's public key; unbond lists are keyed by it.
#[derive(Clone, Copy, Debug, Hash, PartialEq, Eq, Structural)]
pub struct AccountHash {
    pub value: u64,
}

/// A reference to a purse holding funds, modeled by an opaque numeric id.
#[derive(Clone, Copy, Debug, Hash, PartialEq, Eq, Structural)]
pub struct URef {
    pub id: u64,
}

/// A signing key; the public key with the same id is derived from it.
#[derive(Clone, Copy, Debug, Hash, PartialEq, Eq, Structural)]
pub struct SecretKey {
    pub id: u64,
}

impl PublicKey {
    /// The distinguished system identity.
    pub fn system() -> (r: PublicKey)
        ensures
            r == (PublicKey { id: SYSTEM_KEY_ID }),
    {
        PublicKey { id: SYSTEM_KEY_ID }
    }

    /// Whether this key is the system identity.
    pub open spec fn is_system(self) -> bool {
        self.id == SYSTEM_KEY_ID
    }

    /// The account hash deterministically derived from this key.
    pub open spec fn account_hash(self) -> AccountHash {
        AccountHash { value: self.id }
    }

    /// Derives the account hash of this key.
    pub fn to_account_hash(&self) -> (r: AccountHash)
        ensures
            r == self.account_hash(),
    {
        AccountHash { value: self.id }
    }
}

impl SecretKey {
    /// The public key derived from this secret key.
    pub open spec fn public_key(self) -> PublicKey {
        PublicKey { id: self.id }
    }

    /// Derives the public key of this secret key.
    pub fn to_public_key(&self) -> (r: PublicKey)
        ensures
            r == self.public_key(),
    {
        PublicKey { id: self.id }
    }
}

/// A structured identifier discriminating the bid record subspace.
#[derive(Clone, Copy, Debug, PartialEq, Eq, Structural)]
pub enum BidAddr {
    /// One per validator identity; bridge records left behind by a key
    /// rotation are also stored under the rotated-away validator address.
    Validator(PublicKey),
    /// At most one per (validator, delegator) pair.
    Delegator(PublicKey, PublicKey),
    /// Per-validator, per-era accumulated credit.
    Credit(PublicKey, u64),
    /// An old identity pointing at a new validator identity.
    Bridge(PublicKey),
}

impl BidAddr {
    /// Whether this address lies in the delegator subspace of `validator`,
    /// i.e. under the byte prefix that enumerates its delegator records.
    pub open spec fn is_delegator_of(self, validator: PublicKey) -> bool {
        match self {
            BidAddr::Delegator(v, _) => v == validator,
            _ => false,
        }
    }
}

} // verus!
