//! A whitelist entry: a party allowed to delegate to a validator.

use vstd::prelude::*;

use crate::keys::PublicKey;

verus! {

/// Represents a party delegating their stake to a validator (or
/// "delegatee").
#[derive(Clone, Copy, Debug, PartialEq, Eq, Structural)]
pub struct WhitelistEntry {
    /// The delegating party.
    pub delegator_public_key: PublicKey,
    /// The validator delegated to.
    pub validator_public_key: PublicKey,
}

impl WhitelistEntry {
    /// Creates a new whitelist entry.
    pub fn new(delegator_public_key: PublicKey, validator_public_key: PublicKey) -> (r:
        WhitelistEntry)
        ensures
            r == (WhitelistEntry { delegator_public_key, validator_public_key }),
    {
        WhitelistEntry { delegator_public_key, validator_public_key }
    }

    /// Returns the public key of the delegator.
    pub fn delegator_public_key(&self) -> (r: &PublicKey)
        ensures
            r == self.delegator_public_key,
    {
        &self.delegator_public_key
    }

    /// Returns the delegatee.
    pub fn validator_public_key(&self) -> (r: &PublicKey)
        ensures
            r == self.validator_public_key,
    {
        &self.validator_public_key
    }
}

} // verus!
