//! Errors surfaced by the auction core.

use vstd::prelude::*;

verus! {

/// Every failure an auction operation can report.
///
/// Mint failures (a transfer refused by the purse ledger) are carried in the
/// same enum, so that an inner mint error can be surfaced unchanged through
/// an auction entry point, as the delegation path requires.
#[derive(Clone, Copy, Debug, PartialEq, Eq, Structural)]
pub enum Error {
    /// A named key the core relies on is absent.
    MissingKey,
    /// A named key resolved to something that is not a purse reference.
    InvalidKeyVariant,
    /// A named key resolved to a purse reference with nothing stored under it.
    MissingValue,
    /// The target validator record is absent on a read path.
    ValidatorNotFound,
    /// The target delegator record is absent on a read path.
    DelegatorNotFound,
    /// A bond or delegation amount of zero was supplied.
    BondTooSmall,
    /// A delegation amount below the configured minimum was supplied.
    DelegationAmountTooSmall,
    /// The validator already has the maximum number of delegators.
    ExceededDelegatorSizeLimit,
    /// The bonding purse holds less than the requested unbond amount.
    UnbondTooLarge,
    /// The transfer into a delegator's bonding purse failed outright.
    TransferToDelegatorPurse,
    /// The transfer out of an unbonding purse failed outright.
    TransferToUnbondingPurse,
    /// A walk over bridge records exceeded the chain-length bound.
    BridgeRecordChainTooLong,
    /// Checked arithmetic on a staked amount overflowed.
    InvalidAmount,
    /// A privileged operation was invoked by a non-system caller.
    InvalidCaller,
    /// The validator-slots named key holds an unrepresentable value.
    InvalidValidatorSlotsValue,
    /// A stored record failed to decode.
    Serialization,
    /// Mint error: the source purse holds less than the transfer amount.
    MintInsufficientFunds,
    /// Mint error: the source purse does not exist.
    MintSourceNotFound,
    /// Mint error: the target purse does not exist.
    MintDestinationNotFound,
}

} // verus!
