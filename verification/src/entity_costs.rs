//! Costs of the entity system contract's entry points.

use vstd::prelude::*;

verus! {

/// Default cost of the `add_associated_key` entity entry point.
pub const DEFAULT_ADD_ASSOCIATED_COST: u64 = 10_000;

/// Default cost of the `remove_associated_key` entity entry point.
pub const DEFAULT_REMOVE_ASSOCIATED_COST: u64 = 10_000;

/// Default cost of the `update_associated_key` entity entry point.
pub const DEFAULT_UPDATE_ASSOCIATED_COST: u64 = 10_000;

/// Description of the costs of calling entity entry points.
#[derive(Clone, Copy, Debug, PartialEq, Eq, Structural)]
pub struct EntityCosts {
    /// Cost of calling the `add_associated_key` entry point.
    pub add_associated_key: u64,
    /// Cost of calling the `remove_associated_key` entry point.
    pub remove_associated_key: u64,
    /// Cost of calling the `update_associated_key` entry point.
    pub update_associated_key: u64,
}

impl Default for EntityCosts {
    /// The default costs.
    fn default() -> (r: EntityCosts)
        ensures
            r == (EntityCosts {
                add_associated_key: DEFAULT_ADD_ASSOCIATED_COST,
                remove_associated_key: DEFAULT_REMOVE_ASSOCIATED_COST,
                update_associated_key: DEFAULT_UPDATE_ASSOCIATED_COST,
            }),
    {
        EntityCosts {
            add_associated_key: DEFAULT_ADD_ASSOCIATED_COST,
            remove_associated_key: DEFAULT_REMOVE_ASSOCIATED_COST,
            update_associated_key: DEFAULT_UPDATE_ASSOCIATED_COST,
        }
    }
}

} // verus!
