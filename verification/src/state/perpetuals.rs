//! The settings that hold for every pool.

use vstd::prelude::*;

verus! {

/// What the operator allows. Each flag gates one kind of operation.
#[derive(Debug, Clone, Copy, PartialEq, Eq, Structural, Default)]
pub struct Permissions {
    /// Whether positions may be closed, by their owner or by a trigger, and
    /// whether their limits may be changed.
    pub allow_close_position: bool,
}

/// The global record of the program.
#[derive(Debug, Clone, Copy, PartialEq, Eq, Structural, Default)]
pub struct Perpetuals {
    pub permissions: Permissions,
}

impl Perpetuals {
    /// The fixed-point scale of ratios such as leverage: a ratio of one is
    /// stored as this number.
    pub const BPS_POWER: u128 = 100_000;
}

} // verus!
