//! The operations on the ledger.

pub mod trigger_position;
pub mod update_position_limits;
pub mod upgrade_position;
