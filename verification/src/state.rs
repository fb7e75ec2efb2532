//! The records of the ledger.

pub mod pubkey;
pub mod custody;
pub mod layout;
pub mod perpetuals;
pub mod position;
