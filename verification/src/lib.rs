//! Settlement and governance core of a leveraged trading ledger.
//!
//! The crate holds the rules by which an open position is force-settled once
//! one of its limits is hit, and the rules by which a position record is
//! moved from its former binary layout to the current one. Everything here
//! works on plain values: reading oracles, moving tokens and resizing
//! accounts is left to the host, which hands the results in.

pub mod codec;
pub mod error;
pub mod instructions;
pub mod math;
pub mod state;
pub mod writer;
