//! The failures that the ledger rules can report.

use vstd::prelude::*;

verus! {

/// Why an operation was refused. No operation that returns one of these has
/// changed any record that was handed to it by mutable reference.
#[derive(Debug, Clone, Copy, PartialEq, Eq, Structural)]
pub enum PerpetualsError {
    /// The global or the per-custody permission flag forbids the operation.
    InstructionNotAllowed,
    /// An argument of the request is not acceptable, such as a zero price.
    InvalidArgument,
    /// The oracle's price is too old or too uncertain to be used.
    StaleOrInvalidPrice,
    /// The price moved past the bound that the caller gave.
    MaxPriceSlippage,
    /// Neither the stop-loss nor the take-profit threshold was reached.
    LimitNotTriggered,
    /// The custody cannot cover the amount that would leave it.
    CustodyAmountLimit,
    /// A checked arithmetic operation left the range of its type.
    MathOverflow,
    /// The slot holds no position: none was opened in it, or it was closed.
    AccountNotInitialized,
    /// The account does not belong to this program.
    IllegalOwner,
    /// The account's data does not have the expected length.
    InvalidAccountData,
    /// Two records that must name each other do not.
    ConstraintRaw,
    /// The signer is not the owner that the record names.
    ConstraintHasOne,
    /// A write was cut short by the end of the buffer.
    WriteZero,
    /// The record does not fit into the account's data.
    AccountDidNotSerialize,
    /// The account's data is not a well-formed record.
    AccountDidNotDeserialize,
    /// The account's data is too short to tell which kind of record it is.
    AccountDiscriminatorNotFound,
    /// The account holds a record of another kind.
    AccountDiscriminatorMismatch,
}

} // verus!
