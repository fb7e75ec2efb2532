//! Checked arithmetic for money values.
//!
//! Balances that decide solvency are only ever changed through these
//! functions: a result that leaves the range of its type is an error, never a
//! wrapped or clamped number.

use crate::error::PerpetualsError;
use vstd::prelude::*;

verus! {

/// `arg1 + arg2`, or `MathOverflow` if the sum does not fit.
pub fn checked_add(arg1: u64, arg2: u64) -> (res: Result<u64, PerpetualsError>)
    ensures
        arg1 + arg2 <= u64::MAX ==> res == Ok::<u64, PerpetualsError>((arg1 + arg2) as u64),
        arg1 + arg2 > u64::MAX ==> res == Err::<u64, PerpetualsError>(PerpetualsError::MathOverflow),
{
    match arg1.checked_add(arg2) {
        Some(res) => Ok(res),
        None => Err(PerpetualsError::MathOverflow),
    }
}

/// `arg1 - arg2`, or `MathOverflow` if the difference would be negative.
pub fn checked_sub(arg1: u64, arg2: u64) -> (res: Result<u64, PerpetualsError>)
    ensures
        arg1 >= arg2 ==> res == Ok::<u64, PerpetualsError>((arg1 - arg2) as u64),
        arg1 < arg2 ==> res == Err::<u64, PerpetualsError>(PerpetualsError::MathOverflow),
{
    match arg1.checked_sub(arg2) {
        Some(res) => Ok(res),
        None => Err(PerpetualsError::MathOverflow),
    }
}

/// `arg1 * arg2`, or `MathOverflow` if the product does not fit.
pub fn checked_mul(arg1: u128, arg2: u128) -> (res: Result<u128, PerpetualsError>)
    ensures
        arg1 * arg2 <= u128::MAX ==> res == Ok::<u128, PerpetualsError>((arg1 * arg2) as u128),
        arg1 * arg2 > u128::MAX ==> res == Err::<u128, PerpetualsError>(
            PerpetualsError::MathOverflow,
        ),
{
    match arg1.checked_mul(arg2) {
        Some(res) => Ok(res),
        None => Err(PerpetualsError::MathOverflow),
    }
}

/// `arg1 / arg2` rounded down, or `MathOverflow` if `arg2` is zero.
pub fn checked_div(arg1: u128, arg2: u128) -> (res: Result<u128, PerpetualsError>)
    ensures
        arg2 != 0 ==> res == Ok::<u128, PerpetualsError>(arg1 / arg2),
        arg2 == 0 ==> res == Err::<u128, PerpetualsError>(PerpetualsError::MathOverflow),
{
    match arg1.checked_div(arg2) {
        Some(res) => Ok(res),
        None => Err(PerpetualsError::MathOverflow),
    }
}

/// `arg` as a 64-bit value, or `MathOverflow` if it does not fit.
pub fn checked_as_u64(arg: u128) -> (res: Result<u64, PerpetualsError>)
    ensures
        arg <= u64::MAX ==> res == Ok::<u64, PerpetualsError>(arg as u64),
        arg > u64::MAX ==> res == Err::<u64, PerpetualsError>(PerpetualsError::MathOverflow),
{
    if arg <= 0xffff_ffff_ffff_ffff {
        Ok(arg as u64)
    } else {
        Err(PerpetualsError::MathOverflow)
    }
}

} // verus!
