//! Forced settlement of a position whose limit is reached.
//!
//! Anyone may ask for it; the rules decide. The host reads the oracle and
//! lets the pool compute the exit price and what a closing would move, and
//! hands both in as a quote. If the position may be settled, its locked
//! funds are released and the host is told what to pay out. Once the host
//! has found that the custody can cover the payout, the closing is booked
//! and the slot of the position is emptied.

use crate::error::PerpetualsError;
use crate::state::custody::{CloseAmount, Custody};
use crate::state::perpetuals::Perpetuals;
use crate::state::position::{Position, Side};
use crate::state::pubkey::Pubkey;
use vstd::prelude::*;

verus! {

/// The holder and the asset of a token account.
#[derive(Debug, Clone, Copy, PartialEq, Eq, Default)]
pub struct TokenAccount {
    pub mint: Pubkey,
    pub owner: Pubkey,
}

/// The records that a trigger reads and changes.
#[derive(Debug, Clone, Copy, PartialEq, Eq)]
pub struct TriggerPosition {
    /// Where the payout goes. It must hold the asset of the custody for the
    /// owner of the position.
    pub receiving_account: TokenAccount,
    pub perpetuals: Perpetuals,
    pub position: Position,
    pub custody: Custody,
    /// The oracle account that was handed in. It must be the one that the
    /// custody names.
    pub custody_oracle_account: Pubkey,
}

/// What the caller of a trigger supplies.
#[derive(Debug, Clone, Copy, PartialEq, Eq, Structural)]
pub struct TriggerPositionParams {
    /// The price at which the caller expects the position to be closed. It
    /// bounds the exit price: from below for a long position, from above
    /// for a short one.
    pub price: u64,
}

/// One reading of the oracle that the host is to make.
#[derive(Debug, Clone, Copy, PartialEq, Eq)]
pub struct OracleQuery {
    pub oracle_account: Pubkey,
    pub max_price_error: u64,
    pub max_price_age_sec: u32,
    /// Whether the time-weighted price is asked for.
    pub use_ema: bool,
}

impl OracleQuery {
    /// Whether a price of the given age and error is within the bounds of
    /// the query.
    pub open spec fn accepts(self, age_sec: u64, error: u64) -> bool {
        age_sec <= self.max_price_age_sec && error <= self.max_price_error
    }

    /// Checks what the oracle reported for this query: the age of its price
    /// at the current time of the ledger, in seconds, and the error of the
    /// price. A price that is older or less certain than the query allows
    /// is refused with `StaleOrInvalidPrice`.
    pub fn check_reading(&self, age_sec: u64, error: u64) -> (res: Result<(), PerpetualsError>)
        ensures
            self.accepts(age_sec, error) ==> res == Ok::<(), PerpetualsError>(()),
            !self.accepts(age_sec, error) ==> res == Err::<(), PerpetualsError>(
                PerpetualsError::StaleOrInvalidPrice,
            ),
    {
        if age_sec > self.max_price_age_sec as u64 || error > self.max_price_error {
            Err(PerpetualsError::StaleOrInvalidPrice)
        } else {
            Ok(())
        }
    }
}

/// What the host has computed for a trigger from the two prices.
#[derive(Debug, Clone, Copy, PartialEq, Eq, Structural)]
pub struct TriggerQuote {
    /// The price at which the pool would unwind the position.
    pub exit_price: u64,
    /// What closing the position now would move.
    pub amount: CloseAmount,
}

/// A settlement that is decided but not yet booked. The host is to find out
/// whether `custody` can cover `amount.transfer_amount`, and to pay that
/// out.
#[derive(Debug, Clone, Copy, PartialEq, Eq)]
pub struct PendingTransfer {
    /// The ledger with the locked funds of the position released.
    pub custody: Custody,
    pub position: Position,
    pub amount: CloseAmount,
}

/// Whether an exit price respects the bound that the caller gave: a long
/// position must not be closed below it, any other not above it.
pub open spec fn slippage_ok(side: Side, exit_price: u64, price: u64) -> bool {
    if side == Side::Long {
        exit_price >= price
    } else {
        price >= exit_price
    }
}

/// The bound on the price cuts both ways. A long position is never closed
/// below the price of the caller and a short one never above it, and an
/// exit price that meets the price of the caller is accepted for both.
pub proof fn lemma_slippage_symmetric(exit_price: u64, price: u64)
    ensures
        price > exit_price ==> !slippage_ok(Side::Long, exit_price, price),
        price < exit_price ==> !slippage_ok(Side::Short, exit_price, price),
        price == exit_price ==> slippage_ok(Side::Long, exit_price, price) && slippage_ok(
            Side::Short,
            exit_price,
            price,
        ),
{
}

/// Checks the exit price against the bound that the caller gave, and fails
/// with `MaxPriceSlippage` if it is not respected.
pub fn check_slippage(side: Side, exit_price: u64, price: u64) -> (res: Result<
    (),
    PerpetualsError,
>)
    ensures
        slippage_ok(side, exit_price, price) ==> res == Ok::<(), PerpetualsError>(()),
        !slippage_ok(side, exit_price, price) ==> res == Err::<(), PerpetualsError>(
            PerpetualsError::MaxPriceSlippage,
        ),
{
    if side == Side::Long {
        if exit_price >= price {
            Ok(())
        } else {
            Err(PerpetualsError::MaxPriceSlippage)
        }
    } else {
        if price >= exit_price {
            Ok(())
        } else {
            Err(PerpetualsError::MaxPriceSlippage)
        }
    }
}

impl TriggerPosition {
    /// Whether the records belong together: the receiving account holds the
    /// asset of the custody for the owner of the position, and the oracle
    /// account is the one of the custody.
    pub open spec fn constraints_hold(self) -> bool {
        &&& self.receiving_account.mint@ == self.custody.mint@
        &&& self.receiving_account.owner@ == self.position.owner@
        &&& self.custody_oracle_account@ == self.custody.oracle.oracle_account@
    }

    /// Whether both the program and the custody allow positions to be
    /// closed.
    pub open spec fn allowed(self) -> bool {
        self.perpetuals.permissions.allow_close_position
            && self.custody.permissions.allow_close_position
    }

    /// Why the trigger is refused, if it is. The reasons are looked for in
    /// this order, and the first that holds is given.
    pub open spec fn rejection(
        self,
        params: TriggerPositionParams,
        quote: TriggerQuote,
    ) -> Option<PerpetualsError> {
        if !self.position.is_open() {
            Some(PerpetualsError::AccountNotInitialized)
        } else if !self.constraints_hold() {
            Some(PerpetualsError::ConstraintRaw)
        } else if !self.allowed() {
            Some(PerpetualsError::InstructionNotAllowed)
        } else if params.price == 0 {
            Some(PerpetualsError::InvalidArgument)
        } else if !slippage_ok(self.position.side, quote.exit_price, params.price) {
            Some(PerpetualsError::MaxPriceSlippage)
        } else if !(self.position.stop_loss_reached(quote.amount.loss_usd)
            || self.position.take_profit_reached(quote.amount.profit_usd)) {
            Some(PerpetualsError::LimitNotTriggered)
        } else if self.position.locked_amount > self.custody.assets.locked {
            Some(PerpetualsError::MathOverflow)
        } else {
            None
        }
    }

    /// A position is settled once. When a settlement has emptied the slot,
    /// every further trigger on it is refused, whatever the price and the
    /// quote.
    pub proof fn lemma_settled_once(self, params: TriggerPositionParams, quote: TriggerQuote)
        requires
            self.position == Position::empty(),
        ensures
            self.rejection(params, quote) == Some(PerpetualsError::AccountNotInitialized),
    {
    }

    /// Without a limit that is reached there is no settlement: a position
    /// that has no limit set is never settled by a trigger.
    pub proof fn lemma_needs_limit(self, params: TriggerPositionParams, quote: TriggerQuote)
        requires
            self.position.stop_loss is None,
            self.position.take_profit is None,
        ensures
            self.rejection(params, quote) is Some,
    {
    }

    /// The two readings of the oracle that a quote needs: the spot price,
    /// and the smoothed price, which is the time-weighted one if the custody
    /// says so. Both are read from the oracle of the custody, within its
    /// bounds on error and age.
    pub fn oracle_queries(&self) -> (queries: (OracleQuery, OracleQuery))
        ensures
            queries.0 == (OracleQuery {
                oracle_account: self.custody.oracle.oracle_account,
                max_price_error: self.custody.oracle.max_price_error,
                max_price_age_sec: self.custody.oracle.max_price_age_sec,
                use_ema: false,
            }),
            queries.1 == (OracleQuery { use_ema: self.custody.pricing.use_ema, ..queries.0 }),
    {
        let spot = OracleQuery {
            oracle_account: self.custody.oracle.oracle_account,
            max_price_error: self.custody.oracle.max_price_error,
            max_price_age_sec: self.custody.oracle.max_price_age_sec,
            use_ema: false,
        };
        let smoothed = OracleQuery { use_ema: self.custody.pricing.use_ema, ..spot };
        (spot, smoothed)
    }
}

/// Decides whether the position of `ctx` is settled at the quoted price.
///
/// It is refused if the slot holds no position, if the records do not
/// belong together, if closing is not allowed, if the price of the caller
/// is zero, if the exit price is beyond that price, if neither limit is
/// reached, or if less is locked than the position has locked. Else the
/// result holds the ledger with the locked funds of the position released,
/// and what is to be paid out. No record of `ctx` is changed either way.
pub fn trigger_position(
    ctx: &TriggerPosition,
    params: &TriggerPositionParams,
    quote: &TriggerQuote,
) -> (res: Result<PendingTransfer, PerpetualsError>)
    ensures
        match ctx.rejection(*params, *quote) {
            Some(e) => res == Err::<PendingTransfer, PerpetualsError>(e),
            None => res == Ok::<PendingTransfer, PerpetualsError>(
                PendingTransfer {
                    custody: ctx.custody.unlocked(ctx.position.locked_amount),
                    position: ctx.position,
                    amount: quote.amount,
                },
            ),
        },
{
    if ctx.position.side == Side::Unset {
        return Err(PerpetualsError::AccountNotInitialized);
    }
    if !(ctx.receiving_account.mint == ctx.custody.mint && ctx.receiving_account.owner
        == ctx.position.owner && ctx.custody_oracle_account == ctx.custody.oracle.oracle_account) {
        return Err(PerpetualsError::ConstraintRaw);
    }
    // check permissions
    if !(ctx.perpetuals.permissions.allow_close_position
        && ctx.custody.permissions.allow_close_position) {
        return Err(PerpetualsError::InstructionNotAllowed);
    }
    // validate inputs
    if params.price == 0 {
        return Err(PerpetualsError::InvalidArgument);
    }
    check_slippage(ctx.position.side, quote.exit_price, params.price)?;

    if !ctx.position.limits_triggered(quote.amount.profit_usd, quote.amount.loss_usd) {
        return Err(PerpetualsError::LimitNotTriggered);
    }
    // unlock pool funds
    let mut custody = ctx.custody;
    custody.unlock_funds(ctx.position.locked_amount)?;

    Ok(PendingTransfer { custody, position: ctx.position, amount: quote.amount })
}

impl PendingTransfer {
    /// Books the settlement in `ctx` and returns what is paid out, given
    /// whether the custody can cover it. If it cannot, the call fails with
    /// `CustodyAmountLimit`; if a balance would leave its range, with
    /// `MathOverflow`; either way `ctx` is left as it was. Else the custody
    /// of `ctx` becomes the ledger of the settlement with the closing
    /// booked, and the slot of the position becomes empty.
    pub fn settle(&self, ctx: &mut TriggerPosition, available: bool) -> (res: Result<
        u64,
        PerpetualsError,
    >)
        ensures
            !available ==> res == Err::<u64, PerpetualsError>(PerpetualsError::CustodyAmountLimit),
            available && !self.custody.can_close(self.position, self.amount) ==> res == Err::<
                u64,
                PerpetualsError,
            >(PerpetualsError::MathOverflow),
            available && self.custody.can_close(self.position, self.amount) ==> res == Ok::<
                u64,
                PerpetualsError,
            >(self.amount.transfer_amount),
            res is Err ==> *final(ctx) == *old(ctx),
            res is Ok ==> *final(ctx) == (TriggerPosition {
                custody: self.custody.closed(self.position, self.amount),
                position: Position::empty(),
                ..*old(ctx)
            }),
    {
        // check pool constraints
        if !available {
            return Err(PerpetualsError::CustodyAmountLimit);
        }
        // update custody stats
        let mut custody = self.custody;
        custody.close_position(&self.position, &self.amount)?;

        ctx.custody = custody;
        ctx.position = Position::default();
        Ok(self.amount.transfer_amount)
    }
}

} // verus!
