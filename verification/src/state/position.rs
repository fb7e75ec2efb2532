//! Leveraged positions, in their current and in their former form.

use crate::error::PerpetualsError;
use crate::math;
use crate::state::perpetuals::Perpetuals;
use crate::state::pubkey::Pubkey;
use vstd::prelude::*;

verus! {

/// The direction of a position. `Unset` marks a slot that holds no position.
#[derive(Copy, Clone, PartialEq, Eq, Structural, Debug)]
pub enum Side {
    Unset,
    Long,
    Short,
}

impl Default for Side {
    fn default() -> (side: Self)
        ensures
            side == Side::Unset,
    {
        Self::Unset
    }
}

/// Whether collateral enters or leaves a position when it is changed.
#[derive(Copy, Clone, PartialEq, Eq, Structural, Debug)]
pub enum CollateralChange {
    Unchanged,
    Add,
    Remove,
}

impl Default for CollateralChange {
    fn default() -> (change: Self)
        ensures
            change == CollateralChange::Unchanged,
    {
        Self::Unchanged
    }
}

/// A position as it was stored before limits existed.
#[derive(Clone, Copy, Debug, PartialEq, Eq)]
pub struct DeprecatedPosition {
    pub owner: Pubkey,
    pub pool: Pubkey,
    pub custody: Pubkey,
    pub open_time: i64,
    pub update_time: i64,
    pub side: Side,
    pub price: u64,
    pub size_usd: u64,
    pub collateral_usd: u64,
    pub unrealized_profit_usd: u64,
    pub unrealized_loss_usd: u64,
    pub cumulative_interest_snapshot: u128,
    pub locked_amount: u64,
    pub collateral_amount: u64,
    pub bump: u8,
}

/// A leveraged exposure of one owner in one custody of one pool, on one
/// side. The two limits are thresholds on the computed loss and profit, in
/// the quote currency, not on the price.
#[derive(Clone, Copy, Debug, PartialEq, Eq)]
pub struct Position {
    pub owner: Pubkey,
    pub pool: Pubkey,
    pub custody: Pubkey,
    pub open_time: i64,
    pub update_time: i64,
    pub side: Side,
    pub price: u64,
    pub size_usd: u64,
    pub collateral_usd: u64,
    pub unrealized_profit_usd: u64,
    pub unrealized_loss_usd: u64,
    pub cumulative_interest_snapshot: u128,
    pub locked_amount: u64,
    pub collateral_amount: u64,
    pub stop_loss: Option<u64>,
    pub take_profit: Option<u64>,
    pub bump: u8,
}

impl Default for DeprecatedPosition {
    /// The content of a slot that holds no position.
    fn default() -> (position: Self)
        ensures
            position == Position::empty().without_limits(),
    {
        DeprecatedPosition {
            owner: Pubkey::default(),
            pool: Pubkey::default(),
            custody: Pubkey::default(),
            open_time: 0,
            update_time: 0,
            side: Side::Unset,
            price: 0,
            size_usd: 0,
            collateral_usd: 0,
            unrealized_profit_usd: 0,
            unrealized_loss_usd: 0,
            cumulative_interest_snapshot: 0,
            locked_amount: 0,
            collateral_amount: 0,
            bump: 0,
        }
    }
}

impl DeprecatedPosition {
    /// The length of an account that holds a position in its former form.
    pub const LEN: usize = 200;

    /// The same position in its current form: every value is kept and no
    /// limit is set.
    pub open spec fn upgraded(self) -> Position {
        Position {
            owner: self.owner,
            pool: self.pool,
            custody: self.custody,
            open_time: self.open_time,
            update_time: self.update_time,
            side: self.side,
            price: self.price,
            size_usd: self.size_usd,
            collateral_usd: self.collateral_usd,
            unrealized_profit_usd: self.unrealized_profit_usd,
            unrealized_loss_usd: self.unrealized_loss_usd,
            cumulative_interest_snapshot: self.cumulative_interest_snapshot,
            locked_amount: self.locked_amount,
            collateral_amount: self.collateral_amount,
            stop_loss: None,
            take_profit: None,
            bump: self.bump,
        }
    }
}

impl Default for Position {
    /// The content of a slot that holds no position.
    fn default() -> (position: Self)
        ensures
            position == Position::empty(),
    {
        Position {
            owner: Pubkey::default(),
            pool: Pubkey::default(),
            custody: Pubkey::default(),
            open_time: 0,
            update_time: 0,
            side: Side::Unset,
            price: 0,
            size_usd: 0,
            collateral_usd: 0,
            unrealized_profit_usd: 0,
            unrealized_loss_usd: 0,
            cumulative_interest_snapshot: 0,
            locked_amount: 0,
            collateral_amount: 0,
            stop_loss: None,
            take_profit: None,
            bump: 0,
        }
    }
}

impl Position {
    /// The length of an account that holds a position.
    pub const LEN: usize = 232;

    /// The content of a slot that holds no position: no side, no owner, and
    /// zero everywhere.
    pub open spec fn empty() -> Position {
        Position {
            owner: Pubkey::zeroed(),
            pool: Pubkey::zeroed(),
            custody: Pubkey::zeroed(),
            open_time: 0,
            update_time: 0,
            side: Side::Unset,
            price: 0,
            size_usd: 0,
            collateral_usd: 0,
            unrealized_profit_usd: 0,
            unrealized_loss_usd: 0,
            cumulative_interest_snapshot: 0,
            locked_amount: 0,
            collateral_amount: 0,
            stop_loss: None,
            take_profit: None,
            bump: 0,
        }
    }

    /// Whether the slot holds a position. A position that was opened has a
    /// side; a slot without one was never opened or is closed.
    pub open spec fn is_open(self) -> bool {
        self.side != Side::Unset
    }

    /// The position without its limits, as its former form holds it.
    pub open spec fn without_limits(self) -> DeprecatedPosition {
        DeprecatedPosition {
            owner: self.owner,
            pool: self.pool,
            custody: self.custody,
            open_time: self.open_time,
            update_time: self.update_time,
            side: self.side,
            price: self.price,
            size_usd: self.size_usd,
            collateral_usd: self.collateral_usd,
            unrealized_profit_usd: self.unrealized_profit_usd,
            unrealized_loss_usd: self.unrealized_loss_usd,
            cumulative_interest_snapshot: self.cumulative_interest_snapshot,
            locked_amount: self.locked_amount,
            collateral_amount: self.collateral_amount,
            bump: self.bump,
        }
    }

    /// Whether a loss of `loss_usd` has reached the stop-loss. It never has
    /// if none is set.
    pub open spec fn stop_loss_reached(self, loss_usd: u64) -> bool {
        self.stop_loss matches Some(stop_loss) && loss_usd >= stop_loss
    }

    /// Whether a profit of `profit_usd` has reached the take-profit. It
    /// never has if none is set.
    pub open spec fn take_profit_reached(self, profit_usd: u64) -> bool {
        self.take_profit matches Some(take_profit) && profit_usd >= take_profit
    }

    /// Whether one of the two limits of the position is reached, given its
    /// computed profit and loss.
    pub fn limits_triggered(&self, profit_usd: u64, loss_usd: u64) -> (triggered: bool)
        ensures
            triggered == (self.stop_loss_reached(loss_usd) || self.take_profit_reached(
                profit_usd,
            )),
    {
        let stop_loss_triggered = match self.stop_loss {
            Some(stop_loss) => loss_usd >= stop_loss,
            None => false,
        };
        let take_profit_triggered = match self.take_profit {
            Some(take_profit) => profit_usd >= take_profit,
            None => false,
        };
        stop_loss_triggered || take_profit_triggered
    }

    /// The notional size over the collateral, scaled by
    /// `Perpetuals::BPS_POWER` and rounded down.
    pub open spec fn initial_leverage(self) -> int {
        self.size_usd * Perpetuals::BPS_POWER / (self.collateral_usd as int)
    }

    /// The leverage at which the position was opened. It fails with
    /// `MathOverflow` if there is no collateral or if the ratio does not fit
    /// into 64 bits.
    pub fn get_initial_leverage(&self) -> (res: Result<u64, PerpetualsError>)
        ensures
            self.collateral_usd != 0 && self.initial_leverage() <= u64::MAX ==> res == Ok::<
                u64,
                PerpetualsError,
            >(self.initial_leverage() as u64),
            self.collateral_usd == 0 || self.initial_leverage() > u64::MAX ==> res == Err::<
                u64,
                PerpetualsError,
            >(PerpetualsError::MathOverflow),
    {
        math::checked_as_u64(
            math::checked_div(
                math::checked_mul(self.size_usd as u128, Perpetuals::BPS_POWER)?,
                self.collateral_usd as u128,
            )?,
        )
    }
}

} // verus!
