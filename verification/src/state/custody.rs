//! The ledger of one asset of a pool.
//!
//! Each counter of the ledger has its own policy for results that leave the
//! range of 64 bits. Balances that decide solvency are checked: the update
//! fails and nothing changes. The open interest is saturating: it stops at
//! zero. Lifetime totals are wrapping: they are informational and start
//! over.

use crate::error::PerpetualsError;
use crate::math;
use crate::state::perpetuals::Permissions;
use crate::state::position::{Position, Side};
use crate::state::pubkey::Pubkey;
use vstd::prelude::*;

verus! {

/// Where the price of the asset comes from and how far it is trusted.
#[derive(Debug, Clone, Copy, PartialEq, Eq, Default)]
pub struct OracleParams {
    pub oracle_account: Pubkey,
    /// The largest relative error of a price that is still accepted.
    pub max_price_error: u64,
    /// The largest age of a price, in seconds, that is still accepted.
    pub max_price_age_sec: u32,
}

/// How the asset is priced.
#[derive(Debug, Clone, Copy, PartialEq, Eq, Structural, Default)]
pub struct PricingParams {
    /// Whether the smoothed price is the time-weighted one.
    pub use_ema: bool,
}

/// The fee settings that a settlement reads.
#[derive(Debug, Clone, Copy, PartialEq, Eq, Structural, Default)]
pub struct Fees {
    /// The share of each fee that goes to the protocol.
    pub protocol_share: u64,
}

/// The balances of the custody, in units of the asset. All are checked.
#[derive(Debug, Clone, Copy, PartialEq, Eq, Structural, Default)]
pub struct Assets {
    /// Collateral that positions have deposited.
    pub collateral: u64,
    /// Fees that are owed to the protocol.
    pub protocol_fees: u64,
    /// What the pool owns.
    pub owned: u64,
    /// What is set aside to pay out open positions.
    pub locked: u64,
}

/// Lifetime totals of collected fees, in the quote currency. Wrapping.
#[derive(Debug, Clone, Copy, PartialEq, Eq, Structural, Default)]
pub struct FeesStats {
    pub close_position_usd: u64,
}

/// Lifetime totals of traded volume, in the quote currency. Wrapping.
#[derive(Debug, Clone, Copy, PartialEq, Eq, Structural, Default)]
pub struct VolumeStats {
    pub close_position_usd: u64,
}

/// Totals over the positions of the custody, in the quote currency.
#[derive(Debug, Clone, Copy, PartialEq, Eq, Structural, Default)]
pub struct TradeStats {
    /// Lifetime profit of closed positions. Wrapping.
    pub profit_usd: u64,
    /// Lifetime loss of closed positions. Wrapping.
    pub loss_usd: u64,
    /// Open interest of long positions. Saturating.
    pub oi_long_usd: u64,
    /// Open interest of short positions. Saturating.
    pub oi_short_usd: u64,
}

/// What the closing of a position moves, as the pool computes it from the
/// position, the prices and the time.
#[derive(Debug, Clone, Copy, PartialEq, Eq, Structural, Default)]
pub struct CloseAmount {
    /// What is paid out to the owner, in units of the asset.
    pub transfer_amount: u64,
    /// The fee, in units of the asset.
    pub fee_amount: u64,
    /// The value of the fee in the quote currency, at the smoothed price.
    pub fee_amount_usd: u64,
    /// The part of the fee that goes to the protocol, in units of the asset.
    pub protocol_fee: u64,
    /// The profit of the position, in the quote currency.
    pub profit_usd: u64,
    /// The loss of the position, in the quote currency.
    pub loss_usd: u64,
}

/// The ledger of one asset of a pool.
#[derive(Debug, Clone, Copy, PartialEq, Eq, Default)]
pub struct Custody {
    pub mint: Pubkey,
    pub decimals: u8,
    pub oracle: OracleParams,
    pub pricing: PricingParams,
    pub permissions: Permissions,
    pub fees: Fees,
    pub assets: Assets,
    pub collected_fees: FeesStats,
    pub volume_stats: VolumeStats,
    pub trade_stats: TradeStats,
}

/// `total + amount`, starting over at `2^64`.
pub open spec fn wrapped_sum(total: u64, amount: u64) -> u64 {
    ((total + amount) % 0x1_0000_0000_0000_0000) as u64
}

/// `total - amount`, or zero if that would be negative.
pub open spec fn floored_difference(total: u64, amount: u64) -> u64 {
    if total >= amount {
        (total - amount) as u64
    } else {
        0
    }
}

impl Custody {
    /// The ledger with `amount` fewer locked funds.
    pub open spec fn unlocked(self, amount: u64) -> Custody {
        Custody {
            assets: Assets { locked: (self.assets.locked - amount) as u64, ..self.assets },
            ..self
        }
    }

    /// Releases exactly `amount` of the locked funds. If less than that is
    /// locked the books are broken: the call fails with `MathOverflow` and
    /// changes nothing.
    pub fn unlock_funds(&mut self, amount: u64) -> (res: Result<(), PerpetualsError>)
        ensures
            amount <= old(self).assets.locked ==> res == Ok::<(), PerpetualsError>(())
                && *final(self) == old(self).unlocked(amount),
            amount > old(self).assets.locked ==> res == Err::<(), PerpetualsError>(
                PerpetualsError::MathOverflow,
            ) && *final(self) == *old(self),
    {
        self.assets.locked = math::checked_sub(self.assets.locked, amount)?;
        Ok(())
    }

    /// What the pool owns once `position` is closed and `transfer_amount`
    /// is paid out: the collateral of the position stays, the payout
    /// leaves. This may lie outside the range of a balance.
    pub open spec fn owned_after(self, position: Position, transfer_amount: u64) -> int {
        self.assets.owned + position.collateral_amount - transfer_amount
    }

    /// Whether the balances stay in range when `position` is closed.
    pub open spec fn can_close(self, position: Position, amount: CloseAmount) -> bool {
        &&& 0 <= self.owned_after(position, amount.transfer_amount) <= u64::MAX
        &&& position.collateral_amount <= self.assets.collateral
        &&& self.assets.protocol_fees + amount.protocol_fee <= u64::MAX
    }

    /// The ledger after `position` is closed, if the balances stay in
    /// range.
    pub open spec fn closed(self, position: Position, amount: CloseAmount) -> Custody {
        Custody {
            assets: Assets {
                owned: self.owned_after(position, amount.transfer_amount) as u64,
                collateral: (self.assets.collateral - position.collateral_amount) as u64,
                protocol_fees: (self.assets.protocol_fees + amount.protocol_fee) as u64,
                locked: self.assets.locked,
            },
            collected_fees: FeesStats {
                close_position_usd: wrapped_sum(
                    self.collected_fees.close_position_usd,
                    amount.fee_amount_usd,
                ),
            },
            volume_stats: VolumeStats {
                close_position_usd: wrapped_sum(
                    self.volume_stats.close_position_usd,
                    position.size_usd,
                ),
            },
            trade_stats: TradeStats {
                profit_usd: wrapped_sum(self.trade_stats.profit_usd, amount.profit_usd),
                loss_usd: wrapped_sum(self.trade_stats.loss_usd, amount.loss_usd),
                oi_long_usd: if position.side == Side::Long {
                    floored_difference(self.trade_stats.oi_long_usd, position.size_usd)
                } else {
                    self.trade_stats.oi_long_usd
                },
                oi_short_usd: if position.side == Side::Long {
                    self.trade_stats.oi_short_usd
                } else {
                    floored_difference(self.trade_stats.oi_short_usd, position.size_usd)
                },
            },
            ..self
        }
    }

    /// Closing a position neither creates nor destroys funds. What the pool
    /// owns afterwards, together with the payout, is what it owned before,
    /// together with the collateral of the position: a payout below the
    /// collateral raises what the pool owns by the difference, a payout above
    /// it lowers it by the difference, and an equal one leaves it as it is.
    pub proof fn lemma_owned_conserved(self, position: Position, amount: CloseAmount)
        requires
            self.can_close(position, amount),
        ensures
            self.closed(position, amount).assets.owned + amount.transfer_amount
                == self.assets.owned + position.collateral_amount,
            amount.transfer_amount < position.collateral_amount ==> self.closed(
                position,
                amount,
            ).assets.owned == self.assets.owned + (position.collateral_amount
                - amount.transfer_amount),
            amount.transfer_amount > position.collateral_amount ==> self.closed(
                position,
                amount,
            ).assets.owned == self.assets.owned - (amount.transfer_amount
                - position.collateral_amount),
            amount.transfer_amount == position.collateral_amount ==> self.closed(
                position,
                amount,
            ).assets.owned == self.assets.owned,
    {
    }

    /// Closing a position touches the counters of its own side only, leaves
    /// the locked funds alone, and never lets the open interest grow.
    pub proof fn lemma_closed_counters(self, position: Position, amount: CloseAmount)
        ensures
            self.closed(position, amount).assets.locked == self.assets.locked,
            self.closed(position, amount).trade_stats.oi_long_usd <= self.trade_stats.oi_long_usd,
            self.closed(position, amount).trade_stats.oi_short_usd
                <= self.trade_stats.oi_short_usd,
            position.side == Side::Long ==> self.closed(position, amount).trade_stats.oi_short_usd
                == self.trade_stats.oi_short_usd,
            position.side != Side::Long ==> self.closed(position, amount).trade_stats.oi_long_usd
                == self.trade_stats.oi_long_usd,
    {
    }

    /// Books the closing of `position`. The fee and the size are added to
    /// the lifetime totals, as are profit and loss. What the pool owns
    /// changes by the difference between the collateral of the position and
    /// the payout; the collateral leaves the collateral balance; the
    /// protocol fee is added to what the protocol is owed. The open interest
    /// of the side of the position shrinks by its size. If one of the three
    /// balances would leave its range, the call fails with `MathOverflow`
    /// and changes nothing.
    pub fn close_position(&mut self, position: &Position, amount: &CloseAmount) -> (res: Result<
        (),
        PerpetualsError,
    >)
        ensures
            old(self).can_close(*position, *amount) ==> res == Ok::<(), PerpetualsError>(())
                && *final(self) == old(self).closed(*position, *amount),
            !old(self).can_close(*position, *amount) ==> res == Err::<(), PerpetualsError>(
                PerpetualsError::MathOverflow,
            ) && *final(self) == *old(self),
    {
        let mut custody = *self;
        custody.collected_fees.close_position_usd =
            custody.collected_fees.close_position_usd.wrapping_add(amount.fee_amount_usd);
        custody.volume_stats.close_position_usd =
            custody.volume_stats.close_position_usd.wrapping_add(position.size_usd);

        if amount.transfer_amount > position.collateral_amount {
            let amount_lost = amount.transfer_amount.saturating_sub(position.collateral_amount);
            custody.assets.owned = math::checked_sub(custody.assets.owned, amount_lost)?;
        } else {
            let amount_gained = position.collateral_amount.saturating_sub(amount.transfer_amount);
            custody.assets.owned = math::checked_add(custody.assets.owned, amount_gained)?;
        }
        custody.assets.collateral =
            math::checked_sub(custody.assets.collateral, position.collateral_amount)?;
        custody.assets.protocol_fees =
            math::checked_add(custody.assets.protocol_fees, amount.protocol_fee)?;

        if position.side == Side::Long {
            custody.trade_stats.oi_long_usd =
                custody.trade_stats.oi_long_usd.saturating_sub(position.size_usd);
        } else {
            custody.trade_stats.oi_short_usd =
                custody.trade_stats.oi_short_usd.saturating_sub(position.size_usd);
        }

        custody.trade_stats.profit_usd =
            custody.trade_stats.profit_usd.wrapping_add(amount.profit_usd);
        custody.trade_stats.loss_usd = custody.trade_stats.loss_usd.wrapping_add(amount.loss_usd);

        *self = custody;
        Ok(())
    }
}

} // verus!
