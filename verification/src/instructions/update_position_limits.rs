//! Setting the limits of a position.

use crate::error::PerpetualsError;
use crate::state::custody::Custody;
use crate::state::perpetuals::Perpetuals;
use crate::state::position::{Position, Side};
use crate::state::pubkey::Pubkey;
use vstd::prelude::*;

verus! {

/// The records that a change of limits reads and changes.
#[derive(Debug, Clone, Copy, PartialEq, Eq)]
pub struct UpdatePositionLimits {
    /// Who signed the request. It must be the owner of the position.
    pub owner: Pubkey,
    pub perpetuals: Perpetuals,
    pub position: Position,
    pub custody: Custody,
}

/// The limits that the position is to have from now on. A limit that is
/// not given is removed.
#[derive(Debug, Clone, Copy, PartialEq, Eq, Structural)]
pub struct UpdatePositionLimitsParams {
    pub stop_loss: Option<u64>,
    pub take_profit: Option<u64>,
}

impl UpdatePositionLimits {
    /// Why the change is refused, if it is. The reasons are looked for in
    /// this order, and the first that holds is given.
    pub open spec fn rejection(self) -> Option<PerpetualsError> {
        if !self.position.is_open() {
            Some(PerpetualsError::AccountNotInitialized)
        } else if self.position.owner@ != self.owner@ {
            Some(PerpetualsError::ConstraintHasOne)
        } else if !(self.perpetuals.permissions.allow_close_position
            && self.custody.permissions.allow_close_position) {
            Some(PerpetualsError::InstructionNotAllowed)
        } else {
            None
        }
    }
}

/// Replaces both limits of the position of `ctx` by those of `params`.
///
/// It is refused if the slot holds no position, if the signer is not the
/// owner of the position, or if the program or the custody does not allow
/// positions to be closed; `ctx` is then left as it was. Else the two limits
/// are set and nothing else changes.
pub fn update_position_limits(
    ctx: &mut UpdatePositionLimits,
    params: &UpdatePositionLimitsParams,
) -> (res: Result<(), PerpetualsError>)
    ensures
        match old(ctx).rejection() {
            Some(e) => res == Err::<(), PerpetualsError>(e) && *final(ctx) == *old(ctx),
            None => res == Ok::<(), PerpetualsError>(()) && *final(ctx) == (UpdatePositionLimits {
                position: Position {
                    stop_loss: params.stop_loss,
                    take_profit: params.take_profit,
                    ..old(ctx).position
                },
                ..*old(ctx)
            }),
        },
{
    if ctx.position.side == Side::Unset {
        return Err(PerpetualsError::AccountNotInitialized);
    }
    if ctx.position.owner != ctx.owner {
        return Err(PerpetualsError::ConstraintHasOne);
    }
    // check permissions
    if !(ctx.perpetuals.permissions.allow_close_position
        && ctx.custody.permissions.allow_close_position) {
        return Err(PerpetualsError::InstructionNotAllowed);
    }
    // update position
    ctx.position.stop_loss = params.stop_loss;
    ctx.position.take_profit = params.take_profit;

    Ok(())
}

} // verus!
