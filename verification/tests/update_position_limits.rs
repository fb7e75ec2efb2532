use perpetuals::error::PerpetualsError;
use perpetuals::instructions::update_position_limits::{
    update_position_limits, UpdatePositionLimits, UpdatePositionLimitsParams,
};
use perpetuals::state::custody::Custody;
use perpetuals::state::perpetuals::{Permissions, Perpetuals};
use perpetuals::state::position::{Position, Side};
use perpetuals::state::pubkey::Pubkey;

fn limits_context() -> UpdatePositionLimits {
    let owner = Pubkey::new_from_array([1u8; 32]);
    UpdatePositionLimits {
        owner,
        perpetuals: Perpetuals { permissions: Permissions { allow_close_position: true } },
        position: Position {
            owner,
            side: Side::Short,
            size_usd: 10_000,
            stop_loss: Some(5),
            take_profit: None,
            ..Position::default()
        },
        custody: Custody {
            permissions: Permissions { allow_close_position: true },
            ..Custody::default()
        },
    }
}

const NEW_LIMITS: UpdatePositionLimitsParams =
    UpdatePositionLimitsParams { stop_loss: None, take_profit: Some(70) };

#[test]
fn owner_replaces_both_limits() {
    let mut ctx = limits_context();
    let before = ctx;
    assert_eq!(update_position_limits(&mut ctx, &NEW_LIMITS), Ok(()));
    assert_eq!(ctx.position.stop_loss, None);
    assert_eq!(ctx.position.take_profit, Some(70));
    assert_eq!(
        ctx,
        UpdatePositionLimits {
            position: Position { stop_loss: None, take_profit: Some(70), ..before.position },
            ..before
        }
    );
}

#[test]
fn limits_can_be_removed() {
    let mut ctx = limits_context();
    let params = UpdatePositionLimitsParams { stop_loss: None, take_profit: None };
    assert_eq!(update_position_limits(&mut ctx, &params), Ok(()));
    assert_eq!(ctx.position.stop_loss, None);
    assert_eq!(ctx.position.take_profit, None);
}

#[test]
fn another_signer_cannot_change_the_limits() {
    let mut ctx = limits_context();
    ctx.owner = Pubkey::new_from_array([2u8; 32]);
    let before = ctx;
    assert_eq!(update_position_limits(&mut ctx, &NEW_LIMITS), Err(PerpetualsError::ConstraintHasOne));
    assert_eq!(ctx, before);
}

#[test]
fn limits_need_both_permissions() {
    let mut ctx = limits_context();
    ctx.perpetuals.permissions.allow_close_position = false;
    let before = ctx;
    assert_eq!(
        update_position_limits(&mut ctx, &NEW_LIMITS),
        Err(PerpetualsError::InstructionNotAllowed)
    );
    assert_eq!(ctx, before);
    let mut ctx = limits_context();
    ctx.custody.permissions.allow_close_position = false;
    let before = ctx;
    assert_eq!(
        update_position_limits(&mut ctx, &NEW_LIMITS),
        Err(PerpetualsError::InstructionNotAllowed)
    );
    assert_eq!(ctx, before);
}

#[test]
fn empty_slot_has_no_limits_to_change() {
    let mut ctx = limits_context();
    ctx.position.side = Side::Unset;
    let before = ctx;
    assert_eq!(
        update_position_limits(&mut ctx, &NEW_LIMITS),
        Err(PerpetualsError::AccountNotInitialized)
    );
    assert_eq!(ctx, before);
}
