use perpetuals::error::PerpetualsError;
use perpetuals::instructions::upgrade_position::{
    reinitialize_position, upgrade_position, UpgradePosition, UpgradePositionParams, UpgradeStep,
};
use perpetuals::state::position::{DeprecatedPosition, Position, Side};
use perpetuals::state::pubkey::Pubkey;

/// A stand-in for the administrators: it counts distinct signers of one
/// pending instruction and tells how many are still missing.
struct Approvals {
    signers: Vec<Pubkey>,
    min_signatures: u8,
    signed: Vec<Pubkey>,
}

impl Approvals {
    fn two_of_three() -> Approvals {
        Approvals {
            signers: vec![
                Pubkey::new_from_array([21u8; 32]),
                Pubkey::new_from_array([22u8; 32]),
                Pubkey::new_from_array([23u8; 32]),
            ],
            min_signatures: 2,
            signed: Vec::new(),
        }
    }

    fn sign(&mut self, admin: usize) -> u8 {
        let admin = self.signers[admin];
        if !self.signed.contains(&admin) {
            self.signed.push(admin);
        }
        self.min_signatures.saturating_sub(self.signed.len() as u8)
    }
}

fn program() -> Pubkey {
    Pubkey::new_from_array([42u8; 32])
}

fn upgrade_context() -> UpgradePosition {
    UpgradePosition { program_id: program(), position_owner: program() }
}

fn former_position() -> DeprecatedPosition {
    DeprecatedPosition {
        owner: Pubkey::new_from_array([1u8; 32]),
        pool: Pubkey::new_from_array([2u8; 32]),
        custody: Pubkey::new_from_array([3u8; 32]),
        open_time: i64::MIN,
        update_time: i64::MAX,
        side: Side::Long,
        price: u64::MAX,
        size_usd: 1,
        collateral_usd: 2,
        unrealized_profit_usd: 3,
        unrealized_loss_usd: 4,
        cumulative_interest_snapshot: u128::MAX,
        locked_amount: 5,
        collateral_amount: 6,
        bump: 7,
    }
}

fn former_account(position: &DeprecatedPosition) -> Vec<u8> {
    let mut data = DeprecatedPosition::DISCRIMINATOR.to_vec();
    position.serialize(&mut data).unwrap();
    data.resize(DeprecatedPosition::LEN, 0);
    data
}

fn upgraded(former: &DeprecatedPosition) -> Position {
    Position {
        owner: former.owner,
        pool: former.pool,
        custody: former.custody,
        open_time: former.open_time,
        update_time: former.update_time,
        side: former.side,
        price: former.price,
        size_usd: former.size_usd,
        collateral_usd: former.collateral_usd,
        unrealized_profit_usd: former.unrealized_profit_usd,
        unrealized_loss_usd: former.unrealized_loss_usd,
        cumulative_interest_snapshot: former.cumulative_interest_snapshot,
        locked_amount: former.locked_amount,
        collateral_amount: former.collateral_amount,
        stop_loss: None,
        take_profit: None,
        bump: former.bump,
    }
}

#[test]
fn upgrade_keeps_every_value_and_sets_no_limit() {
    let former = former_position();
    let mut data = former_account(&former);
    let step = upgrade_position(&upgrade_context(), &UpgradePositionParams {}, 0, &data).unwrap();
    assert_eq!(step, UpgradeStep::Resize(upgraded(&former)));
    let position = match step {
        UpgradeStep::Resize(position) => position,
        UpgradeStep::SignaturesLeft(_) => unreachable!(),
    };
    data.resize(Position::LEN, 0);
    assert_eq!(reinitialize_position(&position, &mut data), Ok(0));
    let stored = Position::try_deserialize(&data).unwrap();
    assert_eq!(stored, upgraded(&former));
    assert_eq!(stored.stop_loss, None);
    assert_eq!(stored.take_profit, None);
    assert_eq!(stored.owner, former.owner);
    assert_eq!(stored.open_time, i64::MIN);
    assert_eq!(stored.cumulative_interest_snapshot, u128::MAX);
    assert_eq!(stored.bump, 7);
}

#[test]
fn first_of_two_signatures_leaves_the_account() {
    let mut approvals = Approvals::two_of_three();
    let data = former_account(&former_position());
    let before = data.clone();
    let left = approvals.sign(0);
    assert_eq!(left, 1);
    assert_eq!(
        upgrade_position(&upgrade_context(), &UpgradePositionParams {}, left, &data),
        Ok(UpgradeStep::SignaturesLeft(1))
    );
    assert_eq!(data, before);
    let again = approvals.sign(0);
    assert_eq!(
        upgrade_position(&upgrade_context(), &UpgradePositionParams {}, again, &data),
        Ok(UpgradeStep::SignaturesLeft(1))
    );
}

#[test]
fn second_signature_upgrades_the_account() {
    let mut approvals = Approvals::two_of_three();
    let former = former_position();
    let mut data = former_account(&former);
    assert_eq!(approvals.sign(2), 1);
    let left = approvals.sign(1);
    assert_eq!(left, 0);
    let step = upgrade_position(&upgrade_context(), &UpgradePositionParams {}, left, &data);
    let position = match step {
        Ok(UpgradeStep::Resize(position)) => position,
        _ => panic!("quorum is reached"),
    };
    data.resize(Position::LEN, 0);
    assert_eq!(reinitialize_position(&position, &mut data), Ok(0));
    assert_eq!(data.len(), 232);
    assert_eq!(Position::try_deserialize(&data), Ok(upgraded(&former)));
}

#[test]
fn missing_signatures_are_reported_before_anything_is_looked_at() {
    let ctx = UpgradePosition { program_id: program(), position_owner: Pubkey::default() };
    assert_eq!(
        upgrade_position(&ctx, &UpgradePositionParams {}, 255, &[]),
        Ok(UpgradeStep::SignaturesLeft(255))
    );
}

#[test]
fn account_of_another_program_is_refused() {
    let ctx = UpgradePosition { program_id: program(), position_owner: Pubkey::default() };
    let data = former_account(&former_position());
    assert_eq!(
        upgrade_position(&ctx, &UpgradePositionParams {}, 0, &data),
        Err(PerpetualsError::IllegalOwner)
    );
    assert_eq!(
        upgrade_position(&ctx, &UpgradePositionParams {}, 0, &[]),
        Err(PerpetualsError::IllegalOwner)
    );
}

#[test]
fn account_of_another_length_is_refused() {
    let data = former_account(&former_position());
    for len in [0usize, 199, 201, 232] {
        let mut other = data.clone();
        other.resize(len, 0);
        assert_eq!(
            upgrade_position(&upgrade_context(), &UpgradePositionParams {}, 0, &other),
            Err(PerpetualsError::InvalidAccountData)
        );
    }
}

#[test]
fn upgraded_account_is_not_upgraded_again() {
    let mut data = former_account(&former_position());
    let step = upgrade_position(&upgrade_context(), &UpgradePositionParams {}, 0, &data).unwrap();
    let position = match step {
        UpgradeStep::Resize(position) => position,
        UpgradeStep::SignaturesLeft(_) => unreachable!(),
    };
    data.resize(Position::LEN, 0);
    reinitialize_position(&position, &mut data).unwrap();
    assert_eq!(
        upgrade_position(&upgrade_context(), &UpgradePositionParams {}, 0, &data),
        Err(PerpetualsError::InvalidAccountData)
    );
}

#[test]
fn account_with_an_unknown_side_is_refused() {
    let mut data = former_account(&former_position());
    data[8 + 112] = 9;
    assert_eq!(
        upgrade_position(&upgrade_context(), &UpgradePositionParams {}, 0, &data),
        Err(PerpetualsError::AccountDidNotDeserialize)
    );
}

#[test]
fn discriminator_of_the_former_account_is_not_looked_at() {
    let former = former_position();
    let mut data = former_account(&former);
    data[..8].copy_from_slice(&[0xff; 8]);
    assert_eq!(
        upgrade_position(&upgrade_context(), &UpgradePositionParams {}, 0, &data),
        Ok(UpgradeStep::Resize(upgraded(&former)))
    );
}

#[test]
fn reinitialize_needs_the_exact_length() {
    let position = upgraded(&former_position());
    for len in [0usize, 196, 200, 231, 233] {
        let mut data = vec![0xeeu8; len];
        assert_eq!(
            reinitialize_position(&position, &mut data),
            Err(PerpetualsError::InvalidAccountData)
        );
        assert_eq!(data, vec![0xeeu8; len]);
    }
}

#[test]
fn reinitialize_leaves_the_bytes_behind_the_record() {
    let position = Position { stop_loss: Some(9), ..upgraded(&former_position()) };
    let mut data = vec![0xeeu8; Position::LEN];
    assert_eq!(reinitialize_position(&position, &mut data), Ok(0));
    assert_eq!(data[..8], Position::DISCRIMINATOR);
    assert_eq!(Position::try_deserialize(&data), Ok(position));
    let record = 8 + 185 + 9 + 1 + 1;
    assert_ne!(data[record - 1], 0xee);
    assert!(data[record..].iter().all(|byte| *byte == 0xee));
}
