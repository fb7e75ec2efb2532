use perpetuals::error::PerpetualsError;
use perpetuals::state::position::{DeprecatedPosition, Position, Side};
use perpetuals::state::pubkey::Pubkey;
use perpetuals::writer::BpfWriter;

fn former() -> DeprecatedPosition {
    DeprecatedPosition {
        owner: Pubkey::new_from_array([1u8; 32]),
        pool: Pubkey::new_from_array([2u8; 32]),
        custody: Pubkey::new_from_array([3u8; 32]),
        open_time: 1_700_000_000,
        update_time: -2,
        side: Side::Short,
        price: 0x0102030405060708,
        size_usd: 10_000,
        collateral_usd: 1_000,
        unrealized_profit_usd: 5,
        unrealized_loss_usd: 6,
        cumulative_interest_snapshot: (1u128 << 100) + 9,
        locked_amount: 777,
        collateral_amount: 1_000,
        bump: 254,
    }
}

fn current(stop_loss: Option<u64>, take_profit: Option<u64>) -> Position {
    let former = former();
    Position {
        owner: former.owner,
        pool: former.pool,
        custody: former.custody,
        open_time: former.open_time,
        update_time: former.update_time,
        side: former.side,
        price: former.price,
        size_usd: former.size_usd,
        collateral_usd: former.collateral_usd,
        unrealized_profit_usd: former.unrealized_profit_usd,
        unrealized_loss_usd: former.unrealized_loss_usd,
        cumulative_interest_snapshot: former.cumulative_interest_snapshot,
        locked_amount: former.locked_amount,
        collateral_amount: former.collateral_amount,
        stop_loss,
        take_profit,
        bump: former.bump,
    }
}

fn expected_front() -> Vec<u8> {
    let mut bytes = Vec::new();
    bytes.extend_from_slice(&[1u8; 32]);
    bytes.extend_from_slice(&[2u8; 32]);
    bytes.extend_from_slice(&[3u8; 32]);
    bytes.extend_from_slice(&1_700_000_000i64.to_le_bytes());
    bytes.extend_from_slice(&(-2i64).to_le_bytes());
    bytes.push(2);
    bytes.extend_from_slice(&0x0102030405060708u64.to_le_bytes());
    bytes.extend_from_slice(&10_000u64.to_le_bytes());
    bytes.extend_from_slice(&1_000u64.to_le_bytes());
    bytes.extend_from_slice(&5u64.to_le_bytes());
    bytes.extend_from_slice(&6u64.to_le_bytes());
    bytes.extend_from_slice(&((1u128 << 100) + 9).to_le_bytes());
    bytes.extend_from_slice(&777u64.to_le_bytes());
    bytes.extend_from_slice(&1_000u64.to_le_bytes());
    bytes
}

fn account_of(position: &Position, len: usize, fill: u8) -> Vec<u8> {
    let mut data = vec![fill; len];
    let mut writer = BpfWriter::new(&mut data[..]);
    position.try_serialize(&mut writer).unwrap();
    data
}

#[test]
fn discriminators_are_the_hashes_of_the_record_names() {
    let hash = solana_program::hash::hash(b"account:Position").to_bytes();
    assert_eq!(Position::DISCRIMINATOR, hash[..8]);
    let hash = solana_program::hash::hash(b"account:DeprecatedPosition").to_bytes();
    assert_eq!(DeprecatedPosition::DISCRIMINATOR, hash[..8]);
}

#[test]
fn former_values_take_186_bytes() {
    let mut bytes = vec![0x77];
    assert_eq!(former().serialize(&mut bytes), Ok(()));
    let mut expected = vec![0x77];
    expected.extend_from_slice(&expected_front());
    expected.push(254);
    assert_eq!(bytes, expected);
    assert_eq!(bytes.len(), 1 + 186);
}

#[test]
fn current_values_without_limits_take_188_bytes() {
    let mut bytes = Vec::new();
    assert_eq!(current(None, None).serialize(&mut bytes), Ok(()));
    let mut expected = expected_front();
    expected.extend_from_slice(&[0, 0, 254]);
    assert_eq!(bytes, expected);
    assert_eq!(bytes.len(), 188);
}

#[test]
fn current_values_with_limits_take_204_bytes() {
    let mut bytes = Vec::new();
    assert_eq!(current(Some(50), Some(0x1122)).serialize(&mut bytes), Ok(()));
    let mut expected = expected_front();
    expected.push(1);
    expected.extend_from_slice(&50u64.to_le_bytes());
    expected.push(1);
    expected.extend_from_slice(&0x1122u64.to_le_bytes());
    expected.push(254);
    assert_eq!(bytes, expected);
    assert_eq!(bytes.len(), 204);
}

#[test]
fn account_starts_with_the_discriminator_and_keeps_its_tail() {
    let position = current(None, Some(7));
    let data = account_of(&position, Position::LEN, 0xee);
    assert_eq!(data.len(), 232);
    assert_eq!(data[..8], Position::DISCRIMINATOR);
    let mut fields = Vec::new();
    position.serialize(&mut fields).unwrap();
    assert_eq!(fields.len(), 196);
    assert_eq!(data[8..8 + 196], fields[..]);
    assert!(data[8 + 196..].iter().all(|byte| *byte == 0xee));
}

#[test]
fn try_serialize_starts_at_the_cursor() {
    let position = current(None, None);
    let mut data = vec![0xeeu8; 200];
    let mut writer = BpfWriter::new(&mut data[..]);
    writer.write_all(&[5, 5]).unwrap();
    assert_eq!(position.try_serialize(&mut writer), Ok(()));
    assert_eq!(writer.write(&[6]), 1);
    assert_eq!(data[..2], [5, 5]);
    assert_eq!(data[2..10], Position::DISCRIMINATOR);
    assert_eq!(data[198], 6);
    assert_eq!(data[199], 0xee);
}

#[test]
fn try_serialize_into_a_buffer_one_byte_too_short_fails() {
    let position = current(None, None);
    let mut data = vec![0u8; 195];
    let mut writer = BpfWriter::new(&mut data[..]);
    assert_eq!(position.try_serialize(&mut writer), Err(PerpetualsError::AccountDidNotSerialize));
    let full = account_of(&position, 196, 0);
    assert_eq!(data[..], full[..195]);
}

#[test]
fn try_serialize_into_a_buffer_shorter_than_the_discriminator_fails() {
    let position = current(None, None);
    let mut data = vec![0u8; 5];
    let mut writer = BpfWriter::new(&mut data[..]);
    assert_eq!(position.try_serialize(&mut writer), Err(PerpetualsError::AccountDidNotSerialize));
    assert_eq!(data[..], Position::DISCRIMINATOR[..5]);
}

#[test]
fn try_serialize_into_a_buffer_of_the_exact_length_succeeds() {
    let position = current(Some(1), Some(2));
    let data = account_of(&position, 212, 0);
    assert_eq!(data[211], 254);
}

#[test]
fn position_reads_back_as_written() {
    for (stop_loss, take_profit) in
        [(None, None), (Some(50), None), (None, Some(u64::MAX)), (Some(0), Some(1))]
    {
        let position = current(stop_loss, take_profit);
        let data = account_of(&position, Position::LEN, 0xee);
        assert_eq!(Position::try_deserialize(&data), Ok(position));
        assert_eq!(Position::try_deserialize_unchecked(&data), Ok(position));
    }
}

#[test]
fn position_of_every_side_reads_back() {
    for side in [Side::Unset, Side::Long, Side::Short] {
        let position = Position { side, ..current(None, None) };
        let data = account_of(&position, Position::LEN, 0);
        assert_eq!(Position::try_deserialize(&data).unwrap().side, side);
    }
}

#[test]
fn former_position_reads_back_as_written() {
    let mut data = DeprecatedPosition::DISCRIMINATOR.to_vec();
    former().serialize(&mut data).unwrap();
    assert_eq!(data.len(), 194);
    assert_eq!(DeprecatedPosition::try_deserialize_unchecked(&data), Ok(former()));
    data.resize(DeprecatedPosition::LEN, 0xee);
    assert_eq!(DeprecatedPosition::try_deserialize_unchecked(&data), Ok(former()));
}

#[test]
fn former_position_is_read_whatever_the_first_eight_bytes() {
    let mut data = vec![0u8; 8];
    former().serialize(&mut data).unwrap();
    assert_eq!(DeprecatedPosition::try_deserialize_unchecked(&data), Ok(former()));
}

#[test]
fn former_position_that_ends_too_early_is_refused() {
    let mut data = DeprecatedPosition::DISCRIMINATOR.to_vec();
    former().serialize(&mut data).unwrap();
    data.pop();
    assert_eq!(
        DeprecatedPosition::try_deserialize_unchecked(&data),
        Err(PerpetualsError::AccountDidNotDeserialize)
    );
    assert_eq!(
        DeprecatedPosition::try_deserialize_unchecked(&[0u8; 8]),
        Err(PerpetualsError::AccountDidNotDeserialize)
    );
}

#[test]
fn former_position_with_an_unknown_side_is_refused() {
    let mut data = DeprecatedPosition::DISCRIMINATOR.to_vec();
    former().serialize(&mut data).unwrap();
    data[8 + 112] = 3;
    assert_eq!(
        DeprecatedPosition::try_deserialize_unchecked(&data),
        Err(PerpetualsError::AccountDidNotDeserialize)
    );
}

#[test]
fn position_without_discriminator_is_refused() {
    assert_eq!(
        Position::try_deserialize(&[170, 188, 143, 228, 122, 64, 247]),
        Err(PerpetualsError::AccountDiscriminatorNotFound)
    );
    assert_eq!(Position::try_deserialize(&[]), Err(PerpetualsError::AccountDiscriminatorNotFound));
}

#[test]
fn position_with_another_discriminator_is_refused() {
    let mut data = account_of(&current(None, None), Position::LEN, 0);
    data[7] ^= 1;
    assert_eq!(
        Position::try_deserialize(&data),
        Err(PerpetualsError::AccountDiscriminatorMismatch)
    );
    let mut former_account = DeprecatedPosition::DISCRIMINATOR.to_vec();
    former().serialize(&mut former_account).unwrap();
    former_account.resize(Position::LEN, 0);
    assert_eq!(
        Position::try_deserialize(&former_account),
        Err(PerpetualsError::AccountDiscriminatorMismatch)
    );
}

#[test]
fn position_with_a_malformed_limit_is_refused() {
    let mut data = account_of(&current(None, None), Position::LEN, 0);
    data[8 + 185] = 2;
    assert_eq!(Position::try_deserialize(&data), Err(PerpetualsError::AccountDidNotDeserialize));
    let mut data = account_of(&current(Some(5), None), Position::LEN, 0);
    data[8 + 185 + 9] = 7;
    assert_eq!(Position::try_deserialize(&data), Err(PerpetualsError::AccountDidNotDeserialize));
    let mut data = account_of(&current(None, None), Position::LEN, 0);
    data[8 + 112] = 200;
    assert_eq!(Position::try_deserialize(&data), Err(PerpetualsError::AccountDidNotDeserialize));
}

#[test]
fn position_that_ends_too_early_is_refused() {
    let position = current(Some(5), Some(6));
    let data = account_of(&position, 212, 0);
    assert_eq!(Position::try_deserialize(&data), Ok(position));
    for len in [8, 100, 195, 196, 203, 204, 211] {
        assert_eq!(
            Position::try_deserialize(&data[..len]),
            Err(PerpetualsError::AccountDidNotDeserialize)
        );
    }
}
