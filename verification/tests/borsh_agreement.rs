use anchor_lang::{AnchorDeserialize, AnchorSerialize};
use perpetuals::state::position::{DeprecatedPosition, Position, Side};
use perpetuals::state::pubkey::Pubkey;
use perpetuals::writer::BpfWriter;

fn borsh_front(owner: [u8; 32], pool: [u8; 32], custody: [u8; 32], position: &Position) -> Vec<u8> {
    let mut bytes = Vec::new();
    anchor_lang::prelude::Pubkey::new_from_array(owner).serialize(&mut bytes).unwrap();
    anchor_lang::prelude::Pubkey::new_from_array(pool).serialize(&mut bytes).unwrap();
    anchor_lang::prelude::Pubkey::new_from_array(custody).serialize(&mut bytes).unwrap();
    position.open_time.serialize(&mut bytes).unwrap();
    position.update_time.serialize(&mut bytes).unwrap();
    let side: u8 = match position.side {
        Side::Unset => 0,
        Side::Long => 1,
        Side::Short => 2,
    };
    side.serialize(&mut bytes).unwrap();
    position.price.serialize(&mut bytes).unwrap();
    position.size_usd.serialize(&mut bytes).unwrap();
    position.collateral_usd.serialize(&mut bytes).unwrap();
    position.unrealized_profit_usd.serialize(&mut bytes).unwrap();
    position.unrealized_loss_usd.serialize(&mut bytes).unwrap();
    position.cumulative_interest_snapshot.serialize(&mut bytes).unwrap();
    position.locked_amount.serialize(&mut bytes).unwrap();
    position.collateral_amount.serialize(&mut bytes).unwrap();
    bytes
}

fn some_position(stop_loss: Option<u64>, take_profit: Option<u64>) -> Position {
    Position {
        owner: Pubkey::new_from_array([0x11; 32]),
        pool: Pubkey::new_from_array([0x22; 32]),
        custody: Pubkey::new_from_array([0x33; 32]),
        open_time: -1_234_567_890_123,
        update_time: i64::MAX,
        side: Side::Short,
        price: 0xdead_beef_0000_0001,
        size_usd: u64::MAX,
        collateral_usd: 1,
        unrealized_profit_usd: 256,
        unrealized_loss_usd: 65_536,
        cumulative_interest_snapshot: 0x0102_0304_0506_0708_090a_0b0c_0d0e_0f10,
        locked_amount: 12_345,
        collateral_amount: 54_321,
        stop_loss,
        take_profit,
        bump: 0x7f,
    }
}

#[test]
fn values_are_stored_as_borsh_stores_them() {
    for (stop_loss, take_profit) in
        [(None, None), (Some(0), None), (None, Some(u64::MAX)), (Some(77), Some(88))]
    {
        let position = some_position(stop_loss, take_profit);
        let mut expected = borsh_front([0x11; 32], [0x22; 32], [0x33; 32], &position);
        stop_loss.serialize(&mut expected).unwrap();
        take_profit.serialize(&mut expected).unwrap();
        position.bump.serialize(&mut expected).unwrap();

        let mut bytes = Vec::new();
        position.serialize(&mut bytes).unwrap();
        assert_eq!(bytes, expected);
    }
}

#[test]
fn former_values_are_stored_as_borsh_stores_them() {
    let position = some_position(None, None);
    let former = DeprecatedPosition {
        owner: position.owner,
        pool: position.pool,
        custody: position.custody,
        open_time: position.open_time,
        update_time: position.update_time,
        side: position.side,
        price: position.price,
        size_usd: position.size_usd,
        collateral_usd: position.collateral_usd,
        unrealized_profit_usd: position.unrealized_profit_usd,
        unrealized_loss_usd: position.unrealized_loss_usd,
        cumulative_interest_snapshot: position.cumulative_interest_snapshot,
        locked_amount: position.locked_amount,
        collateral_amount: position.collateral_amount,
        bump: position.bump,
    };
    let mut expected = borsh_front([0x11; 32], [0x22; 32], [0x33; 32], &position);
    position.bump.serialize(&mut expected).unwrap();

    let mut bytes = Vec::new();
    former.serialize(&mut bytes).unwrap();
    assert_eq!(bytes, expected);
}

#[test]
fn stored_values_are_read_as_borsh_reads_them() {
    let position = some_position(Some(5), None);
    let mut data = vec![0u8; Position::LEN];
    let mut writer = BpfWriter::new(&mut data[..]);
    position.try_serialize(&mut writer).unwrap();

    let mut rest: &[u8] = &data[8..];
    let owner = anchor_lang::prelude::Pubkey::deserialize(&mut rest).unwrap();
    assert_eq!(owner.to_bytes(), position.owner.to_bytes());
    let _pool = anchor_lang::prelude::Pubkey::deserialize(&mut rest).unwrap();
    let _custody = anchor_lang::prelude::Pubkey::deserialize(&mut rest).unwrap();
    assert_eq!(i64::deserialize(&mut rest).unwrap(), position.open_time);
    assert_eq!(i64::deserialize(&mut rest).unwrap(), position.update_time);
    assert_eq!(u8::deserialize(&mut rest).unwrap(), 2);
    assert_eq!(u64::deserialize(&mut rest).unwrap(), position.price);
    assert_eq!(u64::deserialize(&mut rest).unwrap(), position.size_usd);
    assert_eq!(u64::deserialize(&mut rest).unwrap(), position.collateral_usd);
    assert_eq!(u64::deserialize(&mut rest).unwrap(), position.unrealized_profit_usd);
    assert_eq!(u64::deserialize(&mut rest).unwrap(), position.unrealized_loss_usd);
    assert_eq!(u128::deserialize(&mut rest).unwrap(), position.cumulative_interest_snapshot);
    assert_eq!(u64::deserialize(&mut rest).unwrap(), position.locked_amount);
    assert_eq!(u64::deserialize(&mut rest).unwrap(), position.collateral_amount);
    assert_eq!(Option::<u64>::deserialize(&mut rest).unwrap(), Some(5));
    assert_eq!(Option::<u64>::deserialize(&mut rest).unwrap(), None);
    assert_eq!(u8::deserialize(&mut rest).unwrap(), position.bump);
    assert_eq!(rest.len(), Position::LEN - 8 - 185 - 9 - 1 - 1);
}
