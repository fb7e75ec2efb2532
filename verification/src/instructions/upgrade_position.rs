//! Moving a position from its former form to the current one.
//!
//! The move is gated by the administrators: each call counts as one
//! signature, and nothing happens before enough have signed. Counting the
//! signatures is the business of the host, which hands in how many are
//! still missing. So is the resizing of the account, which stands between
//! reading the former record and writing the current one.

use crate::error::PerpetualsError;
use crate::state::position::{DeprecatedPosition, Position};
use crate::state::pubkey::Pubkey;
use crate::writer::{overwrite, BpfWriter};
use vstd::prelude::*;

verus! {

/// The records that an upgrade reads, besides the data of the account.
#[derive(Debug, Clone, Copy, PartialEq, Eq)]
pub struct UpgradePosition {
    /// The identity of this program.
    pub program_id: Pubkey,
    /// The program that owns the account of the position.
    pub position_owner: Pubkey,
}

/// An upgrade has no parameters.
#[derive(Debug, Clone, Copy, PartialEq, Eq, Structural, Default)]
pub struct UpgradePositionParams {}

/// How far an upgrade has come.
#[derive(Debug, Clone, Copy, PartialEq, Eq)]
pub enum UpgradeStep {
    /// More signatures are needed, as many as given. Nothing is to be done
    /// to the account.
    SignaturesLeft(u8),
    /// Enough have signed. The account is to be resized to `Position::LEN`
    /// bytes and the position given is to be written into it with
    /// `reinitialize_position`.
    Resize(Position),
}

impl UpgradePosition {
    /// Whether `data` is what an account of this program holds that stores
    /// a position in its former form.
    pub open spec fn holds_deprecated(self, data: Seq<u8>) -> bool {
        &&& self.position_owner@ == self.program_id@
        &&& data.len() == DeprecatedPosition::LEN
        &&& exists|position: DeprecatedPosition| position.fields().is_prefix_of(data.skip(8))
    }
}

/// An upgrade keeps every value and sets no limit. Let the account hold the
/// position `former` before the upgrade, let `position` be what the reading
/// half found in it, and let the writing half write `position` into the
/// resized account. Then whatever position the account holds afterwards has
/// each value of `former` and neither a stop-loss nor a take-profit.
pub proof fn lemma_upgrade_keeps_values(
    before: Seq<u8>,
    former: DeprecatedPosition,
    position: Position,
    resized: Seq<u8>,
    stored: Position,
)
    requires
        former.fields().is_prefix_of(before.skip(8)),
        forall|found: DeprecatedPosition|
            found.fields().is_prefix_of(before.skip(8)) ==> position == found.upgraded(),
        resized.len() == Position::LEN,
        stored.record().is_prefix_of(overwrite(resized, 0, position.record())),
    ensures
        position.record().is_prefix_of(overwrite(resized, 0, position.record())),
        stored == former.upgraded(),
        stored.without_limits() == former,
        stored.stop_loss is None,
        stored.take_profit is None,
{
    let after = overwrite(resized, 0, position.record());
    position.lemma_fields_len();
    stored.lemma_fields_len();
    assert(position.record() =~= after.subrange(0, position.record().len() as int));
    assert(position.fields() =~= after.skip(8).subrange(0, position.fields().len() as int));
    assert(stored.record().subrange(8, stored.record().len() as int) =~= stored.fields());
    assert(stored.fields() =~= after.skip(8).subrange(0, stored.fields().len() as int));
    stored.lemma_unique(position, after.skip(8));
}

/// Does the reading half of an upgrade, once the signature of the caller is
/// counted and `signatures_left` more are needed.
///
/// If signatures are still missing, that number is handed back and nothing
/// is looked at. Else the account must belong to this program, or the call
/// fails with `IllegalOwner`; its data must have the length of the former
/// form exactly, or the call fails with `InvalidAccountData`; and the data
/// must hold a position behind its first eight bytes, which are not looked
/// at, or the call fails with `AccountDidNotDeserialize`. The result is that
/// position in its current form: every value as it was stored, and no
/// limit set.
pub fn upgrade_position(
    ctx: &UpgradePosition,
    params: &UpgradePositionParams,
    signatures_left: u8,
    data: &[u8],
) -> (res: Result<UpgradeStep, PerpetualsError>)
    ensures
        signatures_left > 0 ==> res == Ok::<UpgradeStep, PerpetualsError>(
            UpgradeStep::SignaturesLeft(signatures_left),
        ),
        signatures_left == 0 ==> match res {
            Ok(step) => ctx.holds_deprecated(data@) && forall|former: DeprecatedPosition|
                former.fields().is_prefix_of(data@.skip(8)) ==> step == UpgradeStep::Resize(
                    former.upgraded(),
                ),
            Err(e) => !ctx.holds_deprecated(data@) && e == if ctx.position_owner@
                != ctx.program_id@ {
                PerpetualsError::IllegalOwner
            } else if data@.len() != DeprecatedPosition::LEN {
                PerpetualsError::InvalidAccountData
            } else {
                PerpetualsError::AccountDidNotDeserialize
            },
        },
{
    // validate signatures
    if signatures_left > 0 {
        return Ok(UpgradeStep::SignaturesLeft(signatures_left));
    }
    // load deprecated position data
    if ctx.position_owner != ctx.program_id {
        return Err(PerpetualsError::IllegalOwner);
    }
    if data.len() != DeprecatedPosition::LEN {
        return Err(PerpetualsError::InvalidAccountData);
    }
    let deprecated_position = match DeprecatedPosition::try_deserialize_unchecked(data) {
        Ok(position) => position,
        Err(_) => {
            return Err(PerpetualsError::AccountDidNotDeserialize);
        },
    };

    // update position data
    let position_data = Position {
        owner: deprecated_position.owner,
        pool: deprecated_position.pool,
        custody: deprecated_position.custody,
        open_time: deprecated_position.open_time,
        update_time: deprecated_position.update_time,
        side: deprecated_position.side,
        price: deprecated_position.price,
        size_usd: deprecated_position.size_usd,
        collateral_usd: deprecated_position.collateral_usd,
        unrealized_profit_usd: deprecated_position.unrealized_profit_usd,
        unrealized_loss_usd: deprecated_position.unrealized_loss_usd,
        cumulative_interest_snapshot: deprecated_position.cumulative_interest_snapshot,
        locked_amount: deprecated_position.locked_amount,
        collateral_amount: deprecated_position.collateral_amount,
        stop_loss: None,
        take_profit: None,
        bump: deprecated_position.bump,
    };
    assert(position_data == deprecated_position.upgraded());
    Ok(UpgradeStep::Resize(position_data))
}

/// Does the writing half of an upgrade: writes `position` into the resized
/// account data.
///
/// The data must have the length of the current form exactly, or the call
/// fails with `InvalidAccountData` and writes nothing. Else the record is
/// written from the start of the data, the bytes behind it are left as
/// they are, and the result is zero: no signatures are missing.
pub fn reinitialize_position(position: &Position, data: &mut [u8]) -> (res: Result<
    u8,
    PerpetualsError,
>)
    ensures
        old(data)@.len() != Position::LEN ==> res == Err::<u8, PerpetualsError>(
            PerpetualsError::InvalidAccountData,
        ) && final(data)@ == old(data)@,
        old(data)@.len() == Position::LEN ==> res == Ok::<u8, PerpetualsError>(0) && final(data)@
            == overwrite(old(data)@, 0, position.record()),
{
    if data.len() != Position::LEN {
        return Err(PerpetualsError::InvalidAccountData);
    }
    proof {
        position.lemma_fields_len();
    }
    let mut writer = BpfWriter::new(data);
    match position.try_serialize(&mut writer) {
        Ok(()) => {},
        Err(e) => {
            return Err(e);
        },
    }
    assert(position.record().subrange(0, position.record().len() as int) =~= position.record());
    proof {
        writer.lemma_done();
    }
    Ok(0)
}

} // verus!
