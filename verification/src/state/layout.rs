//! How positions are stored in account data.
//!
//! An account starts with eight bytes that tell which kind of record it
//! holds. The values of the record follow in the order of their
//! declaration, without padding: an identity as its 32 bytes, a number as
//! its little-endian bytes, a side as one byte, and a limit as one byte
//! that tells whether it is set, followed by its number if it is.

use crate::codec::{
    bits_of, get_i64, get_u128, get_u64, le_bytes, le_value, lemma_bits_signed,
    lemma_bytes_of_value, lemma_le_bytes_len, lemma_le_value_bound, lemma_radix_of_word,
    lemma_signed_bits, lemma_value_of_bytes, put_bytes, put_i64, put_u128, put_u64, signed_of,
};
use crate::error::PerpetualsError;
use crate::state::position::{DeprecatedPosition, Position, Side};
use crate::state::pubkey::Pubkey;
use crate::writer::{overwrite, BpfWriter};
use vstd::prelude::*;

verus! {

/// The bytes of a limit: `0` if it is not set, else `1` and the threshold.
pub open spec fn limit_bytes(limit: Option<u64>) -> Seq<u8> {
    match limit {
        None => seq![0u8],
        Some(threshold) => seq![1u8] + le_bytes(threshold as nat, 8),
    }
}

/// Appends the bytes of a limit.
fn put_limit(out: &mut Vec<u8>, limit: Option<u64>)
    ensures
        final(out)@ == old(out)@ + limit_bytes(limit),
{
    match limit {
        None => {
            out.push(0);
        },
        Some(threshold) => {
            out.push(1);
            put_u64(out, threshold);
            assert(out@ =~= old(out)@ + limit_bytes(limit));
        },
    }
}

/// Reads the limit that is stored in `buf` from `at` on, and tells where
/// the next value starts. There is none to read if the data ends too early
/// or if the first byte is neither `0` nor `1`.
fn get_limit(buf: &[u8], at: usize) -> (res: Option<(Option<u64>, usize)>)
    requires
        at <= buf@.len(),
    ensures
        match res {
            Some((limit, next)) => limit_bytes(limit).is_prefix_of(buf@.skip(at as int)) && next
                == at + limit_bytes(limit).len(),
            None => forall|limit: Option<u64>| !limit_bytes(limit).is_prefix_of(buf@.skip(at as int)),
        },
{
    let ghost data = buf@.skip(at as int);
    if buf.len() - at < 1 {
        assert forall|limit: Option<u64>| !limit_bytes(limit).is_prefix_of(data) by {
            lemma_limit_len(limit);
        }
        return None;
    }
    let tag = buf[at];
    assert(data[0] == tag);
    if tag == 0 {
        assert(limit_bytes(None) =~= data.subrange(0, 1));
        Some((None, at + 1))
    } else if tag == 1 {
        if buf.len() - at < 9 {
            assert forall|limit: Option<u64>| !limit_bytes(limit).is_prefix_of(data) by {
                lemma_limit_len(limit);
                if limit_bytes(limit).is_prefix_of(data) {
                    assert(limit_bytes(limit)[0] == data.subrange(0, 1)[0]);
                }
            }
            return None;
        }
        let threshold = get_u64(buf, at + 1);
        proof {
            lemma_bytes_of_value(buf@.subrange(at + 1, at + 9));
            lemma_limit_len(Some(threshold));
            assert(limit_bytes(Some(threshold)) =~= data.subrange(0, 9));
        }
        Some((Some(threshold), at + 9))
    } else {
        assert forall|limit: Option<u64>| !limit_bytes(limit).is_prefix_of(data) by {
            lemma_limit_len(limit);
            if limit_bytes(limit).is_prefix_of(data) {
                assert(limit_bytes(limit)[0] == data.subrange(0, limit_bytes(limit).len() as int)[0]);
            }
        }
        None
    }
}

/// A limit is determined by its bytes, whatever follows them.
pub proof fn lemma_limit_unique(a: Option<u64>, b: Option<u64>, data: Seq<u8>)
    requires
        limit_bytes(a).is_prefix_of(data),
        limit_bytes(b).is_prefix_of(data),
    ensures
        a == b,
{
    lemma_limit_len(a);
    lemma_limit_len(b);
    assert(limit_bytes(a)[0] == data[0]);
    assert(limit_bytes(b)[0] == data[0]);
    if let Some(x) = a {
        if let Some(y) = b {
            lemma_radix_of_word();
            lemma_value_of_bytes(x as nat, 8);
            lemma_value_of_bytes(y as nat, 8);
            assert(le_bytes(x as nat, 8) =~= limit_bytes(a).subrange(1, 9));
            assert(le_bytes(y as nat, 8) =~= limit_bytes(b).subrange(1, 9));
            assert(limit_bytes(a) =~= limit_bytes(b));
        }
    }
}

impl Side {
    /// The byte that stands for the side.
    pub open spec fn tag(self) -> u8 {
        match self {
            Side::Unset => 0,
            Side::Long => 1,
            Side::Short => 2,
        }
    }

    /// The byte that stands for the side.
    fn to_tag(&self) -> (tag: u8)
        ensures
            tag == self.tag(),
    {
        match self {
            Side::Unset => 0,
            Side::Long => 1,
            Side::Short => 2,
        }
    }

    /// The side that `tag` stands for, if it stands for one.
    fn from_tag(tag: u8) -> (side: Option<Side>)
        ensures
            tag <= 2 ==> side is Some && side->0.tag() == tag,
            tag > 2 ==> side is None,
    {
        if tag == 0 {
            Some(Side::Unset)
        } else if tag == 1 {
            Some(Side::Long)
        } else if tag == 2 {
            Some(Side::Short)
        } else {
            None
        }
    }

    /// Appends the byte that stands for the side. This cannot fail.
    pub fn serialize(&self, writer: &mut Vec<u8>) -> (res: Result<(), PerpetualsError>)
        ensures
            res == Ok::<(), PerpetualsError>(()),
            final(writer)@ == old(writer)@ + seq![self.tag()],
    {
        writer.push(self.to_tag());
        Ok(())
    }
}

/// Eight bytes are the bytes of the bits of the signed number that is read
/// from them.
proof fn lemma_signed_field(bytes: Seq<u8>)
    requires
        bytes.len() == 8,
    ensures
        le_bytes(bits_of(signed_of(le_value(bytes))), 8) == bytes,
{
    lemma_le_value_bound(bytes);
    lemma_radix_of_word();
    lemma_bits_signed(le_value(bytes));
    lemma_bytes_of_value(bytes);
}

/// Reads the values that both forms of a position start with from the
/// account data `buf`, behind its first eight bytes. The bump of the result
/// is zero. There is nothing to read if the byte of the side stands for no
/// side.
fn get_front(buf: &[u8]) -> (res: Option<DeprecatedPosition>)
    requires
        buf@.len() >= 193,
    ensures
        match res {
            Some(position) => position.front() == buf@.subrange(8, 193) && position.bump == 0,
            None => buf@[120] > 2,
        },
{
    let side = match Side::from_tag(buf[120]) {
        Some(side) => side,
        None => {
            return None;
        },
    };
    let position = DeprecatedPosition {
        owner: Pubkey::read_from(buf, 8),
        pool: Pubkey::read_from(buf, 40),
        custody: Pubkey::read_from(buf, 72),
        open_time: get_i64(buf, 104),
        update_time: get_i64(buf, 112),
        side,
        price: get_u64(buf, 121),
        size_usd: get_u64(buf, 129),
        collateral_usd: get_u64(buf, 137),
        unrealized_profit_usd: get_u64(buf, 145),
        unrealized_loss_usd: get_u64(buf, 153),
        cumulative_interest_snapshot: get_u128(buf, 161),
        locked_amount: get_u64(buf, 177),
        collateral_amount: get_u64(buf, 185),
        bump: 0,
    };
    proof {
        lemma_signed_field(buf@.subrange(104, 112));
        lemma_signed_field(buf@.subrange(112, 120));
        lemma_bytes_of_value(buf@.subrange(121, 129));
        lemma_bytes_of_value(buf@.subrange(129, 137));
        lemma_bytes_of_value(buf@.subrange(137, 145));
        lemma_bytes_of_value(buf@.subrange(145, 153));
        lemma_bytes_of_value(buf@.subrange(153, 161));
        lemma_bytes_of_value(buf@.subrange(161, 177));
        lemma_bytes_of_value(buf@.subrange(177, 185));
        lemma_bytes_of_value(buf@.subrange(185, 193));
        position.lemma_front();
        assert(position.front() =~= buf@.subrange(8, 193));
    }
    Some(position)
}

impl DeprecatedPosition {
    /// The first eight bytes of an account that holds a position in its
    /// former form: the start of the SHA-256 hash of
    /// `account:DeprecatedPosition`.
    pub const DISCRIMINATOR: [u8; 8] = [234, 118, 72, 195, 204, 218, 46, 198];

    /// The bytes of the values that both forms of a position start with.
    pub open spec fn front(self) -> Seq<u8> {
        self.owner@ + self.pool@ + self.custody@ + le_bytes(bits_of(self.open_time), 8) + le_bytes(
            bits_of(self.update_time),
            8,
        ) + seq![self.side.tag()] + le_bytes(self.price as nat, 8) + le_bytes(
            self.size_usd as nat,
            8,
        ) + le_bytes(self.collateral_usd as nat, 8) + le_bytes(
            self.unrealized_profit_usd as nat,
            8,
        ) + le_bytes(self.unrealized_loss_usd as nat, 8) + le_bytes(
            self.cumulative_interest_snapshot as nat,
            16,
        ) + le_bytes(self.locked_amount as nat, 8) + le_bytes(self.collateral_amount as nat, 8)
    }

    /// The bytes of the values of the position.
    pub open spec fn fields(self) -> Seq<u8> {
        self.front() + seq![self.bump]
    }

    /// The bytes of an account that holds the position, up to the end of
    /// the record.
    pub open spec fn record(self) -> Seq<u8> {
        Self::DISCRIMINATOR@ + self.fields()
    }

    /// Where each shared value stands among the 185 bytes that they take.
    pub proof fn lemma_front(self)
        ensures
            self.front().len() == 185,
            self.front().subrange(0, 32) == self.owner@,
            self.front().subrange(32, 64) == self.pool@,
            self.front().subrange(64, 96) == self.custody@,
            self.front().subrange(96, 104) == le_bytes(bits_of(self.open_time), 8),
            self.front().subrange(104, 112) == le_bytes(bits_of(self.update_time), 8),
            self.front()[112] == self.side.tag(),
            self.front().subrange(113, 121) == le_bytes(self.price as nat, 8),
            self.front().subrange(121, 129) == le_bytes(self.size_usd as nat, 8),
            self.front().subrange(129, 137) == le_bytes(self.collateral_usd as nat, 8),
            self.front().subrange(137, 145) == le_bytes(self.unrealized_profit_usd as nat, 8),
            self.front().subrange(145, 153) == le_bytes(self.unrealized_loss_usd as nat, 8),
            self.front().subrange(153, 169) == le_bytes(
                self.cumulative_interest_snapshot as nat,
                16,
            ),
            self.front().subrange(169, 177) == le_bytes(self.locked_amount as nat, 8),
            self.front().subrange(177, 185) == le_bytes(self.collateral_amount as nat, 8),
    {
        self.owner.lemma_len();
        self.pool.lemma_len();
        self.custody.lemma_len();
        lemma_le_bytes_len(bits_of(self.open_time), 8);
        lemma_le_bytes_len(bits_of(self.update_time), 8);
        lemma_le_bytes_len(self.price as nat, 8);
        lemma_le_bytes_len(self.size_usd as nat, 8);
        lemma_le_bytes_len(self.collateral_usd as nat, 8);
        lemma_le_bytes_len(self.unrealized_profit_usd as nat, 8);
        lemma_le_bytes_len(self.unrealized_loss_usd as nat, 8);
        lemma_le_bytes_len(self.cumulative_interest_snapshot as nat, 16);
        lemma_le_bytes_len(self.locked_amount as nat, 8);
        lemma_le_bytes_len(self.collateral_amount as nat, 8);
        let front = self.front();
        assert(front.len() == 185);
        assert(front.subrange(0, 32) =~= self.owner@);
        assert(front.subrange(32, 64) =~= self.pool@);
        assert(front.subrange(64, 96) =~= self.custody@);
        assert(front.subrange(96, 104) =~= le_bytes(bits_of(self.open_time), 8));
        assert(front.subrange(104, 112) =~= le_bytes(bits_of(self.update_time), 8));
        assert(front.subrange(113, 121) =~= le_bytes(self.price as nat, 8));
        assert(front.subrange(121, 129) =~= le_bytes(self.size_usd as nat, 8));
        assert(front.subrange(129, 137) =~= le_bytes(self.collateral_usd as nat, 8));
        assert(front.subrange(137, 145) =~= le_bytes(self.unrealized_profit_usd as nat, 8));
        assert(front.subrange(145, 153) =~= le_bytes(self.unrealized_loss_usd as nat, 8));
        assert(front.subrange(153, 169) =~= le_bytes(
            self.cumulative_interest_snapshot as nat,
            16,
        ));
        assert(front.subrange(169, 177) =~= le_bytes(self.locked_amount as nat, 8));
        assert(front.subrange(177, 185) =~= le_bytes(self.collateral_amount as nat, 8));
    }

    /// The shared values are determined by their bytes.
    pub proof fn lemma_front_unique(self, other: DeprecatedPosition)
        requires
            self.front() == other.front(),
        ensures
            self == (DeprecatedPosition { bump: self.bump, ..other }),
    {
        self.lemma_front();
        other.lemma_front();
        self.owner.lemma_same_bytes(other.owner);
        self.pool.lemma_same_bytes(other.pool);
        self.custody.lemma_same_bytes(other.custody);
        lemma_radix_of_word();
        lemma_signed_bits(self.open_time);
        lemma_signed_bits(other.open_time);
        lemma_value_of_bytes(bits_of(self.open_time), 8);
        lemma_value_of_bytes(bits_of(other.open_time), 8);
        lemma_signed_bits(self.update_time);
        lemma_signed_bits(other.update_time);
        lemma_value_of_bytes(bits_of(self.update_time), 8);
        lemma_value_of_bytes(bits_of(other.update_time), 8);
        lemma_value_of_bytes(self.price as nat, 8);
        lemma_value_of_bytes(other.price as nat, 8);
        lemma_value_of_bytes(self.size_usd as nat, 8);
        lemma_value_of_bytes(other.size_usd as nat, 8);
        lemma_value_of_bytes(self.collateral_usd as nat, 8);
        lemma_value_of_bytes(other.collateral_usd as nat, 8);
        lemma_value_of_bytes(self.unrealized_profit_usd as nat, 8);
        lemma_value_of_bytes(other.unrealized_profit_usd as nat, 8);
        lemma_value_of_bytes(self.unrealized_loss_usd as nat, 8);
        lemma_value_of_bytes(other.unrealized_loss_usd as nat, 8);
        lemma_value_of_bytes(self.cumulative_interest_snapshot as nat, 16);
        lemma_value_of_bytes(other.cumulative_interest_snapshot as nat, 16);
        lemma_value_of_bytes(self.locked_amount as nat, 8);
        lemma_value_of_bytes(other.locked_amount as nat, 8);
        lemma_value_of_bytes(self.collateral_amount as nat, 8);
        lemma_value_of_bytes(other.collateral_amount as nat, 8);
    }

    /// A position in its former form is determined by its bytes, whatever
    /// follows them: no two are stored in the same data.
    pub proof fn lemma_unique(self, other: DeprecatedPosition, data: Seq<u8>)
        requires
            self.fields().is_prefix_of(data),
            other.fields().is_prefix_of(data),
        ensures
            self == other,
    {
        self.lemma_front();
        other.lemma_front();
        assert(self.front() =~= data.subrange(0, 185));
        assert(other.front() =~= data.subrange(0, 185));
        assert(self.fields()[185] == data.subrange(0, 186)[185]);
        assert(other.fields()[185] == data.subrange(0, 186)[185]);
        self.lemma_front_unique(other);
    }

    /// The values of a position in its former form take 186 bytes.
    pub proof fn lemma_fields_len(self)
        ensures
            self.fields().len() == 186,
            self.record().len() == 194,
    {
        self.lemma_front();
    }

    /// Appends the bytes of the values of the position. This cannot fail.
    pub fn serialize(&self, writer: &mut Vec<u8>) -> (res: Result<(), PerpetualsError>)
        ensures
            res == Ok::<(), PerpetualsError>(()),
            final(writer)@ == old(writer)@ + self.fields(),
    {
        put_bytes(writer, self.owner.to_bytes().as_slice());
        put_bytes(writer, self.pool.to_bytes().as_slice());
        put_bytes(writer, self.custody.to_bytes().as_slice());
        put_i64(writer, self.open_time);
        put_i64(writer, self.update_time);
        writer.push(self.side.to_tag());
        put_u64(writer, self.price);
        put_u64(writer, self.size_usd);
        put_u64(writer, self.collateral_usd);
        put_u64(writer, self.unrealized_profit_usd);
        put_u64(writer, self.unrealized_loss_usd);
        put_u128(writer, self.cumulative_interest_snapshot);
        put_u64(writer, self.locked_amount);
        put_u64(writer, self.collateral_amount);
        writer.push(self.bump);
        assert(writer@ =~= old(writer)@ + self.fields());
        Ok(())
    }

    /// Reads the position that the account data `buf` holds behind its
    /// first eight bytes, which are not looked at. Bytes behind the record
    /// are not looked at either. The result is the one position whose
    /// values are stored there; if there is none, because the data is too
    /// short or the byte of the side stands for no side, the call fails
    /// with `AccountDidNotDeserialize`.
    pub fn try_deserialize_unchecked(buf: &[u8]) -> (res: Result<
        DeprecatedPosition,
        PerpetualsError,
    >)
        requires
            buf@.len() >= 8,
        ensures
            match res {
                Ok(position) => position.fields().is_prefix_of(buf@.skip(8)) && forall|
                    other: DeprecatedPosition,
                | other.fields().is_prefix_of(buf@.skip(8)) ==> other == position,
                Err(e) => e == PerpetualsError::AccountDidNotDeserialize && forall|
                    position: DeprecatedPosition,
                | !position.fields().is_prefix_of(buf@.skip(8)),
            },
    {
        let ghost data = buf@.skip(8);
        if buf.len() < 194 {
            assert forall|position: DeprecatedPosition| !position.fields().is_prefix_of(data) by {
                position.lemma_fields_len();
            }
            return Err(PerpetualsError::AccountDidNotDeserialize);
        }
        match get_front(buf) {
            Some(front) => {
                let position = DeprecatedPosition { bump: buf[193], ..front };
                proof {
                    position.lemma_front();
                    assert(position.front() == front.front());
                    assert(position.fields() =~= data.subrange(0, 186));
                    assert forall|other: DeprecatedPosition|
                        other.fields().is_prefix_of(data) implies other == position by {
                        other.lemma_unique(position, data);
                    }
                }
                Ok(position)
            },
            None => {
                assert forall|position: DeprecatedPosition| !position.fields().is_prefix_of(
                    data,
                ) by {
                    position.lemma_front();
                    if position.fields().is_prefix_of(data) {
                        assert(position.fields()[112] == data.subrange(0, 186)[112]);
                    }
                }
                Err(PerpetualsError::AccountDidNotDeserialize)
            },
        }
    }
}

impl Position {
    /// The first eight bytes of an account that holds a position: the start
    /// of the SHA-256 hash of `account:Position`.
    pub const DISCRIMINATOR: [u8; 8] = [170, 188, 143, 228, 122, 64, 247, 208];

    /// The bytes of the values of the position: those that both forms
    /// start with, then the two limits, then the bump.
    pub open spec fn fields(self) -> Seq<u8> {
        self.without_limits().front() + limit_bytes(self.stop_loss) + limit_bytes(self.take_profit)
            + seq![self.bump]
    }

    /// The bytes of an account that holds the position, up to the end of
    /// the record.
    pub open spec fn record(self) -> Seq<u8> {
        Self::DISCRIMINATOR@ + self.fields()
    }

    /// Appends the bytes of the values of the position. This cannot fail.
    pub fn serialize(&self, writer: &mut Vec<u8>) -> (res: Result<(), PerpetualsError>)
        ensures
            res == Ok::<(), PerpetualsError>(()),
            final(writer)@ == old(writer)@ + self.fields(),
    {
        put_bytes(writer, self.owner.to_bytes().as_slice());
        put_bytes(writer, self.pool.to_bytes().as_slice());
        put_bytes(writer, self.custody.to_bytes().as_slice());
        put_i64(writer, self.open_time);
        put_i64(writer, self.update_time);
        writer.push(self.side.to_tag());
        put_u64(writer, self.price);
        put_u64(writer, self.size_usd);
        put_u64(writer, self.collateral_usd);
        put_u64(writer, self.unrealized_profit_usd);
        put_u64(writer, self.unrealized_loss_usd);
        put_u128(writer, self.cumulative_interest_snapshot);
        put_u64(writer, self.locked_amount);
        put_u64(writer, self.collateral_amount);
        put_limit(writer, self.stop_loss);
        put_limit(writer, self.take_profit);
        writer.push(self.bump);
        assert(writer@ =~= old(writer)@ + self.fields());
        Ok(())
    }

    /// The values of a position take between 188 and 204 bytes, according
    /// to the limits that are set.
    pub proof fn lemma_fields_len(self)
        ensures
            self.fields().len() == 186 + limit_bytes(self.stop_loss).len() + limit_bytes(
                self.take_profit,
            ).len(),
            188 <= self.fields().len() <= 204,
            self.record().len() == 8 + self.fields().len(),
    {
        self.without_limits().lemma_front();
        lemma_limit_len(self.stop_loss);
        lemma_limit_len(self.take_profit);
    }

    /// Where the values stand among the bytes: the byte of the side behind
    /// the first 112, the stop-loss behind the first 185, the take-profit
    /// behind the stop-loss, and the bump as the last byte.
    proof fn lemma_shape(self)
        ensures
            self.fields().len() == 186 + limit_bytes(self.stop_loss).len() + limit_bytes(
                self.take_profit,
            ).len(),
            self.fields().subrange(0, 185) == self.without_limits().front(),
            self.fields()[112] == self.side.tag(),
            limit_bytes(self.stop_loss).is_prefix_of(self.fields().skip(185)),
            limit_bytes(self.take_profit).is_prefix_of(
                self.fields().skip(185 + limit_bytes(self.stop_loss).len() as int),
            ),
            self.fields().last() == self.bump,
    {
        let front = self.without_limits().front();
        let stop = limit_bytes(self.stop_loss);
        let take = limit_bytes(self.take_profit);
        self.without_limits().lemma_front();
        lemma_limit_len(self.stop_loss);
        lemma_limit_len(self.take_profit);
        let whole = self.fields();
        assert(whole.subrange(0, 185) =~= front);
        assert(whole.skip(185).subrange(0, stop.len() as int) =~= stop);
        assert(whole.skip(185 + stop.len() as int).subrange(0, take.len() as int) =~= take);
    }

    /// No position is stored in fewer than 188 bytes.
    proof fn lemma_needs_bytes(data: Seq<u8>)
        requires
            data.len() < 188,
        ensures
            forall|position: Position| !position.fields().is_prefix_of(data),
    {
        assert forall|position: Position| !position.fields().is_prefix_of(data) by {
            position.lemma_fields_len();
        }
    }

    /// No position is stored in `data` if the byte behind its first 112
    /// stands for no side.
    proof fn lemma_needs_side(data: Seq<u8>)
        requires
            data.len() >= 113,
            data[112] > 2,
        ensures
            forall|position: Position| !position.fields().is_prefix_of(data),
    {
        assert forall|position: Position| !position.fields().is_prefix_of(data) by {
            position.lemma_shape();
            if position.fields().is_prefix_of(data) {
                assert(position.fields()[112] == data.subrange(
                    0,
                    position.fields().len() as int,
                )[112]);
            }
        }
    }

    /// No position is stored in `data` if no limit is stored behind its
    /// first 185 bytes.
    proof fn lemma_needs_stop_loss(data: Seq<u8>)
        requires
            forall|limit: Option<u64>| !limit_bytes(limit).is_prefix_of(data.skip(185)),
        ensures
            forall|position: Position| !position.fields().is_prefix_of(data),
    {
        assert forall|position: Position| !position.fields().is_prefix_of(data) by {
            position.lemma_shape();
            if position.fields().is_prefix_of(data) {
                let stop = limit_bytes(position.stop_loss);
                assert(stop =~= data.skip(185).subrange(0, stop.len() as int));
            }
        }
    }

    /// Every position that is stored in `data` has the stop-loss that is
    /// stored behind the first 185 bytes of `data`.
    proof fn lemma_stop_loss_found(position: Position, stop_loss: Option<u64>, data: Seq<u8>)
        requires
            position.fields().is_prefix_of(data),
            limit_bytes(stop_loss).is_prefix_of(data.skip(185)),
        ensures
            position.stop_loss == stop_loss,
    {
        position.lemma_shape();
        let stop = limit_bytes(position.stop_loss);
        assert(stop =~= data.skip(185).subrange(0, stop.len() as int));
        lemma_limit_unique(position.stop_loss, stop_loss, data.skip(185));
    }

    /// Every position that is stored in `data` has the take-profit that is
    /// stored behind its stop-loss.
    proof fn lemma_take_profit_found(
        position: Position,
        stop_loss: Option<u64>,
        take_profit: Option<u64>,
        data: Seq<u8>,
    )
        requires
            position.fields().is_prefix_of(data),
            limit_bytes(stop_loss).is_prefix_of(data.skip(185)),
            limit_bytes(take_profit).is_prefix_of(
                data.skip(185 + limit_bytes(stop_loss).len() as int),
            ),
        ensures
            position.stop_loss == stop_loss,
            position.take_profit == take_profit,
    {
        Self::lemma_stop_loss_found(position, stop_loss, data);
        position.lemma_shape();
        let behind = data.skip(185 + limit_bytes(stop_loss).len() as int);
        let take = limit_bytes(position.take_profit);
        assert(take =~= behind.subrange(0, take.len() as int));
        lemma_limit_unique(position.take_profit, take_profit, behind);
    }

    /// No position is stored in `data` if a stop-loss is stored behind its
    /// first 185 bytes and no limit behind that.
    proof fn lemma_needs_take_profit(data: Seq<u8>, stop_loss: Option<u64>)
        requires
            limit_bytes(stop_loss).is_prefix_of(data.skip(185)),
            forall|limit: Option<u64>|
                !limit_bytes(limit).is_prefix_of(
                    data.skip(185 + limit_bytes(stop_loss).len() as int),
                ),
        ensures
            forall|position: Position| !position.fields().is_prefix_of(data),
    {
        assert forall|position: Position| !position.fields().is_prefix_of(data) by {
            if position.fields().is_prefix_of(data) {
                Self::lemma_stop_loss_found(position, stop_loss, data);
                position.lemma_shape();
                let behind = data.skip(185 + limit_bytes(stop_loss).len() as int);
                let take = limit_bytes(position.take_profit);
                assert(take =~= behind.subrange(0, take.len() as int));
            }
        }
    }

    /// No position is stored in `data` if it ends with the limits that are
    /// stored in it.
    proof fn lemma_needs_bump(data: Seq<u8>, stop_loss: Option<u64>, take_profit: Option<u64>)
        requires
            limit_bytes(stop_loss).is_prefix_of(data.skip(185)),
            limit_bytes(take_profit).is_prefix_of(
                data.skip(185 + limit_bytes(stop_loss).len() as int),
            ),
            data.len() < 186 + limit_bytes(stop_loss).len() + limit_bytes(take_profit).len(),
        ensures
            forall|position: Position| !position.fields().is_prefix_of(data),
    {
        assert forall|position: Position| !position.fields().is_prefix_of(data) by {
            if position.fields().is_prefix_of(data) {
                Self::lemma_take_profit_found(position, stop_loss, take_profit, data);
                position.lemma_fields_len();
            }
        }
    }

    /// The position is stored in `data` if its values are, one after the
    /// other.
    proof fn lemma_stored(self, data: Seq<u8>)
        requires
            data.len() >= 186 + limit_bytes(self.stop_loss).len() + limit_bytes(
                self.take_profit,
            ).len(),
            self.without_limits().front() == data.subrange(0, 185),
            limit_bytes(self.stop_loss).is_prefix_of(data.skip(185)),
            limit_bytes(self.take_profit).is_prefix_of(
                data.skip(185 + limit_bytes(self.stop_loss).len() as int),
            ),
            self.bump == data[(185 + limit_bytes(self.stop_loss).len() + limit_bytes(
                self.take_profit,
            ).len()) as int],
        ensures
            self.fields().is_prefix_of(data),
    {
        self.lemma_fields_len();
        let stop = limit_bytes(self.stop_loss);
        let take = limit_bytes(self.take_profit);
        let at = 185 + stop.len() as int;
        let end = at + take.len() as int;
        assert(stop =~= data.subrange(185, at));
        assert(take =~= data.subrange(at, end));
        assert(self.fields() =~= data.subrange(0, end + 1));
    }

    /// A position is determined by its bytes, whatever follows them: no two
    /// are stored in the same data.
    pub proof fn lemma_unique(self, other: Position, data: Seq<u8>)
        requires
            self.fields().is_prefix_of(data),
            other.fields().is_prefix_of(data),
        ensures
            self == other,
    {
        self.lemma_shape();
        other.lemma_shape();
        let stop = limit_bytes(self.stop_loss);
        let take = limit_bytes(self.take_profit);
        assert(self.fields().subrange(0, 185) =~= data.subrange(0, 185));
        assert(other.fields().subrange(0, 185) =~= data.subrange(0, 185));
        self.without_limits().lemma_front_unique(other.without_limits());
        assert(stop =~= data.skip(185).subrange(0, stop.len() as int));
        assert(take =~= data.skip(185 + stop.len() as int).subrange(0, take.len() as int));
        Self::lemma_take_profit_found(other, self.stop_loss, self.take_profit, data);
        let last = self.fields().len() - 1;
        assert(self.fields()[last] == data.subrange(0, last + 1)[last]);
        assert(other.fields()[last] == data.subrange(0, last + 1)[last]);
    }

    /// Reads the position that the account data `buf` holds behind its
    /// first eight bytes, which are not looked at. Bytes behind the record
    /// are not looked at either. The result is the one position whose
    /// values are stored there; if there is none, because the data ends
    /// too early or a byte that must tell a side or whether a limit is set
    /// tells neither, the call fails with `AccountDidNotDeserialize`.
    pub fn try_deserialize_unchecked(buf: &[u8]) -> (res: Result<Position, PerpetualsError>)
        requires
            buf@.len() >= 8,
        ensures
            match res {
                Ok(position) => position.fields().is_prefix_of(buf@.skip(8)) && forall|
                    other: Position,
                | other.fields().is_prefix_of(buf@.skip(8)) ==> other == position,
                Err(e) => e == PerpetualsError::AccountDidNotDeserialize && forall|
                    position: Position,
                | !position.fields().is_prefix_of(buf@.skip(8)),
            },
    {
        let ghost data = buf@.skip(8);
        if buf.len() < 196 {
            proof {
                Self::lemma_needs_bytes(data);
            }
            return Err(PerpetualsError::AccountDidNotDeserialize);
        }
        let front = match get_front(buf) {
            Some(front) => front,
            None => {
                proof {
                    Self::lemma_needs_side(data);
                }
                return Err(PerpetualsError::AccountDidNotDeserialize);
            },
        };
        assert(buf@.subrange(8, 193) =~= data.subrange(0, 185));
        assert(buf@.skip(193) =~= data.skip(185));
        let (stop_loss, at) = match get_limit(buf, 193) {
            Some(found) => found,
            None => {
                proof {
                    Self::lemma_needs_stop_loss(data);
                }
                return Err(PerpetualsError::AccountDidNotDeserialize);
            },
        };
        assert(buf@.skip(at as int) =~= data.skip(185 + limit_bytes(stop_loss).len() as int));
        let (take_profit, end) = match get_limit(buf, at) {
            Some(found) => found,
            None => {
                proof {
                    Self::lemma_needs_take_profit(data, stop_loss);
                }
                return Err(PerpetualsError::AccountDidNotDeserialize);
            },
        };
        if buf.len() - end < 1 {
            proof {
                Self::lemma_needs_bump(data, stop_loss, take_profit);
            }
            return Err(PerpetualsError::AccountDidNotDeserialize);
        }
        let position = Position {
            owner: front.owner,
            pool: front.pool,
            custody: front.custody,
            open_time: front.open_time,
            update_time: front.update_time,
            side: front.side,
            price: front.price,
            size_usd: front.size_usd,
            collateral_usd: front.collateral_usd,
            unrealized_profit_usd: front.unrealized_profit_usd,
            unrealized_loss_usd: front.unrealized_loss_usd,
            cumulative_interest_snapshot: front.cumulative_interest_snapshot,
            locked_amount: front.locked_amount,
            collateral_amount: front.collateral_amount,
            stop_loss,
            take_profit,
            bump: buf[end],
        };
        proof {
            assert(position.without_limits().front() == front.front());
            position.lemma_stored(data);
            assert forall|other: Position| other.fields().is_prefix_of(data) implies other
                == position by {
                other.lemma_unique(position, data);
            }
        }
        Ok(position)
    }

    /// Reads the position that the account data `buf` holds, after making
    /// sure that its first eight bytes are those of a position. It fails
    /// with `AccountDiscriminatorNotFound` if there are fewer than eight
    /// bytes, with `AccountDiscriminatorMismatch` if the eight are others,
    /// and else as `try_deserialize_unchecked` does.
    pub fn try_deserialize(buf: &[u8]) -> (res: Result<Position, PerpetualsError>)
        ensures
            match res {
                Ok(position) => position.record().is_prefix_of(buf@) && forall|other: Position|
                    other.record().is_prefix_of(buf@) ==> other == position,
                Err(e) => if buf@.len() < 8 {
                    e == PerpetualsError::AccountDiscriminatorNotFound
                } else if buf@.subrange(0, 8) != Self::DISCRIMINATOR@ {
                    e == PerpetualsError::AccountDiscriminatorMismatch
                } else {
                    e == PerpetualsError::AccountDidNotDeserialize && forall|position: Position|
                        !position.record().is_prefix_of(buf@)
                },
            },
    {
        if buf.len() < 8 {
            return Err(PerpetualsError::AccountDiscriminatorNotFound);
        }
        let mut i: usize = 0;
        while i < 8
            invariant
                i <= 8 <= buf@.len(),
                forall|j: int| 0 <= j < i ==> buf@[j] == Self::DISCRIMINATOR@[j],
            decreases 8 - i,
        {
            if buf[i] != Self::DISCRIMINATOR[i] {
                assert(buf@.subrange(0, 8)[i as int] == buf@[i as int]);
                return Err(PerpetualsError::AccountDiscriminatorMismatch);
            }
            i += 1;
        }
        assert(buf@.subrange(0, 8) =~= Self::DISCRIMINATOR@);
        match Self::try_deserialize_unchecked(buf) {
            Ok(position) => {
                proof {
                    position.lemma_fields_len();
                    assert(position.record() =~= buf@.subrange(0, position.record().len() as int));
                    assert forall|other: Position| other.record().is_prefix_of(buf@) implies other
                        == position by {
                        other.lemma_fields_len();
                        let len = other.fields().len() as int;
                        assert(other.record().subrange(8, 8 + len) =~= other.fields());
                        assert(other.fields() =~= buf@.skip(8).subrange(0, len));
                    }
                }
                Ok(position)
            },
            Err(e) => {
                assert forall|position: Position| !position.record().is_prefix_of(buf@) by {
                    position.lemma_fields_len();
                    if position.record().is_prefix_of(buf@) {
                        let len = position.fields().len() as int;
                        assert(position.record().subrange(8, 8 + len) =~= position.fields());
                        assert(position.fields() =~= buf@.skip(8).subrange(0, len));
                    }
                }
                Err(e)
            },
        }
    }

    /// Writes the account bytes of the position at the cursor of `writer`.
    /// It succeeds exactly if the record fits between the cursor and the
    /// end of the buffer, and fails with `AccountDidNotSerialize` if not; a
    /// failed call has still written the part of the record that fits.
    /// Bytes before the cursor and behind what was written are kept.
    pub fn try_serialize(&self, writer: &mut BpfWriter<&mut [u8]>) -> (res: Result<
        (),
        PerpetualsError,
    >)
        ensures
            self.record().len() <= old(writer).room() ==> res == Ok::<(), PerpetualsError>(()),
            self.record().len() > old(writer).room() ==> res == Err::<(), PerpetualsError>(
                PerpetualsError::AccountDidNotSerialize,
            ),
            final(writer).position() == old(writer).position() + old(writer).takes(
                self.record().len(),
            ),
            final(writer).buffer()@ == overwrite(
                old(writer).buffer()@,
                old(writer).position() as int,
                self.record().subrange(0, old(writer).takes(self.record().len()) as int),
            ),
            final(final(writer).buffer())@ == final(old(writer).buffer())@,
    {
        proof {
            self.lemma_fields_len();
        }
        let ghost start = writer.position() as int;
        let ghost before = writer.buffer()@;
        let ghost room = writer.room();
        match writer.write_all(Self::DISCRIMINATOR.as_slice()) {
            Ok(()) => {},
            Err(_) => {
                assert(Self::DISCRIMINATOR@.subrange(0, room as int) =~= self.record().subrange(
                    0,
                    room as int,
                ));
                return Err(PerpetualsError::AccountDidNotSerialize);
            },
        }
        let mut fields: Vec<u8> = Vec::new();
        let _ = self.serialize(&mut fields);
        assert(fields@ =~= self.fields());
        let ghost taken = writer.takes(fields@.len());
        let res = writer.write_all(fields.as_slice());
        assert(writer.buffer()@ =~= overwrite(
            before,
            start,
            self.record().subrange(0, 8 + taken as int),
        ));
        match res {
            Ok(()) => Ok(()),
            Err(_) => Err(PerpetualsError::AccountDidNotSerialize),
        }
    }
}

/// A limit takes one byte if it is not set and nine if it is.
pub proof fn lemma_limit_len(limit: Option<u64>)
    ensures
        limit_bytes(limit).len() == if limit is Some {
            9nat
        } else {
            1nat
        },
{
    if let Some(threshold) = limit {
        lemma_le_bytes_len(threshold as nat, 8);
    }
}

} // verus!
