//! Little-endian integers, the numbers of every stored record.
//!
//! An unsigned integer of `width` bytes is stored lowest byte first. A signed
//! one is stored as the unsigned integer with the same bits.

use vstd::prelude::*;

verus! {

/// The `width` lowest base-256 digits of `value`, lowest first.
pub open spec fn le_bytes(value: nat, width: nat) -> Seq<u8>
    decreases width,
{
    if width == 0 {
        Seq::empty()
    } else {
        seq![(value % 256) as u8] + le_bytes(value / 256, (width - 1) as nat)
    }
}

/// The number whose base-256 digits, lowest first, are `bytes`.
pub open spec fn le_value(bytes: Seq<u8>) -> nat
    decreases bytes.len(),
{
    if bytes.len() == 0 {
        0
    } else {
        bytes[0] as nat + 256 * le_value(bytes.skip(1))
    }
}

/// `256` to the power `width`: the number of values that `width` bytes hold.
pub open spec fn radix(width: nat) -> nat
    decreases width,
{
    if width == 0 {
        1
    } else {
        256 * radix((width - 1) as nat)
    }
}

/// The unsigned 64-bit number with the bits of `value`.
pub open spec fn bits_of(value: i64) -> nat {
    if value >= 0 {
        value as nat
    } else {
        (value + 0x1_0000_0000_0000_0000) as nat
    }
}

/// The signed 64-bit number with the bits of `bits`, which is below `2^64`.
pub open spec fn signed_of(bits: nat) -> i64 {
    if bits < 0x8000_0000_0000_0000 {
        bits as i64
    } else {
        (bits - 0x1_0000_0000_0000_0000) as i64
    }
}

/// An integer of `width` bytes takes `width` bytes.
pub proof fn lemma_le_bytes_len(value: nat, width: nat)
    ensures
        le_bytes(value, width).len() == width,
    decreases width,
{
    if width > 0 {
        lemma_le_bytes_len(value / 256, (width - 1) as nat);
    }
}

/// The number that `bytes` hold is below `256` to the power of their count.
pub proof fn lemma_le_value_bound(bytes: Seq<u8>)
    ensures
        le_value(bytes) < radix(bytes.len()),
    decreases bytes.len(),
{
    if bytes.len() > 0 {
        lemma_le_value_bound(bytes.skip(1));
    }
}

/// More bytes hold at least as many values.
pub proof fn lemma_radix_grows(small: nat, large: nat)
    requires
        small <= large,
    ensures
        0 < radix(small) <= radix(large),
    decreases large,
{
    if large == 0 {
    } else if small == large {
        lemma_radix_grows((small - 1) as nat, (large - 1) as nat);
    } else {
        lemma_radix_grows(small, (large - 1) as nat);
    }
}

/// Eight bytes hold the 64-bit numbers and sixteen bytes the 128-bit ones.
pub proof fn lemma_radix_of_word()
    ensures
        radix(8) == 0x1_0000_0000_0000_0000,
        radix(16) == 0x1_0000_0000_0000_0000_0000_0000_0000_0000,
{
    reveal_with_fuel(radix, 17);
}

/// Reading back what was stored gives the number that was stored, provided
/// that it fits into the width.
pub proof fn lemma_value_of_bytes(value: nat, width: nat)
    requires
        value < radix(width),
    ensures
        le_value(le_bytes(value, width)) == value,
    decreases width,
{
    if width > 0 {
        let tail = le_bytes(value / 256, (width - 1) as nat);
        lemma_value_of_bytes(value / 256, (width - 1) as nat);
        assert(le_bytes(value, width).skip(1) =~= tail);
    }
}

/// Storing what was read gives the bytes that were read.
pub proof fn lemma_bytes_of_value(bytes: Seq<u8>)
    ensures
        le_bytes(le_value(bytes), bytes.len()) == bytes,
    decreases bytes.len(),
{
    if bytes.len() > 0 {
        lemma_bytes_of_value(bytes.skip(1));
        assert(le_bytes(le_value(bytes), bytes.len()) =~= bytes);
    }
}

/// A signed number and its bits determine each other.
pub proof fn lemma_signed_bits(value: i64)
    ensures
        bits_of(value) < 0x1_0000_0000_0000_0000,
        signed_of(bits_of(value)) == value,
{
}

/// Every 64-bit pattern is the bits of the signed number that it stands for.
pub proof fn lemma_bits_signed(bits: nat)
    requires
        bits < 0x1_0000_0000_0000_0000,
    ensures
        bits_of(signed_of(bits)) == bits,
{
}

/// Appends `bytes`.
pub fn put_bytes(out: &mut Vec<u8>, bytes: &[u8])
    ensures
        final(out)@ == old(out)@ + bytes@,
{
    out.extend_from_slice(bytes);
    assert(out@ =~= old(out)@ + bytes@);
}

/// Appends the `width` bytes of `value`.
pub fn put_uint(out: &mut Vec<u8>, value: u128, width: usize)
    requires
        width <= 16,
    ensures
        final(out)@ == old(out)@ + le_bytes(value as nat, width as nat),
{
    let mut rest = value;
    let mut i: usize = 0;
    while i < width
        invariant
            i <= width,
            out@ + le_bytes(rest as nat, (width - i) as nat) == old(out)@ + le_bytes(
                value as nat,
                width as nat,
            ),
        decreases width - i,
    {
        let ghost before = out@;
        out.push((rest % 256) as u8);
        assert(out@ + le_bytes((rest / 256) as nat, (width - i - 1) as nat) =~= before + le_bytes(
            rest as nat,
            (width - i) as nat,
        ));
        rest = rest / 256;
        i += 1;
    }
    assert(out@ + le_bytes(rest as nat, 0) =~= out@);
}

/// Reads the number that the `width` bytes from `at` on hold.
pub fn get_uint(buf: &[u8], at: usize, width: usize) -> (value: u128)
    requires
        at + width <= buf@.len(),
        width <= 16,
    ensures
        value == le_value(buf@.subrange(at as int, at + width)),
{
    let mut value: u128 = 0;
    let mut i: usize = width;
    while i > 0
        invariant
            i <= width <= 16,
            at + width <= buf.len(),
            value == le_value(buf@.subrange(at + i, at + width)),
        decreases i,
    {
        i -= 1;
        proof {
            let longer = buf@.subrange(at + i, at + width);
            assert(longer.skip(1) =~= buf@.subrange(at + i + 1, at + width));
            lemma_le_value_bound(longer);
            lemma_radix_grows(longer.len(), 16);
            lemma_radix_of_word();
        }
        value = value * 256 + buf[at + i] as u128;
    }
    value
}

/// Appends the eight bytes of `value`.
pub fn put_u64(out: &mut Vec<u8>, value: u64)
    ensures
        final(out)@ == old(out)@ + le_bytes(value as nat, 8),
{
    put_uint(out, value as u128, 8);
}

/// Appends the sixteen bytes of `value`.
pub fn put_u128(out: &mut Vec<u8>, value: u128)
    ensures
        final(out)@ == old(out)@ + le_bytes(value as nat, 16),
{
    put_uint(out, value, 16);
}

/// Appends the eight bytes of the bits of `value`.
pub fn put_i64(out: &mut Vec<u8>, value: i64)
    ensures
        final(out)@ == old(out)@ + le_bytes(bits_of(value), 8),
{
    let bits: u64 = if value >= 0 {
        value as u64
    } else {
        (value - i64::MIN) as u64 + 0x8000_0000_0000_0000
    };
    put_uint(out, bits as u128, 8);
}

/// Reads the 64-bit number that the eight bytes from `at` on hold.
pub fn get_u64(buf: &[u8], at: usize) -> (value: u64)
    requires
        at + 8 <= buf@.len(),
    ensures
        value == le_value(buf@.subrange(at as int, at + 8)),
{
    proof {
        lemma_le_value_bound(buf@.subrange(at as int, at + 8));
        lemma_radix_of_word();
    }
    get_uint(buf, at, 8) as u64
}

/// Reads the 128-bit number that the sixteen bytes from `at` on hold.
pub fn get_u128(buf: &[u8], at: usize) -> (value: u128)
    requires
        at + 16 <= buf@.len(),
    ensures
        value == le_value(buf@.subrange(at as int, at + 16)),
{
    get_uint(buf, at, 16)
}

/// Reads the signed 64-bit number whose bits the eight bytes from `at` on
/// hold.
pub fn get_i64(buf: &[u8], at: usize) -> (value: i64)
    requires
        at + 8 <= buf@.len(),
    ensures
        value == signed_of(le_value(buf@.subrange(at as int, at + 8))),
{
    let bits = get_u64(buf, at);
    if bits < 0x8000_0000_0000_0000 {
        bits as i64
    } else {
        (bits - 0x8000_0000_0000_0000) as i64 + i64::MIN
    }
}

} // verus!
