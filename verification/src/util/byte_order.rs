//! Fixed-width integers as bytes, and the proofs that reading undoes writing.

use crate::util::custom_iterator::{
    as_signed, as_unsigned, be_u16_of, be_u32_of, be_u64_of, le_u16_of, le_u32_of, le_u64_of,
};
use vstd::prelude::*;

verus! {

/// The byte of `value` that has weight 256^`index`.
pub open spec fn byte_of(value: int, index: nat) -> u8 {
    if index == 0 {
        (value % 0x100) as u8
    } else if index == 1 {
        (value / 0x100 % 0x100) as u8
    } else if index == 2 {
        (value / 0x1_0000 % 0x100) as u8
    } else {
        (value / 0x100_0000 % 0x100) as u8
    }
}

pub open spec fn be_bytes_16(value: int) -> Seq<u8> {
    seq![byte_of(value, 1), byte_of(value, 0)]
}

pub open spec fn be_bytes_32(value: int) -> Seq<u8> {
    seq![byte_of(value, 3), byte_of(value, 2), byte_of(value, 1), byte_of(value, 0)]
}

pub open spec fn be_bytes_64(value: int) -> Seq<u8> {
    be_bytes_32(value / 0x1_0000_0000) + be_bytes_32(value % 0x1_0000_0000)
}

pub open spec fn le_bytes_16(value: int) -> Seq<u8> {
    seq![byte_of(value, 0), byte_of(value, 1)]
}

pub open spec fn le_bytes_32(value: int) -> Seq<u8> {
    seq![byte_of(value, 0), byte_of(value, 1), byte_of(value, 2), byte_of(value, 3)]
}

pub open spec fn le_bytes_64(value: int) -> Seq<u8> {
    le_bytes_32(value % 0x1_0000_0000) + le_bytes_32(value / 0x1_0000_0000)
}

/// Reading the bytes of a 16-bit value gives the value back, in both orders.
pub proof fn lemma_round_trip_16(value: int)
    requires
        0 <= value <= 0xFFFF,
    ensures
        be_bytes_16(value).len() == 2,
        le_bytes_16(value).len() == 2,
        be_u16_of(be_bytes_16(value)) == value,
        le_u16_of(le_bytes_16(value)) == value,
{
}

/// Reading the bytes of a 32-bit value gives the value back, in both orders.
pub proof fn lemma_round_trip_32(value: int)
    requires
        0 <= value <= 0xFFFF_FFFF,
    ensures
        be_bytes_32(value).len() == 4,
        le_bytes_32(value).len() == 4,
        be_u32_of(be_bytes_32(value)) == value,
        le_u32_of(le_bytes_32(value)) == value,
{
}

/// Reading the bytes of a 64-bit value gives the value back, in both orders.
pub proof fn lemma_round_trip_64(value: int)
    requires
        0 <= value <= 0xFFFF_FFFF_FFFF_FFFF,
    ensures
        be_bytes_64(value).len() == 8,
        le_bytes_64(value).len() == 8,
        be_u64_of(be_bytes_64(value)) == value,
        le_u64_of(le_bytes_64(value)) == value,
{
    let high = value / 0x1_0000_0000;
    let low = value % 0x1_0000_0000;
    lemma_round_trip_32(high);
    lemma_round_trip_32(low);
    assert(be_bytes_64(value).subrange(0, 4) =~= be_bytes_32(high));
    assert(be_bytes_64(value).subrange(4, 8) =~= be_bytes_32(low));
    assert(le_bytes_64(value).subrange(0, 4) =~= le_bytes_32(low));
    assert(le_bytes_64(value).subrange(4, 8) =~= le_bytes_32(high));
}

pub fn push_be_16(buffer: &mut Vec<u8>, value: u16)
    ensures
        final(buffer)@ == old(buffer)@ + be_bytes_16(value as int),
{
    buffer.push((value / 0x100) as u8);
    buffer.push((value % 0x100) as u8);
    assert(buffer@ =~= old(buffer)@ + be_bytes_16(value as int));
}

pub fn push_be_32(buffer: &mut Vec<u8>, value: u32)
    ensures
        final(buffer)@ == old(buffer)@ + be_bytes_32(value as int),
{
    buffer.push((value / 0x100_0000) as u8);
    buffer.push((value / 0x1_0000 % 0x100) as u8);
    buffer.push((value / 0x100 % 0x100) as u8);
    buffer.push((value % 0x100) as u8);
    assert(buffer@ =~= old(buffer)@ + be_bytes_32(value as int));
}

pub fn push_be_64(buffer: &mut Vec<u8>, value: u64)
    ensures
        final(buffer)@ == old(buffer)@ + be_bytes_64(value as int),
{
    push_be_32(buffer, (value / 0x1_0000_0000) as u32);
    push_be_32(buffer, (value % 0x1_0000_0000) as u32);
    assert(buffer@ =~= old(buffer)@ + be_bytes_64(value as int));
}

pub fn push_le_32(buffer: &mut Vec<u8>, value: u32)
    ensures
        final(buffer)@ == old(buffer)@ + le_bytes_32(value as int),
{
    buffer.push((value % 0x100) as u8);
    buffer.push((value / 0x100 % 0x100) as u8);
    buffer.push((value / 0x1_0000 % 0x100) as u8);
    buffer.push((value / 0x100_0000) as u8);
    assert(buffer@ =~= old(buffer)@ + le_bytes_32(value as int));
}

pub fn push_le_64(buffer: &mut Vec<u8>, value: u64)
    ensures
        final(buffer)@ == old(buffer)@ + le_bytes_64(value as int),
{
    push_le_32(buffer, (value % 0x1_0000_0000) as u32);
    push_le_32(buffer, (value / 0x1_0000_0000) as u32);
    assert(buffer@ =~= old(buffer)@ + le_bytes_64(value as int));
}

/// Appends a copy of `bytes`.
pub fn push_all(buffer: &mut Vec<u8>, bytes: &[u8])
    ensures
        final(buffer)@ == old(buffer)@ + bytes@,
{
    let mut i: usize = 0;
    assert(buffer@ =~= old(buffer)@ + bytes@.subrange(0, 0));
    while i < bytes.len()
        invariant
            i <= bytes.len(),
            buffer@ == old(buffer)@ + bytes@.subrange(0, i as int),
        decreases bytes.len() - i,
    {
        buffer.push(bytes[i]);
        i += 1;
        assert(buffer@ =~= old(buffer)@ + bytes@.subrange(0, i as int));
    }
    assert(bytes@.subrange(0, i as int) =~= bytes@);
}

/// The unsigned 8-bit pattern of a signed value.
pub fn pattern_8(value: i8) -> (r: u8)
    ensures
        r == as_unsigned(value as int, 0x80),
{
    if value < 0 {
        ((value as i16) + 0x100) as u8
    } else {
        value as u8
    }
}

/// The unsigned 16-bit pattern of a signed value.
pub fn pattern_16(value: i16) -> (r: u16)
    ensures
        r == as_unsigned(value as int, 0x8000),
{
    if value < 0 {
        ((value as i32) + 0x1_0000) as u16
    } else {
        value as u16
    }
}

/// The unsigned 32-bit pattern of a signed value.
pub fn pattern_32(value: i32) -> (r: u32)
    ensures
        r == as_unsigned(value as int, 0x8000_0000),
{
    if value < 0 {
        ((value as i64) + 0x1_0000_0000) as u32
    } else {
        value as u32
    }
}

/// The unsigned 64-bit pattern of a signed value.
pub fn pattern_64(value: i64) -> (r: u64)
    ensures
        r == as_unsigned(value as int, 0x8000_0000_0000_0000),
{
    if value < 0 {
        ((value - i64::MIN) as u64) + 0x8000_0000_0000_0000
    } else {
        value as u64
    }
}

/// What was written behind `written` was written behind `base` as part of
/// `written + piece`.
pub proof fn lemma_appended(base: Seq<u8>, written: Seq<u8>, piece: Seq<u8>)
    ensures
        (base + written) + piece == base + (written + piece),
{
    assert((base + written) + piece =~= base + (written + piece));
}

/// 2 to the power `exponent`.
pub open spec fn two_to(exponent: nat) -> nat
    decreases exponent,
{
    if exponent == 0 {
        1
    } else {
        2 * two_to((exponent - 1) as nat)
    }
}

/// The powers of two grow.
pub proof fn lemma_two_to_grows(low: nat, high: nat)
    requires
        low <= high,
    ensures
        1 <= two_to(low) <= two_to(high),
    decreases high,
{
    if low < high {
        lemma_two_to_grows(low, (high - 1) as nat);
    } else if low > 0 {
        lemma_two_to_grows((low - 1) as nat, (low - 1) as nat);
    }
}

} // verus!
