//! Integers, floats, variable-length integers and strings as Lidgren writes them.

use crate::network::message_pack::reader::{
    read_string_len, spec_read_string_len, string_read_as,
};
use crate::network::message_pack::round_trip::{
    begins_with, lemma_begins_with, lemma_begins_with_split, lemma_take_prefix,
};
use crate::util::byte_order::{le_bytes_32, le_bytes_64, push_all, push_le_32, push_le_64};
use crate::util::custom_iterator::{Cursor, CustomIterator};
use crate::util::error_handling::ReadError;
use vstd::prelude::*;
use vstd::string::*;
use vstd::utf8::{encode_utf8, encode_utf8_decode_utf8, encode_utf8_valid_utf8};

verus! {

/// 128 to the power `index`, for the five bytes that a variable-length integer may have.
pub open spec fn vint_weight(index: int) -> int {
    if index <= 0 {
        1
    } else if index == 1 {
        0x80
    } else if index == 2 {
        0x4000
    } else if index == 3 {
        0x20_0000
    } else {
        0x1000_0000
    }
}

/// The variable-length encoding: seven bits a byte, low bits first, the high
/// bit set on every byte but the last.
pub open spec fn vint_encoding(value: int) -> Seq<u8>
    decreases value,
{
    if value < 0x80 {
        seq![value as u8]
    } else {
        seq![(value % 0x80 + 0x80) as u8] + vint_encoding(value / 0x80)
    }
}

/// The number of bytes of the variable-length encoding.
pub open spec fn spec_vint_length(value: int) -> int {
    if value < 0x80 {
        1
    } else if value < 0x4000 {
        2
    } else if value < 0x20_0000 {
        3
    } else if value < 0x1000_0000 {
        4
    } else {
        5
    }
}

/// Reads the bytes of a variable-length integer from the byte number
/// `index` on, `sum` being the value of the bytes before it. A fifth byte
/// that asks for a sixth is refused, and bits above the 32nd are dropped.
pub open spec fn spec_read_vint_from(c: Cursor, index: int, sum: int) -> (
    Result<u32, ReadError>,
    Cursor,
)
    decreases 5 - index,
{
    if index >= 5 {
        (Err(ReadError::OutOfRange), c)
    } else {
        match c.next() {
            (Ok(b), c1) => if b < 0x80 {
                (Ok(((sum + b * vint_weight(index)) % 0x1_0000_0000) as u32), c1)
            } else {
                spec_read_vint_from(c1, index + 1, sum + (b - 0x80) * vint_weight(index))
            },
            (Err(e), c1) => (Err(e), c1),
        }
    }
}

pub open spec fn spec_read_vint_32(c: Cursor) -> (Result<u32, ReadError>, Cursor) {
    spec_read_vint_from(c, 0, 0)
}

pub open spec fn spec_read_int_32(c: Cursor) -> (Result<u32, ReadError>, Cursor) {
    c.le_u32()
}

pub open spec fn spec_read_int_64(c: Cursor) -> (Result<u64, ReadError>, Cursor) {
    c.le_u64()
}

/// A string is its length in bytes as a variable-length integer, then its UTF-8 bytes.
pub open spec fn spec_read_string(c: Cursor) -> (Result<Seq<char>, ReadError>, Cursor) {
    match spec_read_vint_32(c) {
        (Ok(length), c1) => spec_read_string_len(c1, length as int),
        (Err(e), c1) => (Err(e), c1),
    }
}

pub open spec fn string_encoding(text: Seq<char>) -> Seq<u8> {
    vint_encoding(encode_utf8(text).len() as int) + encode_utf8(text)
}

pub fn read_int_64(iterator: &mut CustomIterator) -> (r: Result<u64, ReadError>)
    ensures
        (r, final(iterator)@) == spec_read_int_64(old(iterator)@),
{
    iterator.read_le_u64()
}

pub fn write_int_64(buffer: &mut Vec<u8>, value: u64)
    ensures
        final(buffer)@ == old(buffer)@ + le_bytes_64(value as int),
{
    push_le_64(buffer, value);
}

pub fn read_int_32(iterator: &mut CustomIterator) -> (r: Result<u32, ReadError>)
    ensures
        (r, final(iterator)@) == spec_read_int_32(old(iterator)@),
{
    iterator.read_le_u32()
}

pub fn write_int_32(buffer: &mut Vec<u8>, value: u32)
    ensures
        final(buffer)@ == old(buffer)@ + le_bytes_32(value as int),
{
    push_le_32(buffer, value);
}

/// Reads a float and hands out its bit pattern.
pub fn read_float(iterator: &mut CustomIterator) -> (r: Result<u32, ReadError>)
    ensures
        (r, final(iterator)@) == spec_read_int_32(old(iterator)@),
{
    iterator.read_le_u32()
}

/// Writes a float, given by its bit pattern.
pub fn write_float(buffer: &mut Vec<u8>, bits: u32)
    ensures
        final(buffer)@ == old(buffer)@ + le_bytes_32(bits as int),
{
    push_le_32(buffer, bits);
}

fn weight(index: u8) -> (w: u64)
    requires
        index < 5,
    ensures
        w == vint_weight(index as int),
{
    if index == 0 {
        1
    } else if index == 1 {
        0x80
    } else if index == 2 {
        0x4000
    } else if index == 3 {
        0x20_0000
    } else {
        0x1000_0000
    }
}

pub fn read_vint_32(iterator: &mut CustomIterator) -> (r: Result<u32, ReadError>)
    ensures
        (r, final(iterator)@) == spec_read_vint_32(old(iterator)@),
{
    let mut sum: u64 = 0;
    let mut index: u8 = 0;
    while index < 5
        invariant
            index <= 5,
            index == 0 ==> sum == 0,
            index >= 1 ==> sum < 0x80 * vint_weight(index - 1),
            spec_read_vint_from(iterator@, index as int, sum as int) == spec_read_vint_32(
                old(iterator)@,
            ),
        decreases 5 - index,
    {
        let byte = match iterator.next() {
            Ok(byte) => byte,
            Err(e) => {
                return Err(e);
            },
        };
        if byte < 0x80 {
            let total: u64 = sum + (byte as u64) * weight(index);
            return Ok((total % 0x1_0000_0000) as u32);
        }
        sum = sum + ((byte - 0x80) as u64) * weight(index);
        index += 1;
    }
    Err(ReadError::OutOfRange)
}

pub fn write_vint_32(buffer: &mut Vec<u8>, value: u32)
    ensures
        final(buffer)@ == old(buffer)@ + vint_encoding(value as int),
{
    let mut val: u32 = value;
    let ghost mut written: Seq<u8> = Seq::empty();
    assert(buffer@ =~= old(buffer)@ + written);
    while val >= 0x80
        invariant
            buffer@ == old(buffer)@ + written,
            written + vint_encoding(val as int) == vint_encoding(value as int),
        decreases val,
    {
        let byte: u8 = (val % 0x80 + 0x80) as u8;
        buffer.push(byte);
        proof {
            assert((written.push(byte)) + vint_encoding((val / 0x80) as int) =~= written
                + vint_encoding(val as int));
            written = written.push(byte);
            assert(buffer@ =~= old(buffer)@ + written);
        }
        val = val / 0x80;
    }
    buffer.push(val as u8);
    assert(buffer@ =~= old(buffer)@ + vint_encoding(value as int)) by {
        assert(vint_encoding(val as int) =~= seq![val as u8]);
        assert(buffer@ =~= old(buffer)@ + (written + vint_encoding(val as int)));
    }
}

pub fn vint_length(value: u32) -> (length: u32)
    ensures
        length == spec_vint_length(value as int),
        length == vint_encoding(value as int).len(),
        1 <= length <= 5,
{
    proof {
        lemma_vint_length(value as int);
    }
    if value < 0x80 {
        1
    } else if value < 0x4000 {
        2
    } else if value < 0x20_0000 {
        3
    } else if value < 0x1000_0000 {
        4
    } else {
        5
    }
}

/// The encoding of a value has as many bytes as the thresholds say.
pub proof fn lemma_vint_length(value: int)
    requires
        0 <= value <= 0xFFFF_FFFF,
    ensures
        vint_encoding(value).len() == spec_vint_length(value),
    decreases value,
{
    if value >= 0x80 {
        lemma_vint_length(value / 0x80);
    }
}

pub fn read_string(iterator: &mut CustomIterator) -> (r: Result<String, ReadError>)
    ensures
        final(iterator)@ == spec_read_string(old(iterator)@).1,
        string_read_as(r, spec_read_string(old(iterator)@).0),
{
    let length = read_vint_32(iterator)?;
    read_string_len(iterator, length as usize)
}

pub fn write_string(buffer: &mut Vec<u8>, value: &str)
    requires
        encode_utf8(value@).len() <= 0xFFFF_FFFF,
    ensures
        final(buffer)@ == old(buffer)@ + string_encoding(value@),
{
    let bytes = value.as_bytes();
    write_vint_32(buffer, bytes.len() as u32);
    push_all(buffer, bytes);
    assert(buffer@ =~= old(buffer)@ + string_encoding(value@));
}

/// Reading on from byte number `index` with the value `sum` so far, where the
/// cursor begins with the encoding of what is left of the value.
proof fn lemma_vint_from(c: Cursor, index: int, sum: int, left: int)
    requires
        0 <= index < 5,
        0 <= sum,
        0 <= left,
        sum + left * vint_weight(index) <= 0xFFFF_FFFF,
        begins_with(c, vint_encoding(left)),
    ensures
        spec_read_vint_from(c, index, sum) == (
            Ok::<u32, ReadError>((sum + left * vint_weight(index)) as u32),
            c.skipped(vint_encoding(left).len() as int),
        ),
    decreases left,
{
    let encoding = vint_encoding(left);
    lemma_begins_with(c, encoding);
    assert(c.bytes[c.position + 0] == encoding[0]);
    if left >= 0x80 {
        let rest = vint_encoding(left / 0x80);
        let head = seq![(left % 0x80 + 0x80) as u8];
        lemma_begins_with_split(c, head, rest);
        let weight = vint_weight(index);
        assert(index <= 3) by {
            if index == 4 {
                assert(left * 0x1000_0000 >= 0x80 * 0x1000_0000);
            }
        }
        assert(vint_weight(index + 1) == 0x80 * weight);
        let high = left / 0x80;
        let low = left % 0x80;
        assert(high * (0x80 * weight) + low * weight == left * weight) by (nonlinear_arith)
            requires
                left == 0x80 * high + low,
        ;
        lemma_vint_from(c.skipped(1), index + 1, sum + (left % 0x80) * weight, left / 0x80);
        assert(c.skipped(1).skipped(rest.len() as int) == c.skipped(encoding.len() as int));
    }
}

/// A variable-length integer that was written is read back, and the cursor
/// then stands behind its encoding.
pub proof fn lemma_vint_round_trip(c: Cursor, value: int)
    requires
        0 <= value <= 0xFFFF_FFFF,
        begins_with(c, vint_encoding(value)),
    ensures
        spec_read_vint_32(c) == (
            Ok::<u32, ReadError>(value as u32),
            c.skipped(vint_encoding(value).len() as int),
        ),
{
    lemma_vint_from(c, 0, 0, value);
}

/// A string that was written is read back char for char, and the cursor then
/// stands behind its encoding.
pub proof fn lemma_string_round_trip(c: Cursor, text: Seq<char>)
    requires
        encode_utf8(text).len() <= 0xFFFF_FFFF,
        begins_with(c, string_encoding(text)),
    ensures
        spec_read_string(c) == (
            Ok::<Seq<char>, ReadError>(text),
            c.skipped(string_encoding(text).len() as int),
        ),
{
    let bytes = encode_utf8(text);
    let head = vint_encoding(bytes.len() as int);
    lemma_begins_with_split(c, head, bytes);
    lemma_vint_round_trip(c, bytes.len() as int);
    lemma_take_prefix(c.skipped(head.len() as int), bytes);
    encode_utf8_valid_utf8(text);
    encode_utf8_decode_utf8(text);
    assert(c.skipped(head.len() as int).skipped(bytes.len() as int) == c.skipped(
        string_encoding(text).len() as int,
    ));
}

} // verus!
