//! Writes MessagePack values, each in the smallest encoding that holds it.

use crate::util::byte_order::{
    be_bytes_16, be_bytes_32, be_bytes_64, pattern_16, pattern_32, pattern_64, pattern_8,
    push_all, push_be_16, push_be_32, push_be_64,
};
use vstd::prelude::*;
use vstd::string::*;
use vstd::utf8::encode_utf8;

verus! {

/// The smallest MessagePack encoding of an integer in [-2^63, 2^64).
pub open spec fn int_encoding(n: int) -> Seq<u8> {
    if 0 <= n <= 0x7F {
        seq![n as u8]
    } else if 0x80 <= n <= 0xFF {
        seq![0xCCu8, n as u8]
    } else if 0x100 <= n <= 0xFFFF {
        seq![0xCDu8] + be_bytes_16(n)
    } else if 0x1_0000 <= n <= 0xFFFF_FFFF {
        seq![0xCEu8] + be_bytes_32(n)
    } else if 0x1_0000_0000 <= n {
        seq![0xCFu8] + be_bytes_64(n)
    } else if -32 <= n {
        seq![(n + 0x100) as u8]
    } else if -0x80 <= n {
        seq![0xD0u8, (n + 0x100) as u8]
    } else if -0x8000 <= n {
        seq![0xD1u8] + be_bytes_16(n + 0x1_0000)
    } else if -0x8000_0000 <= n {
        seq![0xD2u8] + be_bytes_32(n + 0x1_0000_0000)
    } else {
        seq![0xD3u8] + be_bytes_64(n + 0x1_0000_0000_0000_0000)
    }
}

/// The encoding of a 32-bit float, given by its bit pattern.
pub open spec fn float_32_encoding(bits: u32) -> Seq<u8> {
    seq![0xCAu8] + be_bytes_32(bits as int)
}

/// The encoding of a 64-bit float, given by its bit pattern.
pub open spec fn float_64_encoding(bits: u64) -> Seq<u8> {
    seq![0xCBu8] + be_bytes_64(bits as int)
}

pub open spec fn bool_encoding(value: bool) -> Seq<u8> {
    if value {
        seq![0xC3u8]
    } else {
        seq![0xC2u8]
    }
}

/// The smallest string encoding of UTF-8 bytes, of which there are at most
/// 0xFFFF_FFFF: the length stands in the type byte, in one byte, in two or
/// in four.
pub open spec fn string_bytes_encoding(bytes: Seq<u8>) -> Seq<u8> {
    if bytes.len() <= 31 {
        seq![(0xA0 + bytes.len()) as u8] + bytes
    } else if bytes.len() <= 0xFF {
        seq![0xD9u8, bytes.len() as u8] + bytes
    } else if bytes.len() <= 0xFFFF {
        seq![0xDAu8] + be_bytes_16(bytes.len() as int) + bytes
    } else {
        seq![0xDBu8] + be_bytes_32(bytes.len() as int) + bytes
    }
}

/// The smallest encoding of a string, or nil where there is none.
pub open spec fn string_encoding(value: Option<Seq<char>>) -> Seq<u8> {
    match value {
        None => seq![0xC0u8],
        Some(chars) => string_bytes_encoding(encode_utf8(chars)),
    }
}

/// The smallest header of a map with `count` entries.
pub open spec fn map_header(count: u32) -> Seq<u8> {
    if count <= 0xF {
        seq![(0x80 + count) as u8]
    } else if count <= 0xFFFF {
        seq![0xDEu8] + be_bytes_16(count as int)
    } else {
        seq![0xDFu8] + be_bytes_32(count as int)
    }
}

/// The smallest header of an array with `count` elements.
pub open spec fn array_header(count: u32) -> Seq<u8> {
    if count <= 0xF {
        seq![(0x90 + count) as u8]
    } else if count <= 0xFFFF {
        seq![0xDCu8] + be_bytes_16(count as int)
    } else {
        seq![0xDDu8] + be_bytes_32(count as int)
    }
}

/// The smallest binary encoding of at most 0xFFFF_FFFF bytes.
pub open spec fn binary_encoding(bytes: Seq<u8>) -> Seq<u8> {
    if bytes.len() <= 0xFF {
        seq![0xC4u8, bytes.len() as u8] + bytes
    } else if bytes.len() <= 0xFFFF {
        seq![0xC5u8] + be_bytes_16(bytes.len() as int) + bytes
    } else {
        seq![0xC6u8] + be_bytes_32(bytes.len() as int) + bytes
    }
}

pub fn write_null(buffer: &mut Vec<u8>)
    ensures
        final(buffer)@ == old(buffer)@ + seq![0xC0u8],
{
    buffer.push(0xC0);
    assert(buffer@ =~= old(buffer)@ + seq![0xC0u8]);
}

pub fn write_int_8(buffer: &mut Vec<u8>, value: u8)
    ensures
        final(buffer)@ == old(buffer)@ + seq![0xCCu8, value],
{
    buffer.push(0xCC);
    buffer.push(value);
    assert(buffer@ =~= old(buffer)@ + seq![0xCCu8, value]);
}

pub fn write_int_16(buffer: &mut Vec<u8>, value: u16)
    ensures
        final(buffer)@ == old(buffer)@ + (seq![0xCDu8] + be_bytes_16(value as int)),
{
    buffer.push(0xCD);
    push_be_16(buffer, value);
    assert(buffer@ =~= old(buffer)@ + (seq![0xCDu8] + be_bytes_16(value as int)));
}

pub fn write_int_32(buffer: &mut Vec<u8>, value: u32)
    ensures
        final(buffer)@ == old(buffer)@ + (seq![0xCEu8] + be_bytes_32(value as int)),
{
    buffer.push(0xCE);
    push_be_32(buffer, value);
    assert(buffer@ =~= old(buffer)@ + (seq![0xCEu8] + be_bytes_32(value as int)));
}

pub fn write_int_64(buffer: &mut Vec<u8>, value: u64)
    ensures
        final(buffer)@ == old(buffer)@ + (seq![0xCFu8] + be_bytes_64(value as int)),
{
    buffer.push(0xCF);
    push_be_64(buffer, value);
    assert(buffer@ =~= old(buffer)@ + (seq![0xCFu8] + be_bytes_64(value as int)));
}

pub fn write_int_auto(buffer: &mut Vec<u8>, value: u32)
    ensures
        final(buffer)@ == old(buffer)@ + int_encoding(value as int),
{
    if value <= 0x7F {
        buffer.push(value as u8);
        assert(buffer@ =~= old(buffer)@ + int_encoding(value as int));
    } else if value <= 0xFF {
        write_int_8(buffer, value as u8);
    } else if value <= 0xFFFF {
        write_int_16(buffer, value as u16);
    } else {
        write_int_32(buffer, value);
    }
}

/// Writes an unsigned integer of up to 64 bits in its smallest encoding.
pub fn write_u64_auto(buffer: &mut Vec<u8>, value: u64)
    ensures
        final(buffer)@ == old(buffer)@ + int_encoding(value as int),
{
    if value <= 0xFFFF_FFFF {
        write_int_auto(buffer, value as u32);
    } else {
        write_int_64(buffer, value);
    }
}

pub fn write_i32(buffer: &mut Vec<u8>, value: i32)
    ensures
        final(buffer)@ == old(buffer)@ + int_encoding(value as int),
{
    if value > 0 {
        write_int_auto(buffer, value as u32);
    } else if value >= -32 {
        buffer.push(pattern_8(value as i8));
        assert(buffer@ =~= old(buffer)@ + int_encoding(value as int));
    } else if value >= -0x80 {
        buffer.push(0xD0);
        buffer.push(pattern_8(value as i8));
        assert(buffer@ =~= old(buffer)@ + int_encoding(value as int));
    } else if value >= -0x8000 {
        buffer.push(0xD1);
        push_be_16(buffer, pattern_16(value as i16));
        assert(buffer@ =~= old(buffer)@ + int_encoding(value as int));
    } else {
        buffer.push(0xD2);
        push_be_32(buffer, pattern_32(value));
        assert(buffer@ =~= old(buffer)@ + int_encoding(value as int));
    }
}

/// Writes a signed integer of up to 64 bits in its smallest encoding.
pub fn write_i64(buffer: &mut Vec<u8>, value: i64)
    ensures
        final(buffer)@ == old(buffer)@ + int_encoding(value as int),
{
    if value >= 0 {
        write_u64_auto(buffer, value as u64);
    } else if value >= -0x8000_0000 {
        write_i32(buffer, value as i32);
    } else {
        buffer.push(0xD3);
        push_be_64(buffer, pattern_64(value));
        assert(buffer@ =~= old(buffer)@ + int_encoding(value as int));
    }
}

/// Writes a 32-bit float, given by its bit pattern.
pub fn write_float_auto(buffer: &mut Vec<u8>, bits: u32)
    ensures
        final(buffer)@ == old(buffer)@ + float_32_encoding(bits),
{
    buffer.push(0xCA);
    push_be_32(buffer, bits);
    assert(buffer@ =~= old(buffer)@ + float_32_encoding(bits));
}

/// Writes a 64-bit float, given by its bit pattern.
pub fn write_float_64(buffer: &mut Vec<u8>, bits: u64)
    ensures
        final(buffer)@ == old(buffer)@ + float_64_encoding(bits),
{
    buffer.push(0xCB);
    push_be_64(buffer, bits);
    assert(buffer@ =~= old(buffer)@ + float_64_encoding(bits));
}

pub fn write_string_flex(buffer: &mut Vec<u8>, value: &str)
    requires
        encode_utf8(value@).len() <= 31,
    ensures
        final(buffer)@ == old(buffer)@ + string_bytes_encoding(encode_utf8(value@)),
{
    let bytes = value.as_bytes();
    buffer.push(0xA0 + bytes.len() as u8);
    push_all(buffer, bytes);
    assert(buffer@ =~= old(buffer)@ + string_bytes_encoding(encode_utf8(value@)));
}

pub fn write_string_8(buffer: &mut Vec<u8>, value: &str)
    requires
        encode_utf8(value@).len() <= 0xFF,
    ensures
        final(buffer)@ == old(buffer)@ + (seq![0xD9u8, encode_utf8(value@).len() as u8]
            + encode_utf8(value@)),
{
    let bytes = value.as_bytes();
    buffer.push(0xD9);
    buffer.push(bytes.len() as u8);
    push_all(buffer, bytes);
    assert(buffer@ =~= old(buffer)@ + (seq![0xD9u8, encode_utf8(value@).len() as u8]
        + encode_utf8(value@)));
}

pub fn write_string_16(buffer: &mut Vec<u8>, value: &str)
    requires
        encode_utf8(value@).len() <= 0xFFFF,
    ensures
        final(buffer)@ == old(buffer)@ + (seq![0xDAu8] + be_bytes_16(
            encode_utf8(value@).len() as int,
        ) + encode_utf8(value@)),
{
    let bytes = value.as_bytes();
    buffer.push(0xDA);
    push_be_16(buffer, bytes.len() as u16);
    push_all(buffer, bytes);
    assert(buffer@ =~= old(buffer)@ + (seq![0xDAu8] + be_bytes_16(
        encode_utf8(value@).len() as int,
    ) + encode_utf8(value@)));
}

pub fn write_string_32(buffer: &mut Vec<u8>, value: &str)
    requires
        encode_utf8(value@).len() <= 0xFFFF_FFFF,
    ensures
        final(buffer)@ == old(buffer)@ + (seq![0xDBu8] + be_bytes_32(
            encode_utf8(value@).len() as int,
        ) + encode_utf8(value@)),
{
    let bytes = value.as_bytes();
    buffer.push(0xDB);
    push_be_32(buffer, bytes.len() as u32);
    push_all(buffer, bytes);
    assert(buffer@ =~= old(buffer)@ + (seq![0xDBu8] + be_bytes_32(
        encode_utf8(value@).len() as int,
    ) + encode_utf8(value@)));
}

pub fn write_string_auto(buffer: &mut Vec<u8>, value: Option<&str>)
    requires
        value matches Some(text) ==> encode_utf8(text@).len() <= 0xFFFF_FFFF,
    ensures
        final(buffer)@ == old(buffer)@ + string_encoding(
            match value {
                Some(text) => Some(text@),
                None => None,
            },
        ),
{
    match value {
        None => write_null(buffer),
        Some(text) => {
            let length = text.as_bytes().len();
            if length <= 31 {
                write_string_flex(buffer, text);
            } else if length <= 0xFF {
                write_string_8(buffer, text);
            } else if length <= 0xFFFF {
                write_string_16(buffer, text);
            } else {
                write_string_32(buffer, text);
            }
        },
    }
}

pub fn write_bool(buffer: &mut Vec<u8>, value: bool)
    ensures
        final(buffer)@ == old(buffer)@ + bool_encoding(value),
{
    if value {
        buffer.push(0xC3);
    } else {
        buffer.push(0xC2);
    }
    assert(buffer@ =~= old(buffer)@ + bool_encoding(value));
}

pub fn write_bool_auto(buffer: &mut Vec<u8>, value: bool)
    ensures
        final(buffer)@ == old(buffer)@ + bool_encoding(value),
{
    write_bool(buffer, value);
}

pub fn write_map_flex(buffer: &mut Vec<u8>, value: u32)
    requires
        value <= 15,
    ensures
        final(buffer)@ == old(buffer)@ + map_header(value),
{
    buffer.push(0x80 + value as u8);
    assert(buffer@ =~= old(buffer)@ + map_header(value));
}

pub fn write_map_auto(buffer: &mut Vec<u8>, value: u32)
    ensures
        final(buffer)@ == old(buffer)@ + map_header(value),
{
    if value <= 0xF {
        write_map_flex(buffer, value);
    } else if value <= 0xFFFF {
        buffer.push(0xDE);
        push_be_16(buffer, value as u16);
        assert(buffer@ =~= old(buffer)@ + map_header(value));
    } else {
        buffer.push(0xDF);
        push_be_32(buffer, value);
        assert(buffer@ =~= old(buffer)@ + map_header(value));
    }
}

pub fn write_array_flex(buffer: &mut Vec<u8>, value: u32)
    requires
        value <= 15,
    ensures
        final(buffer)@ == old(buffer)@ + array_header(value),
{
    buffer.push(0x90 + value as u8);
    assert(buffer@ =~= old(buffer)@ + array_header(value));
}

pub fn write_array_auto(buffer: &mut Vec<u8>, value: u32)
    ensures
        final(buffer)@ == old(buffer)@ + array_header(value),
{
    if value <= 0xF {
        write_array_flex(buffer, value);
    } else if value <= 0xFFFF {
        buffer.push(0xDC);
        push_be_16(buffer, value as u16);
        assert(buffer@ =~= old(buffer)@ + array_header(value));
    } else {
        buffer.push(0xDD);
        push_be_32(buffer, value);
        assert(buffer@ =~= old(buffer)@ + array_header(value));
    }
}

pub fn write_binary(buffer: &mut Vec<u8>, value: &[u8])
    requires
        value@.len() <= 0xFFFF_FFFF,
    ensures
        final(buffer)@ == old(buffer)@ + binary_encoding(value@),
{
    let length = value.len();
    if length <= 0xFF {
        buffer.push(0xC4);
        buffer.push(length as u8);
        push_all(buffer, value);
    } else if length <= 0xFFFF {
        buffer.push(0xC5);
        push_be_16(buffer, length as u16);
        push_all(buffer, value);
    } else {
        buffer.push(0xC6);
        push_be_32(buffer, length as u32);
        push_all(buffer, value);
    }
    assert(buffer@ =~= old(buffer)@ + binary_encoding(value@));
}

} // verus!
