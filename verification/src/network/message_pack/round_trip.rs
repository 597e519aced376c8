//! What the writer writes, the widening readers read back.

use crate::network::message_pack::reader::{
    spec_read_i16, spec_read_i32, spec_read_i64, spec_read_i8, spec_read_signed,
    spec_read_string, spec_read_string_len, spec_read_u16, spec_read_u32, spec_read_u64,
    spec_read_u8, spec_read_unsigned, unsigned_limit,
};
use crate::network::message_pack::writer::{int_encoding, string_bytes_encoding, string_encoding};
use crate::util::byte_order::{
    be_bytes_16, be_bytes_32, be_bytes_64, lemma_round_trip_16, lemma_round_trip_32,
    lemma_round_trip_64,
};
use crate::util::custom_iterator::Cursor;
use crate::util::error_handling::ReadError;
use vstd::prelude::*;
use vstd::utf8::{
    decode_utf8_encode_utf8, encode_utf8, encode_utf8_decode_utf8, encode_utf8_valid_utf8,
    valid_utf8,
};

verus! {

/// Whether the bytes at the cursor begin with `encoding`.
pub open spec fn begins_with(c: Cursor, encoding: Seq<u8>) -> bool {
    &&& 0 <= c.position
    &&& c.position + encoding.len() <= c.bytes.len()
    &&& c.window(encoding.len() as int) == encoding
}

/// A cursor that begins with some bytes holds each of them at its place.
pub proof fn lemma_begins_with(c: Cursor, encoding: Seq<u8>)
    requires
        begins_with(c, encoding),
    ensures
        forall|i: int| 0 <= i < encoding.len() ==> c.bytes[c.position + i] == #[trigger] encoding[i],
{
    assert forall|i: int| 0 <= i < encoding.len() implies c.bytes[c.position + i]
        == #[trigger] encoding[i] by {
        assert(c.window(encoding.len() as int)[i] == c.bytes[c.position + i]);
    }
}

/// A cursor that begins with `first + second` begins with `first`, and behind
/// it with `second`.
pub proof fn lemma_begins_with_split(c: Cursor, first: Seq<u8>, second: Seq<u8>)
    requires
        begins_with(c, first + second),
    ensures
        begins_with(c, first),
        begins_with(c.skipped(first.len() as int), second),
{
    lemma_begins_with(c, first + second);
    assert forall|i: int| 0 <= i < first.len() implies c.bytes[c.position + i] == first[i] by {
        assert((first + second)[i] == first[i]);
    }
    assert forall|i: int| 0 <= i < second.len() implies c.bytes[c.position + first.len() + i]
        == second[i] by {
        assert((first + second)[first.len() + i] == second[i]);
    }
    assert(c.window(first.len() as int) =~= first);
    assert(c.skipped(first.len() as int).window(second.len() as int) =~= second);
}

/// Taking as many bytes as the cursor begins with gives these bytes.
pub proof fn lemma_take_prefix(c: Cursor, encoding: Seq<u8>)
    requires
        begins_with(c, encoding),
    ensures
        c.take(encoding.len() as int) == (
            Ok::<Seq<u8>, ReadError>(encoding),
            c.skipped(encoding.len() as int),
        ),
{
}

/// An unsigned integer written in its smallest encoding is read back by every
/// unsigned widening reader whose type holds it, and the cursor then stands
/// behind the encoding.
pub proof fn lemma_unsigned_round_trip(c: Cursor, n: int, width: int)
    requires
        width == 1 || width == 2 || width == 4 || width == 8,
        0 <= n < unsigned_limit(width),
        begins_with(c, int_encoding(n)),
    ensures
        spec_read_unsigned(c, width) == (
            Ok::<int, ReadError>(n),
            c.skipped(int_encoding(n).len() as int),
        ),
        width == 1 ==> spec_read_u8(c) == (
            Ok::<u8, ReadError>(n as u8),
            c.skipped(int_encoding(n).len() as int),
        ),
        width == 2 ==> spec_read_u16(c) == (
            Ok::<u16, ReadError>(n as u16),
            c.skipped(int_encoding(n).len() as int),
        ),
        width == 4 ==> spec_read_u32(c) == (
            Ok::<u32, ReadError>(n as u32),
            c.skipped(int_encoding(n).len() as int),
        ),
        width == 8 ==> spec_read_u64(c) == (
            Ok::<u64, ReadError>(n as u64),
            c.skipped(int_encoding(n).len() as int),
        ),
{
    lemma_int_payload(c, n);
}

/// An integer written in its smallest encoding is read back by every signed
/// widening reader whose type holds it, and the cursor then stands behind the
/// encoding.
pub proof fn lemma_signed_round_trip(c: Cursor, n: int, width: int)
    requires
        width == 1 || width == 2 || width == 4 || width == 8,
        -unsigned_limit(width) <= 2 * n < unsigned_limit(width),
        begins_with(c, int_encoding(n)),
    ensures
        spec_read_signed(c, width) == (
            Ok::<int, ReadError>(n),
            c.skipped(int_encoding(n).len() as int),
        ),
        width == 1 ==> spec_read_i8(c) == (
            Ok::<i8, ReadError>(n as i8),
            c.skipped(int_encoding(n).len() as int),
        ),
        width == 2 ==> spec_read_i16(c) == (
            Ok::<i16, ReadError>(n as i16),
            c.skipped(int_encoding(n).len() as int),
        ),
        width == 4 ==> spec_read_i32(c) == (
            Ok::<i32, ReadError>(n as i32),
            c.skipped(int_encoding(n).len() as int),
        ),
        width == 8 ==> spec_read_i64(c) == (
            Ok::<i64, ReadError>(n as i64),
            c.skipped(int_encoding(n).len() as int),
        ),
{
    lemma_int_payload(c, n);
}

/// The type byte of the smallest encoding, and the payload read behind it.
proof fn lemma_int_payload(c: Cursor, n: int)
    requires
        -0x8000_0000_0000_0000 <= n < 0x1_0000_0000_0000_0000,
        begins_with(c, int_encoding(n)),
    ensures
        c.next().0 == Ok::<u8, ReadError>(int_encoding(n)[0]),
        c.next().1 == c.skipped(1),
        crate::network::message_pack::reader::spec_int_payload(c.skipped(1), int_encoding(n)[0])
            == (Ok::<int, ReadError>(n), c.skipped(int_encoding(n).len() as int)),
        0 <= n <= 0x7F ==> int_encoding(n)[0] <= 0x7F,
        0x80 <= n <= 0xFF ==> int_encoding(n)[0] == 0xCC,
        0x100 <= n <= 0xFFFF ==> int_encoding(n)[0] == 0xCD,
        0x1_0000 <= n <= 0xFFFF_FFFF ==> int_encoding(n)[0] == 0xCE,
        0x1_0000_0000 <= n ==> int_encoding(n)[0] == 0xCF,
        -32 <= n < 0 ==> int_encoding(n)[0] >= 0xE0,
        -0x80 <= n < -32 ==> int_encoding(n)[0] == 0xD0,
        -0x8000 <= n < -0x80 ==> int_encoding(n)[0] == 0xD1,
        -0x8000_0000 <= n < -0x8000 ==> int_encoding(n)[0] == 0xD2,
        n < -0x8000_0000 ==> int_encoding(n)[0] == 0xD3,
{
    let encoding = int_encoding(n);
    lemma_begins_with(c, encoding);
    assert(c.bytes[c.position + 0] == encoding[0]);
    let c1 = c.skipped(1);
    if 0 <= n <= 0x7F || -32 <= n < 0 {
    } else if 0x80 <= n <= 0xFF || -0x80 <= n < -32 {
        assert(c.bytes[c.position + 1] == encoding[1]);
    } else if 0x100 <= n <= 0xFFFF || -0x8000 <= n < -0x80 {
        let unsigned = if n < 0 {
            n + 0x1_0000
        } else {
            n
        };
        let tail = be_bytes_16(unsigned);
        lemma_begins_with_split(c, seq![encoding[0]], tail);
        lemma_take_prefix(c1, tail);
        lemma_round_trip_16(unsigned);
    } else if 0x1_0000 <= n <= 0xFFFF_FFFF || -0x8000_0000 <= n < -0x8000 {
        let unsigned = if n < 0 {
            n + 0x1_0000_0000
        } else {
            n
        };
        let tail = be_bytes_32(unsigned);
        lemma_begins_with_split(c, seq![encoding[0]], tail);
        lemma_take_prefix(c1, tail);
        lemma_round_trip_32(unsigned);
    } else {
        let unsigned = if n < 0 {
            n + 0x1_0000_0000_0000_0000
        } else {
            n
        };
        let tail = be_bytes_64(unsigned);
        lemma_begins_with_split(c, seq![encoding[0]], tail);
        lemma_take_prefix(c1, tail);
        lemma_round_trip_64(unsigned);
    }
}

/// A string written in its smallest encoding is read back char for char,
/// and so byte for byte, and the cursor then stands behind the encoding.
/// The length of a string has 32 bits on the wire.
pub proof fn lemma_string_round_trip(c: Cursor, text: Seq<char>)
    requires
        encode_utf8(text).len() <= 0xFFFF_FFFF,
        begins_with(c, string_encoding(Some(text))),
    ensures
        spec_read_string(c) == (
            Ok::<Seq<char>, ReadError>(text),
            c.skipped(string_encoding(Some(text)).len() as int),
        ),
{
    let bytes = encode_utf8(text);
    let encoding = string_bytes_encoding(bytes);
    lemma_begins_with(c, encoding);
    assert(c.bytes[c.position + 0] == encoding[0]);
    encode_utf8_valid_utf8(text);
    encode_utf8_decode_utf8(text);
    if bytes.len() <= 31 {
        let head = seq![(0xA0 + bytes.len()) as u8];
        lemma_begins_with_split(c, head, bytes);
        lemma_take_prefix(c.skipped(1), bytes);
    } else if bytes.len() <= 0xFF {
        let head = seq![0xD9u8, bytes.len() as u8];
        assert(c.bytes[c.position + 1] == encoding[1]);
        lemma_begins_with_split(c, head, bytes);
        lemma_take_prefix(c.skipped(2), bytes);
        assert(c.skipped(1).skipped(1) == c.skipped(2));
    } else if bytes.len() <= 0xFFFF {
        let head = seq![0xDAu8] + be_bytes_16(bytes.len() as int);
        lemma_begins_with_split(c, head, bytes);
        lemma_begins_with_split(c, seq![0xDAu8], be_bytes_16(bytes.len() as int));
        lemma_take_prefix(c.skipped(1), be_bytes_16(bytes.len() as int));
        lemma_round_trip_16(bytes.len() as int);
        lemma_take_prefix(c.skipped(3), bytes);
        assert(c.skipped(1).skipped(2) == c.skipped(3));
    } else {
        let head = seq![0xDBu8] + be_bytes_32(bytes.len() as int);
        lemma_begins_with_split(c, head, bytes);
        lemma_begins_with_split(c, seq![0xDBu8], be_bytes_32(bytes.len() as int));
        lemma_take_prefix(c.skipped(1), be_bytes_32(bytes.len() as int));
        lemma_round_trip_32(bytes.len() as int);
        lemma_take_prefix(c.skipped(5), bytes);
        assert(c.skipped(1).skipped(4) == c.skipped(5));
    }
}

/// A string that was read has at most 0xFFFF_FFFF bytes, for its length
/// had 32 bits on the wire: it can be written again.
pub proof fn lemma_read_string_length(c: Cursor)
    ensures
        spec_read_string(c).0 matches Ok(text) ==> encode_utf8(text).len() <= 0xFFFF_FFFF,
{
    if let (Ok(t), c1) = c.next() {
        let length: int = if 0xA0 <= t <= 0xBF {
            t - 0xA0
        } else if t == 0xD9 {
            match c1.next() {
                (Ok(length), _) => length as int,
                _ => 0,
            }
        } else if t == 0xDA {
            match c1.be_u16() {
                (Ok(length), _) => length as int,
                _ => 0,
            }
        } else {
            match c1.be_u32() {
                (Ok(length), _) => length as int,
                _ => 0,
            }
        };
        let c2 = if 0xA0 <= t <= 0xBF {
            c1
        } else if t == 0xD9 {
            c1.next().1
        } else if t == 0xDA {
            c1.be_u16().1
        } else {
            c1.be_u32().1
        };
        if let (Ok(bytes), _) = c2.take(length) {
            if valid_utf8(bytes) {
                decode_utf8_encode_utf8(bytes);
            }
        }
    }
}

} // verus!
