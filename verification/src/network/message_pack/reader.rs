//! Reads MessagePack values from a cursor.
//!
//! The strict readers ask for one type byte. The widening readers take any
//! narrower form of the value and promote it. Every reader is described by a
//! function from the cursor before the call to the result and the cursor after
//! it, so that what was consumed is known on failure too.

use crate::util::custom_iterator::{as_signed, bytes_read_as, Cursor, CustomIterator};
use crate::util::error_handling::ReadError;
use crate::util::text::string_from_utf8;
use vstd::prelude::*;
use vstd::utf8::{decode_utf8, encode_utf8, encode_utf8_decode_utf8, valid_utf8};

verus! {

/// Whether an executable read of a string came out as the model says.
pub open spec fn string_read_as(
    got: Result<String, ReadError>,
    model: Result<Seq<char>, ReadError>,
) -> bool {
    match model {
        Ok(s) => got is Ok && got->Ok_0@ == s,
        Err(e) => got is Err && got->Err_0 == e,
    }
}

/// Whether an executable read of an ext value came out as the model says.
pub open spec fn ext_read_as(
    got: Result<(u8, Vec<u8>), ReadError>,
    model: Result<(u8, Seq<u8>), ReadError>,
) -> bool {
    match model {
        Ok(x) => got is Ok && got->Ok_0.0 == x.0 && got->Ok_0.1@ == x.1,
        Err(e) => got is Err && got->Err_0 == e,
    }
}

/// Whether an executable probe for an ext value came out as the model says.
pub open spec fn optional_ext_read_as(
    got: Result<Option<(u8, Vec<u8>)>, ReadError>,
    model: Result<Option<(u8, Seq<u8>)>, ReadError>,
) -> bool {
    match model {
        Ok(Some(x)) => got is Ok && got->Ok_0 is Some && got->Ok_0->Some_0.0 == x.0
            && got->Ok_0->Some_0.1@ == x.1,
        Ok(None) => got is Ok && got->Ok_0 is None,
        Err(e) => got is Err && got->Err_0 == e,
    }
}

/// Reads one byte and asks that it be `type_byte`.
pub open spec fn spec_expect_type(c: Cursor, type_byte: u8) -> (Result<(), ReadError>, Cursor) {
    match c.next() {
        (Ok(t), c1) => if t == type_byte {
            (Ok(()), c1)
        } else {
            (Err(ReadError::UnexpectedType(t)), c1)
        },
        (Err(e), c1) => (Err(e), c1),
    }
}

/// Consumes a nil byte if one is next.
pub open spec fn spec_check_null(c: Cursor) -> (Result<bool, ReadError>, Cursor) {
    match c.peek() {
        Ok(t) => if t == 0xC0 {
            (Ok(true), c.skipped(1))
        } else {
            (Ok(false), c)
        },
        Err(e) => (Err(e), c),
    }
}

pub open spec fn spec_read_pos_int_fix(c: Cursor) -> (Result<u8, ReadError>, Cursor) {
    match c.next() {
        (Ok(t), c1) => if t < 0x80 {
            (Ok(t), c1)
        } else {
            (Err(ReadError::UnexpectedType(t)), c1)
        },
        (Err(e), c1) => (Err(e), c1),
    }
}

pub open spec fn spec_read_neg_int_fix(c: Cursor) -> (Result<i8, ReadError>, Cursor) {
    match c.next() {
        (Ok(t), c1) => if t >= 0xE0 {
            (Ok((t - 0x100) as i8), c1)
        } else {
            (Err(ReadError::UnexpectedType(t)), c1)
        },
        (Err(e), c1) => (Err(e), c1),
    }
}

pub open spec fn spec_read_int_8(c: Cursor) -> (Result<u8, ReadError>, Cursor) {
    match spec_expect_type(c, 0xCC) {
        (Ok(_), c1) => c1.next(),
        (Err(e), c1) => (Err(e), c1),
    }
}

pub open spec fn spec_read_int_16(c: Cursor) -> (Result<u16, ReadError>, Cursor) {
    match spec_expect_type(c, 0xCD) {
        (Ok(_), c1) => c1.be_u16(),
        (Err(e), c1) => (Err(e), c1),
    }
}

pub open spec fn spec_read_int_32(c: Cursor) -> (Result<u32, ReadError>, Cursor) {
    match spec_expect_type(c, 0xCE) {
        (Ok(_), c1) => c1.be_u32(),
        (Err(e), c1) => (Err(e), c1),
    }
}

pub open spec fn spec_read_int_64(c: Cursor) -> (Result<u64, ReadError>, Cursor) {
    match spec_expect_type(c, 0xCF) {
        (Ok(_), c1) => c1.be_u64(),
        (Err(e), c1) => (Err(e), c1),
    }
}

pub open spec fn spec_read_s_int_8(c: Cursor) -> (Result<i8, ReadError>, Cursor) {
    match spec_expect_type(c, 0xD0) {
        (Ok(_), c1) => match c1.next() {
            (Ok(v), c2) => (Ok(as_signed(v as int, 0x80) as i8), c2),
            (Err(e), c2) => (Err(e), c2),
        },
        (Err(e), c1) => (Err(e), c1),
    }
}

pub open spec fn spec_read_s_int_16(c: Cursor) -> (Result<i16, ReadError>, Cursor) {
    match spec_expect_type(c, 0xD1) {
        (Ok(_), c1) => c1.be_i16(),
        (Err(e), c1) => (Err(e), c1),
    }
}

pub open spec fn spec_read_s_int_32(c: Cursor) -> (Result<i32, ReadError>, Cursor) {
    match spec_expect_type(c, 0xD2) {
        (Ok(_), c1) => c1.be_i32(),
        (Err(e), c1) => (Err(e), c1),
    }
}

pub open spec fn spec_read_s_int_64(c: Cursor) -> (Result<i64, ReadError>, Cursor) {
    match spec_expect_type(c, 0xD3) {
        (Ok(_), c1) => c1.be_i64(),
        (Err(e), c1) => (Err(e), c1),
    }
}

/// Reads a one-byte header whose low bits count, `base` being its first value
/// and `span` the number of its values.
pub open spec fn spec_read_fix_count(c: Cursor, base: u8, span: u8) -> (
    Result<u8, ReadError>,
    Cursor,
) {
    match c.next() {
        (Ok(t), c1) => if base <= t < base + span {
            (Ok((t - base) as u8), c1)
        } else {
            (Err(ReadError::UnexpectedType(t)), c1)
        },
        (Err(e), c1) => (Err(e), c1),
    }
}

pub open spec fn spec_read_map_fix(c: Cursor) -> (Result<u8, ReadError>, Cursor) {
    spec_read_fix_count(c, 0x80, 0x10)
}

pub open spec fn spec_read_map_16(c: Cursor) -> (Result<u16, ReadError>, Cursor) {
    match spec_expect_type(c, 0xDE) {
        (Ok(_), c1) => c1.be_u16(),
        (Err(e), c1) => (Err(e), c1),
    }
}

pub open spec fn spec_read_map_32(c: Cursor) -> (Result<u32, ReadError>, Cursor) {
    match spec_expect_type(c, 0xDF) {
        (Ok(_), c1) => c1.be_u32(),
        (Err(e), c1) => (Err(e), c1),
    }
}

pub open spec fn spec_read_array_fix(c: Cursor) -> (Result<u8, ReadError>, Cursor) {
    spec_read_fix_count(c, 0x90, 0x10)
}

pub open spec fn spec_read_array_16(c: Cursor) -> (Result<u16, ReadError>, Cursor) {
    match spec_expect_type(c, 0xDC) {
        (Ok(_), c1) => c1.be_u16(),
        (Err(e), c1) => (Err(e), c1),
    }
}

pub open spec fn spec_read_array_32(c: Cursor) -> (Result<u32, ReadError>, Cursor) {
    match spec_expect_type(c, 0xDD) {
        (Ok(_), c1) => c1.be_u32(),
        (Err(e), c1) => (Err(e), c1),
    }
}

/// Reads `length` bytes and decodes them as UTF-8.
pub open spec fn spec_read_string_len(c: Cursor, length: int) -> (
    Result<Seq<char>, ReadError>,
    Cursor,
) {
    match c.take(length) {
        (Ok(bytes), c1) => if valid_utf8(bytes) {
            (Ok(decode_utf8(bytes)), c1)
        } else {
            (Err(ReadError::InvalidUtf8), c1)
        },
        (Err(e), c1) => (Err(e), c1),
    }
}

pub open spec fn spec_read_string_fix(c: Cursor) -> (Result<Seq<char>, ReadError>, Cursor) {
    match spec_read_fix_count(c, 0xA0, 0x20) {
        (Ok(length), c1) => spec_read_string_len(c1, length as int),
        (Err(e), c1) => (Err(e), c1),
    }
}

pub open spec fn spec_read_string_8(c: Cursor) -> (Result<Seq<char>, ReadError>, Cursor) {
    match spec_expect_type(c, 0xD9) {
        (Ok(_), c1) => match c1.next() {
            (Ok(length), c2) => spec_read_string_len(c2, length as int),
            (Err(e), c2) => (Err(e), c2),
        },
        (Err(e), c1) => (Err(e), c1),
    }
}

pub open spec fn spec_read_string_16(c: Cursor) -> (Result<Seq<char>, ReadError>, Cursor) {
    match spec_expect_type(c, 0xDA) {
        (Ok(_), c1) => match c1.be_u16() {
            (Ok(length), c2) => spec_read_string_len(c2, length as int),
            (Err(e), c2) => (Err(e), c2),
        },
        (Err(e), c1) => (Err(e), c1),
    }
}

pub open spec fn spec_read_string_32(c: Cursor) -> (Result<Seq<char>, ReadError>, Cursor) {
    match spec_expect_type(c, 0xDB) {
        (Ok(_), c1) => match c1.be_u32() {
            (Ok(length), c2) => spec_read_string_len(c2, length as int),
            (Err(e), c2) => (Err(e), c2),
        },
        (Err(e), c1) => (Err(e), c1),
    }
}

pub open spec fn spec_read_binary_8(c: Cursor) -> (Result<Seq<u8>, ReadError>, Cursor) {
    match spec_expect_type(c, 0xC4) {
        (Ok(_), c1) => match c1.next() {
            (Ok(length), c2) => c2.take(length as int),
            (Err(e), c2) => (Err(e), c2),
        },
        (Err(e), c1) => (Err(e), c1),
    }
}

pub open spec fn spec_read_binary_16(c: Cursor) -> (Result<Seq<u8>, ReadError>, Cursor) {
    match spec_expect_type(c, 0xC5) {
        (Ok(_), c1) => match c1.be_u16() {
            (Ok(length), c2) => c2.take(length as int),
            (Err(e), c2) => (Err(e), c2),
        },
        (Err(e), c1) => (Err(e), c1),
    }
}

pub open spec fn spec_read_binary_32(c: Cursor) -> (Result<Seq<u8>, ReadError>, Cursor) {
    match spec_expect_type(c, 0xC6) {
        (Ok(_), c1) => match c1.be_u32() {
            (Ok(length), c2) => c2.take(length as int),
            (Err(e), c2) => (Err(e), c2),
        },
        (Err(e), c1) => (Err(e), c1),
    }
}

/// Reads a 32-bit float as its bit pattern.
pub open spec fn spec_read_float_32(c: Cursor) -> (Result<u32, ReadError>, Cursor) {
    match spec_expect_type(c, 0xCA) {
        (Ok(_), c1) => c1.be_u32(),
        (Err(e), c1) => (Err(e), c1),
    }
}

/// Reads a 64-bit float as its bit pattern.
pub open spec fn spec_read_float_64(c: Cursor) -> (Result<u64, ReadError>, Cursor) {
    match spec_expect_type(c, 0xCB) {
        (Ok(_), c1) => c1.be_u64(),
        (Err(e), c1) => (Err(e), c1),
    }
}

/// The number of payload bytes of an unsigned integer form, -1 for any other type byte.
pub open spec fn unsigned_form_width(t: u8) -> int {
    if t <= 0x7F {
        0
    } else if t == 0xCC {
        1
    } else if t == 0xCD {
        2
    } else if t == 0xCE {
        4
    } else if t == 0xCF {
        8
    } else {
        -1
    }
}

/// The number of payload bytes of a signed integer form, -1 for any other type byte.
pub open spec fn signed_form_width(t: u8) -> int {
    if t >= 0xE0 {
        0
    } else if t == 0xD0 {
        1
    } else if t == 0xD1 {
        2
    } else if t == 0xD2 {
        4
    } else if t == 0xD3 {
        8
    } else {
        -1
    }
}

/// The first value that `width` bytes cannot hold unsigned.
pub open spec fn unsigned_limit(width: int) -> int {
    if width == 1 {
        0x100
    } else if width == 2 {
        0x1_0000
    } else if width == 4 {
        0x1_0000_0000
    } else {
        0x1_0000_0000_0000_0000
    }
}

/// The integer that follows the type byte `t`.
pub open spec fn spec_int_payload(c: Cursor, t: u8) -> (Result<int, ReadError>, Cursor) {
    if t <= 0x7F {
        (Ok(t as int), c)
    } else if t >= 0xE0 {
        (Ok(t - 0x100), c)
    } else if t == 0xCC {
        match c.next() {
            (Ok(v), c1) => (Ok(v as int), c1),
            (Err(e), c1) => (Err(e), c1),
        }
    } else if t == 0xCD {
        match c.be_u16() {
            (Ok(v), c1) => (Ok(v as int), c1),
            (Err(e), c1) => (Err(e), c1),
        }
    } else if t == 0xCE {
        match c.be_u32() {
            (Ok(v), c1) => (Ok(v as int), c1),
            (Err(e), c1) => (Err(e), c1),
        }
    } else if t == 0xCF {
        match c.be_u64() {
            (Ok(v), c1) => (Ok(v as int), c1),
            (Err(e), c1) => (Err(e), c1),
        }
    } else if t == 0xD0 {
        match c.next() {
            (Ok(v), c1) => (Ok(as_signed(v as int, 0x80)), c1),
            (Err(e), c1) => (Err(e), c1),
        }
    } else if t == 0xD1 {
        match c.be_i16() {
            (Ok(v), c1) => (Ok(v as int), c1),
            (Err(e), c1) => (Err(e), c1),
        }
    } else if t == 0xD2 {
        match c.be_i32() {
            (Ok(v), c1) => (Ok(v as int), c1),
            (Err(e), c1) => (Err(e), c1),
        }
    } else if t == 0xD3 {
        match c.be_i64() {
            (Ok(v), c1) => (Ok(v as int), c1),
            (Err(e), c1) => (Err(e), c1),
        }
    } else {
        (Err(ReadError::UnexpectedType(t)), c)
    }
}

/// Reads an unsigned integer of at most `width` bytes from any unsigned
/// form that is no wider.
pub open spec fn spec_read_unsigned(c: Cursor, width: int) -> (Result<int, ReadError>, Cursor) {
    match c.next() {
        (Ok(t), c1) => if 0 <= unsigned_form_width(t) <= width {
            spec_int_payload(c1, t)
        } else {
            (Err(ReadError::UnexpectedType(t)), c1)
        },
        (Err(e), c1) => (Err(e), c1),
    }
}

/// Reads a signed integer of at most `width` bytes from any form, signed or
/// unsigned, that is no wider. An unsigned value with the highest bit of
/// `width` bytes set does not fit.
pub open spec fn spec_read_signed(c: Cursor, width: int) -> (Result<int, ReadError>, Cursor) {
    match c.next() {
        (Ok(t), c1) => if 0 <= unsigned_form_width(t) <= width || 0 <= signed_form_width(t)
            <= width {
            match spec_int_payload(c1, t) {
                (Ok(v), c2) => if 2 * v < unsigned_limit(width) {
                    (Ok(v), c2)
                } else {
                    (Err(ReadError::OutOfRange), c2)
                },
                (Err(e), c2) => (Err(e), c2),
            }
        } else {
            (Err(ReadError::UnexpectedType(t)), c1)
        },
        (Err(e), c1) => (Err(e), c1),
    }
}

pub open spec fn spec_read_u8(c: Cursor) -> (Result<u8, ReadError>, Cursor) {
    match spec_read_unsigned(c, 1) {
        (Ok(v), c1) => (Ok(v as u8), c1),
        (Err(e), c1) => (Err(e), c1),
    }
}

pub open spec fn spec_read_u16(c: Cursor) -> (Result<u16, ReadError>, Cursor) {
    match spec_read_unsigned(c, 2) {
        (Ok(v), c1) => (Ok(v as u16), c1),
        (Err(e), c1) => (Err(e), c1),
    }
}

pub open spec fn spec_read_u32(c: Cursor) -> (Result<u32, ReadError>, Cursor) {
    match spec_read_unsigned(c, 4) {
        (Ok(v), c1) => (Ok(v as u32), c1),
        (Err(e), c1) => (Err(e), c1),
    }
}

pub open spec fn spec_read_u64(c: Cursor) -> (Result<u64, ReadError>, Cursor) {
    match spec_read_unsigned(c, 8) {
        (Ok(v), c1) => (Ok(v as u64), c1),
        (Err(e), c1) => (Err(e), c1),
    }
}

pub open spec fn spec_read_i8(c: Cursor) -> (Result<i8, ReadError>, Cursor) {
    match spec_read_signed(c, 1) {
        (Ok(v), c1) => (Ok(v as i8), c1),
        (Err(e), c1) => (Err(e), c1),
    }
}

pub open spec fn spec_read_i16(c: Cursor) -> (Result<i16, ReadError>, Cursor) {
    match spec_read_signed(c, 2) {
        (Ok(v), c1) => (Ok(v as i16), c1),
        (Err(e), c1) => (Err(e), c1),
    }
}

pub open spec fn spec_read_i32(c: Cursor) -> (Result<i32, ReadError>, Cursor) {
    match spec_read_signed(c, 4) {
        (Ok(v), c1) => (Ok(v as i32), c1),
        (Err(e), c1) => (Err(e), c1),
    }
}

pub open spec fn spec_read_i64(c: Cursor) -> (Result<i64, ReadError>, Cursor) {
    match spec_read_signed(c, 8) {
        (Ok(v), c1) => (Ok(v as i64), c1),
        (Err(e), c1) => (Err(e), c1),
    }
}

pub open spec fn spec_read_string(c: Cursor) -> (Result<Seq<char>, ReadError>, Cursor) {
    match c.next() {
        (Ok(t), c1) => if 0xA0 <= t <= 0xBF {
            spec_read_string_len(c1, t - 0xA0)
        } else if t == 0xD9 {
            match c1.next() {
                (Ok(length), c2) => spec_read_string_len(c2, length as int),
                (Err(e), c2) => (Err(e), c2),
            }
        } else if t == 0xDA {
            match c1.be_u16() {
                (Ok(length), c2) => spec_read_string_len(c2, length as int),
                (Err(e), c2) => (Err(e), c2),
            }
        } else if t == 0xDB {
            match c1.be_u32() {
                (Ok(length), c2) => spec_read_string_len(c2, length as int),
                (Err(e), c2) => (Err(e), c2),
            }
        } else {
            (Err(ReadError::UnexpectedType(t)), c1)
        },
        (Err(e), c1) => (Err(e), c1),
    }
}

pub open spec fn spec_read_bool(c: Cursor) -> (Result<bool, ReadError>, Cursor) {
    match c.next() {
        (Ok(t), c1) => if t == 0xC2 {
            (Ok(false), c1)
        } else if t == 0xC3 {
            (Ok(true), c1)
        } else {
            (Err(ReadError::UnexpectedType(t)), c1)
        },
        (Err(e), c1) => (Err(e), c1),
    }
}

/// Whether `t` introduces a collection whose fix form starts at `base` and
/// whose 16- and 32-bit forms have the type bytes `wide` and `wide + 1`.
pub open spec fn is_count_type(t: u8, base: u8, wide: u8) -> bool {
    base <= t < base + 0x10 || t == wide || t == wide + 1
}

/// The element count that follows the type byte `t` of a collection.
pub open spec fn spec_count_payload(c: Cursor, t: u8, base: u8, wide: u8) -> (
    Result<u32, ReadError>,
    Cursor,
) {
    if base <= t < base + 0x10 {
        (Ok((t - base) as u32), c)
    } else if t == wide {
        match c.be_u16() {
            (Ok(v), c1) => (Ok(v as u32), c1),
            (Err(e), c1) => (Err(e), c1),
        }
    } else if t == wide + 1 {
        c.be_u32()
    } else {
        (Err(ReadError::UnexpectedType(t)), c)
    }
}

pub open spec fn spec_read_count(c: Cursor, base: u8, wide: u8) -> (
    Result<u32, ReadError>,
    Cursor,
) {
    match c.next() {
        (Ok(t), c1) => spec_count_payload(c1, t, base, wide),
        (Err(e), c1) => (Err(e), c1),
    }
}

pub open spec fn spec_read_array(c: Cursor) -> (Result<u32, ReadError>, Cursor) {
    spec_read_count(c, 0x90, 0xDC)
}

pub open spec fn spec_read_map(c: Cursor) -> (Result<u32, ReadError>, Cursor) {
    spec_read_count(c, 0x80, 0xDE)
}

/// Reads an array header if one is next; otherwise the cursor stays.
pub open spec fn spec_try_array(c: Cursor) -> (Result<Option<u32>, ReadError>, Cursor) {
    match c.peek() {
        Ok(t) => if is_count_type(t, 0x90, 0xDC) {
            match spec_count_payload(c.skipped(1), t, 0x90, 0xDC) {
                (Ok(v), c1) => (Ok(Some(v)), c1),
                (Err(e), c1) => (Err(e), c1),
            }
        } else {
            (Ok(None), c)
        },
        Err(e) => (Err(e), c),
    }
}

pub open spec fn spec_read_bytes(c: Cursor) -> (Result<Seq<u8>, ReadError>, Cursor) {
    match c.next() {
        (Ok(t), c1) => if t == 0xC4 {
            match c1.next() {
                (Ok(length), c2) => c2.take(length as int),
                (Err(e), c2) => (Err(e), c2),
            }
        } else if t == 0xC5 {
            match c1.be_u16() {
                (Ok(length), c2) => c2.take(length as int),
                (Err(e), c2) => (Err(e), c2),
            }
        } else if t == 0xC6 {
            match c1.be_u32() {
                (Ok(length), c2) => c2.take(length as int),
                (Err(e), c2) => (Err(e), c2),
            }
        } else {
            (Err(ReadError::UnexpectedType(t)), c1)
        },
        (Err(e), c1) => (Err(e), c1),
    }
}

/// Whether `t` introduces an ext value.
pub open spec fn is_ext_type(t: u8) -> bool {
    0xC7 <= t <= 0xC9 || 0xD4 <= t <= 0xD8
}

/// The length of the data of the ext value that the type byte `t` introduces.
pub open spec fn spec_ext_length(c: Cursor, t: u8) -> (Result<u32, ReadError>, Cursor) {
    if t == 0xC7 {
        match c.next() {
            (Ok(v), c1) => (Ok(v as u32), c1),
            (Err(e), c1) => (Err(e), c1),
        }
    } else if t == 0xC8 {
        match c.be_u16() {
            (Ok(v), c1) => (Ok(v as u32), c1),
            (Err(e), c1) => (Err(e), c1),
        }
    } else if t == 0xC9 {
        c.be_u32()
    } else if t == 0xD4 {
        (Ok(1u32), c)
    } else if t == 0xD5 {
        (Ok(2u32), c)
    } else if t == 0xD6 {
        (Ok(4u32), c)
    } else if t == 0xD7 {
        (Ok(8u32), c)
    } else if t == 0xD8 {
        (Ok(16u32), c)
    } else {
        (Err(ReadError::UnexpectedType(t)), c)
    }
}

/// The ext value that follows the type byte `t`: its tag and its data.
pub open spec fn spec_ext_payload(c: Cursor, t: u8) -> (Result<(u8, Seq<u8>), ReadError>, Cursor) {
    match spec_ext_length(c, t) {
        (Ok(length), c1) => match c1.next() {
            (Ok(tag), c2) => match c2.take(length as int) {
                (Ok(data), c3) => (Ok((tag, data)), c3),
                (Err(e), c3) => (Err(e), c3),
            },
            (Err(e), c2) => (Err(e), c2),
        },
        (Err(e), c1) => (Err(e), c1),
    }
}

pub open spec fn spec_read_ext(c: Cursor) -> (Result<(u8, Seq<u8>), ReadError>, Cursor) {
    match c.next() {
        (Ok(t), c1) => spec_ext_payload(c1, t),
        (Err(e), c1) => (Err(e), c1),
    }
}

/// Reads an ext value if one is next; otherwise the cursor stays.
pub open spec fn spec_try_ext(c: Cursor) -> (Result<Option<(u8, Seq<u8>)>, ReadError>, Cursor) {
    match c.peek() {
        Ok(t) => if is_ext_type(t) {
            match spec_ext_payload(c.skipped(1), t) {
                (Ok(x), c1) => (Ok(Some(x)), c1),
                (Err(e), c1) => (Err(e), c1),
            }
        } else {
            (Ok(None), c)
        },
        Err(e) => (Err(e), c),
    }
}

fn expect_type(iterator: &mut CustomIterator, type_byte: u8) -> (r: Result<(), ReadError>)
    ensures
        (r, final(iterator)@) == spec_expect_type(old(iterator)@, type_byte),
{
    let value = iterator.next()?;
    if value != type_byte {
        return Err(ReadError::UnexpectedType(value));
    }
    Ok(())
}

pub fn check_null(iterator: &mut CustomIterator) -> (r: Result<bool, ReadError>)
    ensures
        (r, final(iterator)@) == spec_check_null(old(iterator)@),
{
    let value = iterator.peek()?;
    if value == 0xC0 {
        iterator.skip();
        return Ok(true);
    }
    Ok(false)
}

/// Reads `length` bytes as a UTF-8 string.
pub fn read_string_len(iterator: &mut CustomIterator, length: usize) -> (r: Result<
    String,
    ReadError,
>)
    ensures
        final(iterator)@ == spec_read_string_len(old(iterator)@, length as int).1,
        string_read_as(r, spec_read_string_len(old(iterator)@, length as int).0),
{
    let bytes = iterator.read_bytes(length)?;
    let ghost raw = bytes@;
    match string_from_utf8(bytes) {
        Some(s) => {
            proof {
                encode_utf8_decode_utf8(s@);
            }
            Ok(s)
        },
        None => Err(ReadError::InvalidUtf8),
    }
}

/// Reads `length` bytes.
pub fn read_bytes_len(iterator: &mut CustomIterator, length: usize) -> (r: Result<
    Vec<u8>,
    ReadError,
>)
    ensures
        final(iterator)@ == old(iterator)@.take(length as int).1,
        bytes_read_as(r, old(iterator)@.take(length as int).0),
{
    iterator.read_bytes(length)
}

pub fn read_pos_int_fix(iterator: &mut CustomIterator) -> (r: Result<u8, ReadError>)
    ensures
        (r, final(iterator)@) == spec_read_pos_int_fix(old(iterator)@),
{
    let value = iterator.next()?;
    if value >= 0x80 {
        return Err(ReadError::UnexpectedType(value));
    }
    Ok(value)
}

pub fn read_neg_int_fix(iterator: &mut CustomIterator) -> (r: Result<i8, ReadError>)
    ensures
        (r, final(iterator)@) == spec_read_neg_int_fix(old(iterator)@),
{
    let value = iterator.next()?;
    if value < 0xE0 {
        return Err(ReadError::UnexpectedType(value));
    }
    Ok(((value as i16) - 0x100) as i8)
}

pub fn read_int_8(iterator: &mut CustomIterator) -> (r: Result<u8, ReadError>)
    ensures
        (r, final(iterator)@) == spec_read_int_8(old(iterator)@),
{
    expect_type(iterator, 0xCC)?;
    iterator.next()
}

pub fn read_int_16(iterator: &mut CustomIterator) -> (r: Result<u16, ReadError>)
    ensures
        (r, final(iterator)@) == spec_read_int_16(old(iterator)@),
{
    expect_type(iterator, 0xCD)?;
    iterator.read_be_u16()
}

pub fn read_int_32(iterator: &mut CustomIterator) -> (r: Result<u32, ReadError>)
    ensures
        (r, final(iterator)@) == spec_read_int_32(old(iterator)@),
{
    expect_type(iterator, 0xCE)?;
    iterator.read_be_u32()
}

pub fn read_int_64(iterator: &mut CustomIterator) -> (r: Result<u64, ReadError>)
    ensures
        (r, final(iterator)@) == spec_read_int_64(old(iterator)@),
{
    expect_type(iterator, 0xCF)?;
    iterator.read_be_u64()
}

fn sign_8(value: u8) -> (r: i8)
    ensures
        r == as_signed(value as int, 0x80),
{
    if value >= 0x80 {
        ((value as i16) - 0x100) as i8
    } else {
        value as i8
    }
}

pub fn read_s_int_8(iterator: &mut CustomIterator) -> (r: Result<i8, ReadError>)
    ensures
        (r, final(iterator)@) == spec_read_s_int_8(old(iterator)@),
{
    expect_type(iterator, 0xD0)?;
    let value = iterator.next()?;
    Ok(sign_8(value))
}

pub fn read_s_int_16(iterator: &mut CustomIterator) -> (r: Result<i16, ReadError>)
    ensures
        (r, final(iterator)@) == spec_read_s_int_16(old(iterator)@),
{
    expect_type(iterator, 0xD1)?;
    iterator.read_be_i16()
}

pub fn read_s_int_32(iterator: &mut CustomIterator) -> (r: Result<i32, ReadError>)
    ensures
        (r, final(iterator)@) == spec_read_s_int_32(old(iterator)@),
{
    expect_type(iterator, 0xD2)?;
    iterator.read_be_i32()
}

pub fn read_s_int_64(iterator: &mut CustomIterator) -> (r: Result<i64, ReadError>)
    ensures
        (r, final(iterator)@) == spec_read_s_int_64(old(iterator)@),
{
    expect_type(iterator, 0xD3)?;
    iterator.read_be_i64()
}

fn read_fix_count(iterator: &mut CustomIterator, base: u8, span: u8) -> (r: Result<u8, ReadError>)
    requires
        base + span <= 0x100,
    ensures
        (r, final(iterator)@) == spec_read_fix_count(old(iterator)@, base, span),
{
    let value = iterator.next()?;
    if value < base || value - base >= span {
        return Err(ReadError::UnexpectedType(value));
    }
    Ok(value - base)
}

pub fn read_map_fix(iterator: &mut CustomIterator) -> (r: Result<u8, ReadError>)
    ensures
        (r, final(iterator)@) == spec_read_map_fix(old(iterator)@),
{
    read_fix_count(iterator, 0x80, 0x10)
}

pub fn read_map_16(iterator: &mut CustomIterator) -> (r: Result<u16, ReadError>)
    ensures
        (r, final(iterator)@) == spec_read_map_16(old(iterator)@),
{
    expect_type(iterator, 0xDE)?;
    iterator.read_be_u16()
}

pub fn read_map_32(iterator: &mut CustomIterator) -> (r: Result<u32, ReadError>)
    ensures
        (r, final(iterator)@) == spec_read_map_32(old(iterator)@),
{
    expect_type(iterator, 0xDF)?;
    iterator.read_be_u32()
}

pub fn read_array_fix(iterator: &mut CustomIterator) -> (r: Result<u8, ReadError>)
    ensures
        (r, final(iterator)@) == spec_read_array_fix(old(iterator)@),
{
    read_fix_count(iterator, 0x90, 0x10)
}

pub fn read_array_16(iterator: &mut CustomIterator) -> (r: Result<u16, ReadError>)
    ensures
        (r, final(iterator)@) == spec_read_array_16(old(iterator)@),
{
    expect_type(iterator, 0xDC)?;
    iterator.read_be_u16()
}

pub fn read_array_32(iterator: &mut CustomIterator) -> (r: Result<u32, ReadError>)
    ensures
        (r, final(iterator)@) == spec_read_array_32(old(iterator)@),
{
    expect_type(iterator, 0xDD)?;
    iterator.read_be_u32()
}

pub fn read_string_fix(iterator: &mut CustomIterator) -> (r: Result<String, ReadError>)
    ensures
        final(iterator)@ == spec_read_string_fix(old(iterator)@).1,
        string_read_as(r, spec_read_string_fix(old(iterator)@).0),
{
    let length = read_fix_count(iterator, 0xA0, 0x20)?;
    read_string_len(iterator, length as usize)
}

pub fn read_string_8(iterator: &mut CustomIterator) -> (r: Result<String, ReadError>)
    ensures
        final(iterator)@ == spec_read_string_8(old(iterator)@).1,
        string_read_as(r, spec_read_string_8(old(iterator)@).0),
{
    expect_type(iterator, 0xD9)?;
    let length = iterator.next()?;
    read_string_len(iterator, length as usize)
}

pub fn read_string_16(iterator: &mut CustomIterator) -> (r: Result<String, ReadError>)
    ensures
        final(iterator)@ == spec_read_string_16(old(iterator)@).1,
        string_read_as(r, spec_read_string_16(old(iterator)@).0),
{
    expect_type(iterator, 0xDA)?;
    let length = iterator.read_be_u16()?;
    read_string_len(iterator, length as usize)
}

pub fn read_string_32(iterator: &mut CustomIterator) -> (r: Result<String, ReadError>)
    ensures
        final(iterator)@ == spec_read_string_32(old(iterator)@).1,
        string_read_as(r, spec_read_string_32(old(iterator)@).0),
{
    expect_type(iterator, 0xDB)?;
    let length = iterator.read_be_u32()?;
    read_string_len(iterator, length as usize)
}

pub fn read_binary_8(iterator: &mut CustomIterator) -> (r: Result<Vec<u8>, ReadError>)
    ensures
        final(iterator)@ == spec_read_binary_8(old(iterator)@).1,
        bytes_read_as(r, spec_read_binary_8(old(iterator)@).0),
{
    expect_type(iterator, 0xC4)?;
    let length = iterator.next()?;
    read_bytes_len(iterator, length as usize)
}

pub fn read_binary_16(iterator: &mut CustomIterator) -> (r: Result<Vec<u8>, ReadError>)
    ensures
        final(iterator)@ == spec_read_binary_16(old(iterator)@).1,
        bytes_read_as(r, spec_read_binary_16(old(iterator)@).0),
{
    expect_type(iterator, 0xC5)?;
    let length = iterator.read_be_u16()?;
    read_bytes_len(iterator, length as usize)
}

pub fn read_binary_32(iterator: &mut CustomIterator) -> (r: Result<Vec<u8>, ReadError>)
    ensures
        final(iterator)@ == spec_read_binary_32(old(iterator)@).1,
        bytes_read_as(r, spec_read_binary_32(old(iterator)@).0),
{
    expect_type(iterator, 0xC6)?;
    let length = iterator.read_be_u32()?;
    read_bytes_len(iterator, length as usize)
}

/// Reads a 32-bit float and hands out its bit pattern.
pub fn read_float_32(iterator: &mut CustomIterator) -> (r: Result<u32, ReadError>)
    ensures
        (r, final(iterator)@) == spec_read_float_32(old(iterator)@),
{
    expect_type(iterator, 0xCA)?;
    iterator.read_be_u32()
}

/// Reads a 64-bit float and hands out its bit pattern.
pub fn read_float_64(iterator: &mut CustomIterator) -> (r: Result<u64, ReadError>)
    ensures
        (r, final(iterator)@) == spec_read_float_64(old(iterator)@),
{
    expect_type(iterator, 0xCB)?;
    iterator.read_be_u64()
}

/// The payload of an unsigned form.
fn read_unsigned_payload(iterator: &mut CustomIterator, type_byte: u8) -> (r: Result<
    u64,
    ReadError,
>)
    requires
        unsigned_form_width(type_byte) >= 0,
    ensures
        final(iterator)@ == spec_int_payload(old(iterator)@, type_byte).1,
        match spec_int_payload(old(iterator)@, type_byte).0 {
            Ok(v) => r == Ok::<u64, ReadError>(v as u64) && 0 <= v && (unsigned_form_width(
                type_byte,
            ) > 0 ==> v < unsigned_limit(unsigned_form_width(type_byte))) && (
            unsigned_form_width(type_byte) == 0 ==> v < 0x80),
            Err(e) => r == Err::<u64, ReadError>(e),
        },
{
    if type_byte <= 0x7F {
        Ok(type_byte as u64)
    } else if type_byte == 0xCC {
        let v = iterator.next()?;
        Ok(v as u64)
    } else if type_byte == 0xCD {
        let v = iterator.read_be_u16()?;
        Ok(v as u64)
    } else if type_byte == 0xCE {
        let v = iterator.read_be_u32()?;
        Ok(v as u64)
    } else {
        iterator.read_be_u64()
    }
}

/// The payload of a signed form.
fn read_signed_payload(iterator: &mut CustomIterator, type_byte: u8) -> (r: Result<i64, ReadError>)
    requires
        signed_form_width(type_byte) >= 0,
    ensures
        final(iterator)@ == spec_int_payload(old(iterator)@, type_byte).1,
        match spec_int_payload(old(iterator)@, type_byte).0 {
            Ok(v) => r == Ok::<i64, ReadError>(v as i64) && (signed_form_width(type_byte) > 0
                ==> -unsigned_limit(signed_form_width(type_byte)) <= 2 * v < unsigned_limit(
                signed_form_width(type_byte),
            )) && (signed_form_width(type_byte) == 0 ==> -32 <= v < 0),
            Err(e) => r == Err::<i64, ReadError>(e),
        },
{
    if type_byte >= 0xE0 {
        Ok((type_byte as i64) - 0x100)
    } else if type_byte == 0xD0 {
        let v = iterator.next()?;
        Ok(sign_8(v) as i64)
    } else if type_byte == 0xD1 {
        let v = iterator.read_be_i16()?;
        Ok(v as i64)
    } else if type_byte == 0xD2 {
        let v = iterator.read_be_i32()?;
        Ok(v as i64)
    } else {
        iterator.read_be_i64()
    }
}

fn form_width(type_byte: u8) -> (r: (i8, i8))
    ensures
        r.0 == unsigned_form_width(type_byte),
        r.1 == signed_form_width(type_byte),
{
    let unsigned: i8 = if type_byte <= 0x7F {
        0
    } else if type_byte == 0xCC {
        1
    } else if type_byte == 0xCD {
        2
    } else if type_byte == 0xCE {
        4
    } else if type_byte == 0xCF {
        8
    } else {
        -1
    };
    let signed: i8 = if type_byte >= 0xE0 {
        0
    } else if type_byte == 0xD0 {
        1
    } else if type_byte == 0xD1 {
        2
    } else if type_byte == 0xD2 {
        4
    } else if type_byte == 0xD3 {
        8
    } else {
        -1
    };
    (unsigned, signed)
}

/// Reads an unsigned integer that `width` bytes can hold.
fn read_unsigned(iterator: &mut CustomIterator, width: i8) -> (r: Result<u64, ReadError>)
    requires
        width == 1 || width == 2 || width == 4 || width == 8,
    ensures
        final(iterator)@ == spec_read_unsigned(old(iterator)@, width as int).1,
        match spec_read_unsigned(old(iterator)@, width as int).0 {
            Ok(v) => r == Ok::<u64, ReadError>(v as u64) && 0 <= v < unsigned_limit(width as int),
            Err(e) => r == Err::<u64, ReadError>(e),
        },
{
    let type_byte = iterator.next()?;
    let (unsigned, _signed) = form_width(type_byte);
    if unsigned < 0 || unsigned > width {
        return Err(ReadError::UnexpectedType(type_byte));
    }
    read_unsigned_payload(iterator, type_byte)
}

/// Reads a signed integer that `width` bytes can hold.
fn read_signed(iterator: &mut CustomIterator, width: i8) -> (r: Result<i64, ReadError>)
    requires
        width == 1 || width == 2 || width == 4 || width == 8,
    ensures
        final(iterator)@ == spec_read_signed(old(iterator)@, width as int).1,
        match spec_read_signed(old(iterator)@, width as int).0 {
            Ok(v) => r == Ok::<i64, ReadError>(v as i64) && -unsigned_limit(width as int) <= 2 * v
                < unsigned_limit(width as int),
            Err(e) => r == Err::<i64, ReadError>(e),
        },
{
    let type_byte = iterator.next()?;
    let (unsigned, signed) = form_width(type_byte);
    if unsigned >= 0 && unsigned <= width {
        let value = read_unsigned_payload(iterator, type_byte)?;
        let fits = if width == 1 {
            value < 0x80
        } else if width == 2 {
            value < 0x8000
        } else if width == 4 {
            value < 0x8000_0000
        } else {
            value < 0x8000_0000_0000_0000
        };
        if !fits {
            return Err(ReadError::OutOfRange);
        }
        Ok(value as i64)
    } else if signed >= 0 && signed <= width {
        read_signed_payload(iterator, type_byte)
    } else {
        Err(ReadError::UnexpectedType(type_byte))
    }
}

pub fn read_u8(iterator: &mut CustomIterator) -> (r: Result<u8, ReadError>)
    ensures
        (r, final(iterator)@) == spec_read_u8(old(iterator)@),
{
    let value = read_unsigned(iterator, 1)?;
    Ok(value as u8)
}

pub fn read_u16(iterator: &mut CustomIterator) -> (r: Result<u16, ReadError>)
    ensures
        (r, final(iterator)@) == spec_read_u16(old(iterator)@),
{
    let value = read_unsigned(iterator, 2)?;
    Ok(value as u16)
}

pub fn read_u32(iterator: &mut CustomIterator) -> (r: Result<u32, ReadError>)
    ensures
        (r, final(iterator)@) == spec_read_u32(old(iterator)@),
{
    let value = read_unsigned(iterator, 4)?;
    Ok(value as u32)
}

pub fn read_u64(iterator: &mut CustomIterator) -> (r: Result<u64, ReadError>)
    ensures
        (r, final(iterator)@) == spec_read_u64(old(iterator)@),
{
    read_unsigned(iterator, 8)
}

pub fn read_i8(iterator: &mut CustomIterator) -> (r: Result<i8, ReadError>)
    ensures
        (r, final(iterator)@) == spec_read_i8(old(iterator)@),
{
    let value = read_signed(iterator, 1)?;
    Ok(value as i8)
}

pub fn read_i16(iterator: &mut CustomIterator) -> (r: Result<i16, ReadError>)
    ensures
        (r, final(iterator)@) == spec_read_i16(old(iterator)@),
{
    let value = read_signed(iterator, 2)?;
    Ok(value as i16)
}

pub fn read_i32(iterator: &mut CustomIterator) -> (r: Result<i32, ReadError>)
    ensures
        (r, final(iterator)@) == spec_read_i32(old(iterator)@),
{
    let value = read_signed(iterator, 4)?;
    Ok(value as i32)
}

pub fn read_i64(iterator: &mut CustomIterator) -> (r: Result<i64, ReadError>)
    ensures
        (r, final(iterator)@) == spec_read_i64(old(iterator)@),
{
    read_signed(iterator, 8)
}

/// Reads a 32-bit float and hands out its bit pattern.
pub fn read_f32(iterator: &mut CustomIterator) -> (r: Result<u32, ReadError>)
    ensures
        (r, final(iterator)@) == spec_read_float_32(old(iterator)@),
{
    read_float_32(iterator)
}

/// Reads a 64-bit float and hands out its bit pattern.
pub fn read_f64(iterator: &mut CustomIterator) -> (r: Result<u64, ReadError>)
    ensures
        (r, final(iterator)@) == spec_read_float_64(old(iterator)@),
{
    read_float_64(iterator)
}

pub fn read_string(iterator: &mut CustomIterator) -> (r: Result<String, ReadError>)
    ensures
        final(iterator)@ == spec_read_string(old(iterator)@).1,
        string_read_as(r, spec_read_string(old(iterator)@).0),
{
    let type_byte = iterator.next()?;
    if 0xA0 <= type_byte && type_byte <= 0xBF {
        read_string_len(iterator, (type_byte - 0xA0) as usize)
    } else if type_byte == 0xD9 {
        let length = iterator.next()?;
        read_string_len(iterator, length as usize)
    } else if type_byte == 0xDA {
        let length = iterator.read_be_u16()?;
        read_string_len(iterator, length as usize)
    } else if type_byte == 0xDB {
        let length = iterator.read_be_u32()?;
        read_string_len(iterator, length as usize)
    } else {
        Err(ReadError::UnexpectedType(type_byte))
    }
}

pub fn read_bool(iterator: &mut CustomIterator) -> (r: Result<bool, ReadError>)
    ensures
        (r, final(iterator)@) == spec_read_bool(old(iterator)@),
{
    let type_byte = iterator.next()?;
    if type_byte == 0xC2 {
        Ok(false)
    } else if type_byte == 0xC3 {
        Ok(true)
    } else {
        Err(ReadError::UnexpectedType(type_byte))
    }
}

fn read_count_payload(iterator: &mut CustomIterator, type_byte: u8, base: u8, wide: u8) -> (r:
    Result<u32, ReadError>)
    requires
        base <= 0xF0,
        wide < 0xFF,
    ensures
        (r, final(iterator)@) == spec_count_payload(old(iterator)@, type_byte, base, wide),
{
    if base <= type_byte && type_byte - base < 0x10 {
        Ok((type_byte - base) as u32)
    } else if type_byte == wide {
        let value = iterator.read_be_u16()?;
        Ok(value as u32)
    } else if type_byte == wide + 1 {
        iterator.read_be_u32()
    } else {
        Err(ReadError::UnexpectedType(type_byte))
    }
}

pub fn read_array(iterator: &mut CustomIterator) -> (r: Result<u32, ReadError>)
    ensures
        (r, final(iterator)@) == spec_read_array(old(iterator)@),
{
    let type_byte = iterator.next()?;
    read_count_payload(iterator, type_byte, 0x90, 0xDC)
}

pub fn try_array(iterator: &mut CustomIterator) -> (r: Result<Option<u32>, ReadError>)
    ensures
        (r, final(iterator)@) == spec_try_array(old(iterator)@),
        r == Ok::<Option<u32>, ReadError>(None) ==> final(iterator)@ == old(iterator)@,
{
    let type_byte = iterator.peek()?;
    if (0x90 <= type_byte && type_byte <= 0x9F) || type_byte == 0xDC || type_byte == 0xDD {
        iterator.skip();
        let count = read_count_payload(iterator, type_byte, 0x90, 0xDC)?;
        Ok(Some(count))
    } else {
        Ok(None)
    }
}

pub fn read_map(iterator: &mut CustomIterator) -> (r: Result<u32, ReadError>)
    ensures
        (r, final(iterator)@) == spec_read_map(old(iterator)@),
{
    let type_byte = iterator.next()?;
    read_count_payload(iterator, type_byte, 0x80, 0xDE)
}

pub fn read_bytes(iterator: &mut CustomIterator) -> (r: Result<Vec<u8>, ReadError>)
    ensures
        final(iterator)@ == spec_read_bytes(old(iterator)@).1,
        bytes_read_as(r, spec_read_bytes(old(iterator)@).0),
{
    let type_byte = iterator.next()?;
    if type_byte == 0xC4 {
        let length = iterator.next()?;
        read_bytes_len(iterator, length as usize)
    } else if type_byte == 0xC5 {
        let length = iterator.read_be_u16()?;
        read_bytes_len(iterator, length as usize)
    } else if type_byte == 0xC6 {
        let length = iterator.read_be_u32()?;
        read_bytes_len(iterator, length as usize)
    } else {
        Err(ReadError::UnexpectedType(type_byte))
    }
}

fn read_ext_length(iterator: &mut CustomIterator, type_byte: u8) -> (r: Result<u32, ReadError>)
    ensures
        (r, final(iterator)@) == spec_ext_length(old(iterator)@, type_byte),
{
    if type_byte == 0xC7 {
        let length = iterator.next()?;
        Ok(length as u32)
    } else if type_byte == 0xC8 {
        let length = iterator.read_be_u16()?;
        Ok(length as u32)
    } else if type_byte == 0xC9 {
        iterator.read_be_u32()
    } else if type_byte == 0xD4 {
        Ok(1)
    } else if type_byte == 0xD5 {
        Ok(2)
    } else if type_byte == 0xD6 {
        Ok(4)
    } else if type_byte == 0xD7 {
        Ok(8)
    } else if type_byte == 0xD8 {
        Ok(16)
    } else {
        Err(ReadError::UnexpectedType(type_byte))
    }
}

fn read_ext_payload(iterator: &mut CustomIterator, type_byte: u8) -> (r: Result<
    (u8, Vec<u8>),
    ReadError,
>)
    ensures
        final(iterator)@ == spec_ext_payload(old(iterator)@, type_byte).1,
        ext_read_as(r, spec_ext_payload(old(iterator)@, type_byte).0),
{
    let length = read_ext_length(iterator, type_byte)?;
    let tag = iterator.next()?;
    let data = iterator.read_bytes(length as usize)?;
    Ok((tag, data))
}

pub fn read_ext(iterator: &mut CustomIterator) -> (r: Result<(u8, Vec<u8>), ReadError>)
    ensures
        final(iterator)@ == spec_read_ext(old(iterator)@).1,
        ext_read_as(r, spec_read_ext(old(iterator)@).0),
{
    let type_byte = iterator.next()?;
    read_ext_payload(iterator, type_byte)
}

pub fn try_ext(iterator: &mut CustomIterator) -> (r: Result<Option<(u8, Vec<u8>)>, ReadError>)
    ensures
        final(iterator)@ == spec_try_ext(old(iterator)@).1,
        optional_ext_read_as(r, spec_try_ext(old(iterator)@).0),
        r matches Ok(None) ==> final(iterator)@ == old(iterator)@,
{
    let type_byte = iterator.peek()?;
    if (0xC7 <= type_byte && type_byte <= 0xC9) || (0xD4 <= type_byte && type_byte <= 0xD8) {
        iterator.skip();
        let value = read_ext_payload(iterator, type_byte)?;
        Ok(Some(value))
    } else {
        Ok(None)
    }
}

} // verus!
