//! What the packet parsers share.

use crate::network::message_pack::reader::{
    check_null, read_array, read_bytes, read_string, read_u32, spec_check_null, spec_read_array,
    spec_read_bytes, spec_read_string, spec_read_u32, string_read_as,
};
use crate::network::packets::packet_ids::PacketIDs;
use crate::util::custom_iterator::{bytes_read_as, Cursor, CustomIterator};
use crate::util::error_handling::ReadError;
use vstd::prelude::*;

verus! {

/// The texts of a list of strings.
pub open spec fn texts(list: Seq<String>) -> Seq<Seq<char>> {
    Seq::new(list.len(), |i: int| list[i]@)
}

/// The text of a string that may be missing.
pub open spec fn optional_text(value: Option<String>) -> Option<Seq<char>> {
    match value {
        Some(text) => Some(text@),
        None => None,
    }
}

/// The bytes of a byte string that may be missing.
pub open spec fn optional_bytes(value: Option<Vec<u8>>) -> Option<Seq<u8>> {
    match value {
        Some(bytes) => Some(bytes@),
        None => None,
    }
}

/// Reads the header of an array and asks that it have `amount` elements.
pub open spec fn spec_expect_array(c: Cursor, amount: u32) -> (Result<(), ReadError>, Cursor) {
    match spec_read_array(c) {
        (Ok(found), c1) => if found == amount {
            (Ok(()), c1)
        } else {
            (Err(ReadError::WrongElementAmount), c1)
        },
        (Err(e), c1) => (Err(e), c1),
    }
}

/// Reads an unsigned integer and asks that it be `id`.
pub open spec fn spec_expect_packet_id(c: Cursor, id: u32) -> (Result<(), ReadError>, Cursor) {
    match spec_read_u32(c) {
        (Ok(found), c1) => if found == id {
            (Ok(()), c1)
        } else {
            (Err(ReadError::WrongPacketId), c1)
        },
        (Err(e), c1) => (Err(e), c1),
    }
}

/// Reads a string, or nil.
pub open spec fn spec_optional_string(c: Cursor) -> (Result<Option<Seq<char>>, ReadError>, Cursor) {
    match spec_check_null(c) {
        (Ok(true), c1) => (Ok(None), c1),
        (Ok(false), c1) => match spec_read_string(c1) {
            (Ok(text), c2) => (Ok(Some(text)), c2),
            (Err(e), c2) => (Err(e), c2),
        },
        (Err(e), c1) => (Err(e), c1),
    }
}

/// Reads a byte string, or nil.
pub open spec fn spec_optional_bytes(c: Cursor) -> (Result<Option<Seq<u8>>, ReadError>, Cursor) {
    match spec_check_null(c) {
        (Ok(true), c1) => (Ok(None), c1),
        (Ok(false), c1) => match spec_read_bytes(c1) {
            (Ok(bytes), c2) => (Ok(Some(bytes)), c2),
            (Err(e), c2) => (Err(e), c2),
        },
        (Err(e), c1) => (Err(e), c1),
    }
}

/// Reads `count` strings and appends them to `read`.
pub open spec fn spec_read_strings(c: Cursor, count: int, read: Seq<Seq<char>>) -> (
    Result<Seq<Seq<char>>, ReadError>,
    Cursor,
)
    decreases count,
{
    if count <= 0 {
        (Ok(read), c)
    } else {
        match spec_read_string(c) {
            (Ok(text), c1) => spec_read_strings(c1, count - 1, read.push(text)),
            (Err(e), c1) => (Err(e), c1),
        }
    }
}

pub fn expect_array(iterator: &mut CustomIterator, amount: u32) -> (r: Result<(), ReadError>)
    ensures
        (r, final(iterator)@) == spec_expect_array(old(iterator)@, amount),
{
    let found = read_array(iterator)?;
    if found != amount {
        return Err(ReadError::WrongElementAmount);
    }
    Ok(())
}

pub fn expect_packet_id(iterator: &mut CustomIterator, packet: PacketIDs) -> (r: Result<
    (),
    ReadError,
>)
    ensures
        (r, final(iterator)@) == spec_expect_packet_id(old(iterator)@, packet.spec_id()),
{
    let found = read_u32(iterator)?;
    if found != packet.id() {
        return Err(ReadError::WrongPacketId);
    }
    Ok(())
}

pub fn optional_string(iterator: &mut CustomIterator) -> (r: Result<Option<String>, ReadError>)
    ensures
        final(iterator)@ == spec_optional_string(old(iterator)@).1,
        match spec_optional_string(old(iterator)@).0 {
            Ok(text) => r is Ok && optional_text(r->Ok_0) == text,
            Err(e) => r is Err && r->Err_0 == e,
        },
{
    if check_null(iterator)? {
        return Ok(None);
    }
    let text = read_string(iterator)?;
    Ok(Some(text))
}

pub fn optional_byte_string(iterator: &mut CustomIterator) -> (r: Result<
    Option<Vec<u8>>,
    ReadError,
>)
    ensures
        final(iterator)@ == spec_optional_bytes(old(iterator)@).1,
        match spec_optional_bytes(old(iterator)@).0 {
            Ok(bytes) => r is Ok && optional_bytes(r->Ok_0) == bytes,
            Err(e) => r is Err && r->Err_0 == e,
        },
{
    if check_null(iterator)? {
        return Ok(None);
    }
    let bytes = read_bytes(iterator)?;
    Ok(Some(bytes))
}

pub fn read_strings(iterator: &mut CustomIterator, count: u32) -> (r: Result<
    Vec<String>,
    ReadError,
>)
    ensures
        final(iterator)@ == spec_read_strings(old(iterator)@, count as int, Seq::empty()).1,
        match spec_read_strings(old(iterator)@, count as int, Seq::empty()).0 {
            Ok(list) => r is Ok && texts(r->Ok_0@) == list,
            Err(e) => r is Err && r->Err_0 == e,
        },
{
    let mut list: Vec<String> = Vec::new();
    let mut left: u32 = count;
    assert(texts(list@) =~= Seq::empty());
    while left > 0
        invariant
            spec_read_strings(iterator@, left as int, texts(list@)) == spec_read_strings(
                old(iterator)@,
                count as int,
                Seq::empty(),
            ),
        decreases left,
    {
        let ghost read = texts(list@);
        let text = read_string(iterator)?;
        list.push(text);
        assert(texts(list@) =~= read.push(text@));
        left -= 1;
    }
    Ok(list)
}

} // verus!
