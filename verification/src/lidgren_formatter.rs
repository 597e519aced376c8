//! Readers of the Lidgren primitives for callers that know that the value is
//! there.

use crate::lidgren::util::formatter;
use crate::network::message_pack::reader::string_read_as;
use crate::util::custom_iterator::{bytes_read_as, CustomIterator};
use crate::util::error_handling::ReadError;
use vstd::prelude::*;

verus! {

pub struct LidgrenFormatter {}

impl LidgrenFormatter {
    pub fn read_byte(iterator: &mut CustomIterator) -> (value: u8)
        requires
            old(iterator)@.remaining() >= 1,
        ensures
            (Ok::<u8, ReadError>(value), final(iterator)@) == old(iterator)@.next(),
    {
        iterator.next_unchecked()
    }

    pub fn read_bytes(iterator: &mut CustomIterator, amount: usize) -> (bytes: Vec<u8>)
        requires
            amount <= old(iterator)@.remaining(),
        ensures
            bytes@ == old(iterator)@.window(amount as int),
            final(iterator)@ == old(iterator)@.skipped(amount as int),
    {
        iterator.read_slice_unchecked(amount)
    }

    pub fn read_int_64(iterator: &mut CustomIterator) -> (value: u64)
        requires
            old(iterator)@.remaining() >= 8,
        ensures
            (Ok::<u64, ReadError>(value), final(iterator)@) == formatter::spec_read_int_64(
                old(iterator)@,
            ),
    {
        match formatter::read_int_64(iterator) {
            Ok(value) => value,
            Err(_) => 0,
        }
    }

    pub fn read_int_32(iterator: &mut CustomIterator) -> (value: u32)
        requires
            old(iterator)@.remaining() >= 4,
        ensures
            (Ok::<u32, ReadError>(value), final(iterator)@) == formatter::spec_read_int_32(
                old(iterator)@,
            ),
    {
        match formatter::read_int_32(iterator) {
            Ok(value) => value,
            Err(_) => 0,
        }
    }

    /// Reads a float and hands out its bit pattern.
    pub fn read_float(iterator: &mut CustomIterator) -> (bits: u32)
        requires
            old(iterator)@.remaining() >= 4,
        ensures
            (Ok::<u32, ReadError>(bits), final(iterator)@) == formatter::spec_read_int_32(
                old(iterator)@,
            ),
    {
        LidgrenFormatter::read_int_32(iterator)
    }

    pub fn read_vint_32(iterator: &mut CustomIterator) -> (value: u32)
        requires
            formatter::spec_read_vint_32(old(iterator)@).0 is Ok,
        ensures
            (Ok::<u32, ReadError>(value), final(iterator)@) == formatter::spec_read_vint_32(
                old(iterator)@,
            ),
    {
        match formatter::read_vint_32(iterator) {
            Ok(value) => value,
            Err(_) => 0,
        }
    }

    pub fn read_string(iterator: &mut CustomIterator) -> (text: String)
        requires
            formatter::spec_read_string(old(iterator)@).0 is Ok,
        ensures
            text@ == formatter::spec_read_string(old(iterator)@).0->Ok_0,
            final(iterator)@ == formatter::spec_read_string(old(iterator)@).1,
    {
        match formatter::read_string(iterator) {
            Ok(text) => text,
            Err(_) => String::new(),
        }
    }
}

} // verus!
