//! The packet with which a client tells where its player stands.

use crate::network::message_pack::reader::{
    read_bool, read_f32, spec_read_bool, spec_read_float_32,
};
use crate::network::packets::packet_ids::PacketIDs;
use crate::network::packets::packet_tools::{
    expect_array, expect_packet_id, spec_expect_array, spec_expect_packet_id,
};
use crate::util::custom_iterator::{Cursor, CustomIterator};
use crate::util::error_handling::ReadError;
use vstd::prelude::*;

verus! {

pub struct PlayerPosition {}

/// Reads `count` floats and drops them.
pub open spec fn spec_skip_floats(c: Cursor, count: int) -> (Result<(), ReadError>, Cursor)
    decreases count,
{
    if count <= 0 {
        (Ok(()), c)
    } else {
        match spec_read_float_32(c) {
            (Ok(_), c1) => spec_skip_floats(c1, count - 1),
            (Err(e), c1) => (Err(e), c1),
        }
    }
}

fn skip_floats(iterator: &mut CustomIterator, count: u8) -> (r: Result<(), ReadError>)
    ensures
        (r, final(iterator)@) == spec_skip_floats(old(iterator)@, count as int),
{
    let mut left: u8 = count;
    while left > 0
        invariant
            spec_skip_floats(iterator@, left as int) == spec_skip_floats(
                old(iterator)@,
                count as int,
            ),
        decreases left,
    {
        read_f32(iterator)?;
        left -= 1;
    }
    Ok(())
}

impl PlayerPosition {
    /// What follows the feet position: three floats and two bools.
    pub open spec fn spec_parse_tail(c: Cursor) -> Result<(), ReadError> {
        match spec_skip_floats(c, 3) {
            (Ok(_), c1) => match spec_read_bool(c1) {
                (Ok(_), c2) => match spec_read_bool(c2) {
                    (Ok(_), _) => Ok(()),
                    (Err(e), _) => Err(e),
                },
                (Err(e), _) => Err(e),
            },
            (Err(e), _) => Err(e),
        }
    }

    /// An array with one array of seven: a rotation of four floats, a
    /// position of three floats, the two head rotations and the scale, which
    /// are floats, and the two bools flying and teleport.
    pub open spec fn spec_parse(c: Cursor) -> Result<(), ReadError> {
        match spec_expect_array(c, 1) {
            (Ok(_), c1) => match spec_expect_array(c1, 7) {
                (Ok(_), c2) => match spec_expect_array(c2, 4) {
                    (Ok(_), c3) => match spec_skip_floats(c3, 4) {
                        (Ok(_), c4) => match spec_expect_array(c4, 3) {
                            (Ok(_), c5) => match spec_skip_floats(c5, 3) {
                                (Ok(_), c6) => PlayerPosition::spec_parse_tail(c6),
                                (Err(e), _) => Err(e),
                            },
                            (Err(e), _) => Err(e),
                        },
                        (Err(e), _) => Err(e),
                    },
                    (Err(e), _) => Err(e),
                },
                (Err(e), _) => Err(e),
            },
            (Err(e), _) => Err(e),
        }
    }

    pub fn validate_packet_id(iterator: &mut CustomIterator) -> (r: Result<(), ReadError>)
        ensures
            (r, final(iterator)@) == spec_expect_packet_id(old(iterator)@, 8),
    {
        expect_packet_id(iterator, PacketIDs::PlayerPosition)
    }

    pub fn parse(iterator: CustomIterator) -> (r: Result<PlayerPosition, ReadError>)
        ensures
            match PlayerPosition::spec_parse(iterator@) {
                Ok(_) => r is Ok,
                Err(e) => r is Err && r->Err_0 == e,
            },
    {
        let mut iterator = iterator;
        expect_array(&mut iterator, 1)?;
        expect_array(&mut iterator, 7)?;
        expect_array(&mut iterator, 4)?;
        skip_floats(&mut iterator, 4)?;
        expect_array(&mut iterator, 3)?;
        skip_floats(&mut iterator, 3)?;
        skip_floats(&mut iterator, 3)?;
        read_bool(&mut iterator)?;
        read_bool(&mut iterator)?;
        Ok(PlayerPosition {  })
    }
}

} // verus!
