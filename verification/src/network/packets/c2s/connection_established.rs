//! The first packet of a client over the reliable channel.

use crate::network::message_pack::reader::{read_u32, spec_read_u32};
use crate::network::packets::packet_ids::PacketIDs;
use crate::network::packets::packet_tools::{
    expect_array, expect_packet_id, spec_expect_array, spec_expect_packet_id,
};
use crate::util::custom_iterator::{Cursor, CustomIterator};
use crate::util::error_handling::ReadError;
use vstd::prelude::*;

verus! {

pub struct ConnectionEstablished {}

impl ConnectionEstablished {
    /// An array with one array with the integer 0.
    pub open spec fn spec_parse(c: Cursor) -> Result<(), ReadError> {
        match spec_expect_array(c, 1) {
            (Ok(_), c1) => match spec_expect_array(c1, 1) {
                (Ok(_), c2) => match spec_read_u32(c2) {
                    (Ok(number), _) => if number == 0 {
                        Ok(())
                    } else {
                        Err(ReadError::WrongValue)
                    },
                    (Err(e), _) => Err(e),
                },
                (Err(e), _) => Err(e),
            },
            (Err(e), _) => Err(e),
        }
    }

    pub fn validate_packet_id(iterator: &mut CustomIterator) -> (r: Result<(), ReadError>)
        ensures
            (r, final(iterator)@) == spec_expect_packet_id(old(iterator)@, 17),
    {
        expect_packet_id(iterator, PacketIDs::ConnectionEstablished)
    }

    pub fn parse(iterator: CustomIterator) -> (r: Result<ConnectionEstablished, ReadError>)
        ensures
            match ConnectionEstablished::spec_parse(iterator@) {
                Ok(_) => r is Ok,
                Err(e) => r is Err && r->Err_0 == e,
            },
    {
        let mut iterator = iterator;
        expect_array(&mut iterator, 1)?;
        expect_array(&mut iterator, 1)?;
        let number = read_u32(&mut iterator)?;
        if number != 0 {
            return Err(ReadError::WrongValue);
        }
        Ok(ConnectionEstablished {  })
    }
}

} // verus!
