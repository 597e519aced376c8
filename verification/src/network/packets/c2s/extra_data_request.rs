//! The packet with which a client asks for the value of an extra data entry.

use crate::network::message_pack::reader::{
    read_bytes, read_string, spec_read_bytes, spec_read_string,
};
use crate::network::packets::packet_ids::PacketIDs;
use crate::network::packets::packet_tools::{
    expect_array, expect_packet_id, spec_expect_array, spec_expect_packet_id,
};
use crate::util::custom_iterator::{Cursor, CustomIterator};
use crate::util::error_handling::ReadError;
use vstd::prelude::*;

verus! {

pub struct ExtraDataRequest {
    pub key: String,
    pub data_type: String,
    /// The default that the client proposes, MessagePack bytes.
    pub default: Vec<u8>,
}

/// The three values of a request or a change: key, type, bytes.
pub struct ExtraDataMessage {
    pub key: Seq<char>,
    pub data_type: Seq<char>,
    pub data: Seq<u8>,
}

impl View for ExtraDataRequest {
    type V = ExtraDataMessage;

    open spec fn view(&self) -> ExtraDataMessage {
        ExtraDataMessage { key: self.key@, data_type: self.data_type@, data: self.default@ }
    }
}

/// An array of three: the key, the type, the bytes.
pub open spec fn spec_parse_message(c: Cursor) -> Result<ExtraDataMessage, ReadError> {
    match spec_expect_array(c, 3) {
        (Ok(_), c1) => match spec_read_string(c1) {
            (Ok(key), c2) => match spec_read_string(c2) {
                (Ok(data_type), c3) => match spec_read_bytes(c3) {
                    (Ok(data), _) => Ok(ExtraDataMessage { key, data_type, data }),
                    (Err(e), _) => Err(e),
                },
                (Err(e), _) => Err(e),
            },
            (Err(e), _) => Err(e),
        },
        (Err(e), _) => Err(e),
    }
}

impl ExtraDataRequest {
    pub fn validate_packet_id(iterator: &mut CustomIterator) -> (r: Result<(), ReadError>)
        ensures
            (r, final(iterator)@) == spec_expect_packet_id(old(iterator)@, 5),
    {
        expect_packet_id(iterator, PacketIDs::ExtraDataRequest)
    }

    pub fn parse(iterator: CustomIterator) -> (r: Result<ExtraDataRequest, ReadError>)
        ensures
            match spec_parse_message(iterator@) {
                Ok(data) => r is Ok && r->Ok_0@ == data,
                Err(e) => r is Err && r->Err_0 == e,
            },
    {
        let mut iterator = iterator;
        expect_array(&mut iterator, 3)?;
        let key = read_string(&mut iterator)?;
        let data_type = read_string(&mut iterator)?;
        let default = read_bytes(&mut iterator)?;
        Ok(ExtraDataRequest { key, data_type, default })
    }
}

} // verus!
