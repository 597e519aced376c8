//! The packet with which a client proposes a new value of an extra data entry.

use crate::network::message_pack::reader::{read_bytes, read_string};
use crate::network::packets::c2s::extra_data_request::{spec_parse_message, ExtraDataMessage};
use crate::network::packets::packet_ids::PacketIDs;
use crate::network::packets::packet_tools::{
    expect_array, expect_packet_id, spec_expect_packet_id,
};
use crate::util::custom_iterator::CustomIterator;
use crate::util::error_handling::ReadError;
use vstd::prelude::*;

verus! {

pub struct ExtraDataChange {
    pub key: String,
    pub data_type: String,
    /// The new value, MessagePack bytes.
    pub data_bytes: Vec<u8>,
}

impl View for ExtraDataChange {
    type V = ExtraDataMessage;

    open spec fn view(&self) -> ExtraDataMessage {
        ExtraDataMessage { key: self.key@, data_type: self.data_type@, data: self.data_bytes@ }
    }
}

impl ExtraDataChange {
    pub fn validate_packet_id(iterator: &mut CustomIterator) -> (r: Result<(), ReadError>)
        ensures
            (r, final(iterator)@) == spec_expect_packet_id(old(iterator)@, 4),
    {
        expect_packet_id(iterator, PacketIDs::ExtraDataChange)
    }

    pub fn parse(iterator: CustomIterator) -> (r: Result<ExtraDataChange, ReadError>)
        ensures
            match spec_parse_message(iterator@) {
                Ok(data) => r is Ok && r->Ok_0@ == data,
                Err(e) => r is Err && r->Err_0 == e,
            },
    {
        let mut iterator = iterator;
        expect_array(&mut iterator, 3)?;
        let key = read_string(&mut iterator)?;
        let data_type = read_string(&mut iterator)?;
        let data_bytes = read_bytes(&mut iterator)?;
        Ok(ExtraDataChange { key, data_type, data_bytes })
    }
}

} // verus!
