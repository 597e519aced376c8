//! The packet that tells a client the value of an extra data entry.

use crate::network::message_pack::writer::{
    array_header, binary_encoding, int_encoding, string_encoding, write_array_auto,
    write_binary, write_int_auto, write_string_auto,
};
use crate::network::packets::c2s::extra_data_request::ExtraDataMessage;
use crate::network::packets::packet_ids::PacketIDs;
use vstd::prelude::*;
use vstd::string::*;
use vstd::utf8::encode_utf8;

verus! {

pub struct ExtraDataUpdate {
    pub key: String,
    pub data_type: String,
    /// The value, MessagePack bytes.
    pub data: Vec<u8>,
}

impl View for ExtraDataUpdate {
    type V = ExtraDataMessage;

    open spec fn view(&self) -> ExtraDataMessage {
        ExtraDataMessage { key: self.key@, data_type: self.data_type@, data: self.data@ }
    }
}

/// Whether the key, the type and the value are short enough to be written.
pub open spec fn is_writable(message: ExtraDataMessage) -> bool {
    &&& encode_utf8(message.key).len() <= 0xFFFF_FFFF
    &&& encode_utf8(message.data_type).len() <= 0xFFFF_FFFF
    &&& message.data.len() <= 0xFFFF_FFFF
}

/// The packet: the id 23, then an array of three: key, type, value.
pub open spec fn update_encoding(message: ExtraDataMessage) -> Seq<u8> {
    int_encoding(23) + array_header(3) + string_encoding(Some(message.key)) + string_encoding(
        Some(message.data_type),
    ) + binary_encoding(message.data)
}

impl ExtraDataUpdate {
    pub fn write(&self, buffer: &mut Vec<u8>)
        requires
            is_writable(self@),
        ensures
            final(buffer)@ == old(buffer)@ + update_encoding(self@),
    {
        write_int_auto(buffer, PacketIDs::ExtraDataUpdate.id());
        write_array_auto(buffer, 3);
        write_string_auto(buffer, Some(self.key.as_str()));
        write_string_auto(buffer, Some(self.data_type.as_str()));
        write_binary(buffer, self.data.as_slice());
        assert(buffer@ =~= old(buffer)@ + update_encoding(self@));
    }
}

} // verus!
