//! The five-byte header of a Lidgren frame.

use crate::lidgren::message_type::MessageType;
use crate::util::custom_iterator::{Cursor, CustomIterator};
use crate::util::error_handling::ReadError;
use vstd::prelude::*;

verus! {

pub const MESSAGE_HEADER_LENGTH: usize = 5;

#[derive(Clone, Copy, Debug, PartialEq, Eq, Structural)]
pub struct MessageHeader {
    pub message_type: MessageType,
    pub fragment: bool,
    /// 15 bits.
    pub sequence_number: u16,
    /// The declared length of the payload in bits.
    pub bits: u16,
    /// The length of the payload in bytes that follows from `bits`.
    pub bytes: u16,
}

/// The number of payload bytes for a declared number of bits, capped at 8191.
pub open spec fn payload_bytes(bits: int) -> int {
    if bits >= 0xFFFF - 8 {
        8191
    } else {
        (bits + 7) / 8
    }
}

/// The header that five bytes spell.
pub open spec fn header_of(bytes: Seq<u8>) -> Option<MessageHeader> {
    match MessageType::spec_from_id(bytes[0]) {
        Some(message_type) => Some(
            MessageHeader {
                message_type,
                fragment: bytes[1] % 2 == 1,
                sequence_number: (bytes[1] / 2 + bytes[2] * 128) as u16,
                bits: (bytes[3] + bytes[4] * 0x100) as u16,
                bytes: payload_bytes(bytes[3] + bytes[4] * 0x100) as u16,
            },
        ),
        None => None,
    }
}

impl MessageHeader {
    /// With fewer than five bytes left nothing is consumed; with an id that
    /// names no message type the five bytes are consumed all the same.
    pub open spec fn spec_from_stream(c: Cursor) -> (Result<MessageHeader, ReadError>, Cursor) {
        if c.remaining() < 5 {
            (Err(ReadError::EndOfData), c)
        } else {
            match header_of(c.window(5)) {
                Some(header) => (Ok(header), c.skipped(5)),
                None => (Err(ReadError::UnexpectedType(c.bytes[c.position])), c.skipped(5)),
            }
        }
    }

    pub fn from_stream(iterator: &mut CustomIterator) -> (r: Result<MessageHeader, ReadError>)
        ensures
            (r, final(iterator)@) == MessageHeader::spec_from_stream(old(iterator)@),
            r matches Ok(header) ==> header.bytes <= 8191 && header.sequence_number < 0x8000
                && header.message_type.is_defined(),
    {
        if iterator.remaining() < MESSAGE_HEADER_LENGTH {
            return Err(ReadError::EndOfData);
        }
        let ghost window = iterator@.window(5);
        let message_type_id = iterator.next_unchecked();
        let b1 = iterator.next_unchecked();
        let b2 = iterator.next_unchecked();
        let b3 = iterator.next_unchecked();
        let b4 = iterator.next_unchecked();
        assert(window[0] == message_type_id && window[1] == b1 && window[2] == b2 && window[3]
            == b3 && window[4] == b4);
        let fragment = b1 % 2 == 1;
        let sequence_number: u16 = (b1 as u16) / 2 + (b2 as u16) * 128;
        let bits: u16 = (b3 as u16) + (b4 as u16) * 0x100;
        let message_type = match MessageType::from_id(message_type_id) {
            Some(message_type) => message_type,
            None => {
                return Err(ReadError::UnexpectedType(message_type_id));
            },
        };
        let bytes: u16 = if bits >= 0xFFFF - 8 {
            0xFFFF / 8
        } else {
            (bits + 7) / 8
        };
        Ok(MessageHeader { message_type, fragment, sequence_number, bits, bytes })
    }
}

} // verus!
