//! The packet with which a client looks for servers.

use crate::network::message_pack::reader::{
    read_bool, read_map, read_string, spec_read_bool, spec_read_map, spec_read_string,
};
use crate::network::packets::packet_ids::PacketIDs;
use crate::network::packets::packet_tools::{expect_packet_id, spec_expect_packet_id};
use crate::util::custom_iterator::{Cursor, CustomIterator};
use crate::util::error_handling::ReadError;
use crate::network::message_pack::round_trip::lemma_read_string_length;
use vstd::prelude::*;
use vstd::utf8::encode_utf8;
use vstd::string::*;

verus! {

pub struct DiscoveryRequest {
    pub intention_to_connect: bool,
    pub request_uid: String,
}

/// A discovery request as a value.
pub struct DiscoveryRequestData {
    pub intention_to_connect: bool,
    pub request_uid: Seq<char>,
}

impl View for DiscoveryRequest {
    type V = DiscoveryRequestData;

    open spec fn view(&self) -> DiscoveryRequestData {
        DiscoveryRequestData {
            intention_to_connect: self.intention_to_connect,
            request_uid: self.request_uid@,
        }
    }
}

/// Reads a string and asks that it be `key`.
pub open spec fn spec_expect_key(c: Cursor, key: Seq<char>) -> (Result<(), ReadError>, Cursor) {
    match spec_read_string(c) {
        (Ok(found), c1) => if found == key {
            (Ok(()), c1)
        } else {
            (Err(ReadError::WrongKey), c1)
        },
        (Err(e), c1) => (Err(e), c1),
    }
}

pub fn expect_key(iterator: &mut CustomIterator, key: &str) -> (r: Result<(), ReadError>)
    ensures
        (r, final(iterator)@) == spec_expect_key(old(iterator)@, key@),
{
    let found = read_string(iterator)?;
    if found != key.to_owned() {
        return Err(ReadError::WrongKey);
    }
    Ok(())
}

impl DiscoveryRequest {
    /// A map of two entries: `ForConnection`, a bool, and `RequestGUID`, a string.
    pub open spec fn spec_parse(c: Cursor) -> Result<DiscoveryRequestData, ReadError> {
        match spec_read_map(c) {
            (Ok(size), c1) => if size != 2 {
                Err(ReadError::WrongElementAmount)
            } else {
                match spec_expect_key(c1, "ForConnection"@) {
                    (Ok(_), c2) => match spec_read_bool(c2) {
                        (Ok(intention_to_connect), c3) => match spec_expect_key(
                            c3,
                            "RequestGUID"@,
                        ) {
                            (Ok(_), c4) => match spec_read_string(c4) {
                                (Ok(request_uid), _) => Ok(
                                    DiscoveryRequestData { intention_to_connect, request_uid },
                                ),
                                (Err(e), _) => Err(e),
                            },
                            (Err(e), _) => Err(e),
                        },
                        (Err(e), _) => Err(e),
                    },
                    (Err(e), _) => Err(e),
                }
            },
            (Err(e), _) => Err(e),
        }
    }

    /// The id of a request that was read has at most 0xFFFF_FFFF bytes:
    /// it can be written into the answer.
    pub proof fn lemma_id_can_be_written(c: Cursor)
        ensures
            DiscoveryRequest::spec_parse(c) matches Ok(request) ==> encode_utf8(
                request.request_uid,
            ).len() <= 0xFFFF_FFFF,
    {
        let c1 = spec_read_map(c).1;
        let c2 = spec_expect_key(c1, "ForConnection"@).1;
        let c3 = spec_read_bool(c2).1;
        let c4 = spec_expect_key(c3, "RequestGUID"@).1;
        lemma_read_string_length(c4);
    }

    pub fn validate_packet_id(iterator: &mut CustomIterator) -> (r: Result<(), ReadError>)
        ensures
            (r, final(iterator)@) == spec_expect_packet_id(old(iterator)@, 10),
    {
        expect_packet_id(iterator, PacketIDs::DiscoveryRequest)
    }

    pub fn parse(iterator: CustomIterator) -> (r: Result<DiscoveryRequest, ReadError>)
        ensures
            match DiscoveryRequest::spec_parse(iterator@) {
                Ok(data) => r is Ok && r->Ok_0@ == data,
                Err(e) => r is Err && r->Err_0 == e,
            },
    {
        let mut iterator = iterator;
        DiscoveryRequest::read(&mut iterator)
    }

    /// Reads the request from where the cursor stands.
    pub fn read(iterator: &mut CustomIterator) -> (r: Result<DiscoveryRequest, ReadError>)
        ensures
            match DiscoveryRequest::spec_parse(old(iterator)@) {
                Ok(data) => r is Ok && r->Ok_0@ == data,
                Err(e) => r is Err && r->Err_0 == e,
            },
    {
        let map_size = read_map(iterator)?;
        if map_size != 2 {
            return Err(ReadError::WrongElementAmount);
        }
        expect_key(iterator, "ForConnection")?;
        let intention_to_connect = read_bool(iterator)?;
        expect_key(iterator, "RequestGUID")?;
        let request_uid = read_string(iterator)?;
        Ok(DiscoveryRequest { request_uid, intention_to_connect })
    }
}

} // verus!
