//! The packet with which a client asks to be let in.

use crate::network::message_pack::reader::{
    read_array, read_string, spec_read_array, spec_read_string,
};
use crate::network::packets::packet_ids::PacketIDs;
use crate::network::packets::packet_tools::{
    expect_array, expect_packet_id, optional_byte_string, optional_bytes, optional_string,
    optional_text, read_strings, spec_expect_array, spec_expect_packet_id, spec_optional_bytes,
    spec_optional_string, spec_read_strings, texts,
};
use crate::util::custom_iterator::{Cursor, CustomIterator};
use crate::util::error_handling::ReadError;
use vstd::prelude::*;

verus! {

pub struct ConnectionApproval {
    pub username: String,
    pub mods: Vec<String>,
    pub version: String,
    /// The game always sends a hash; this server takes nil too.
    pub password_hash: Option<Vec<u8>>,
    pub hail_payload: Option<String>,
    pub hail_signature: Option<String>,
}

/// A connection approval as a value.
pub struct ConnectionApprovalData {
    pub username: Seq<char>,
    pub mods: Seq<Seq<char>>,
    pub version: Seq<char>,
    pub password_hash: Option<Seq<u8>>,
    pub hail_payload: Option<Seq<char>>,
    pub hail_signature: Option<Seq<char>>,
}

impl View for ConnectionApproval {
    type V = ConnectionApprovalData;

    open spec fn view(&self) -> ConnectionApprovalData {
        ConnectionApprovalData {
            username: self.username@,
            mods: texts(self.mods@),
            version: self.version@,
            password_hash: optional_bytes(self.password_hash),
            hail_payload: optional_text(self.hail_payload),
            hail_signature: optional_text(self.hail_signature),
        }
    }
}

impl ConnectionApproval {
    /// What follows the user name: the version, and the three values that may be nil.
    pub open spec fn spec_parse_tail(c: Cursor, mods: Seq<Seq<char>>, username: Seq<char>)
        -> Result<ConnectionApprovalData, ReadError> {
        match spec_read_string(c) {
            (Ok(version), c1) => match spec_optional_bytes(c1) {
                (Ok(password_hash), c2) => match spec_optional_string(c2) {
                    (Ok(hail_payload), c3) => match spec_optional_string(c3) {
                        (Ok(hail_signature), _) => Ok(
                            ConnectionApprovalData {
                                username,
                                mods,
                                version,
                                password_hash,
                                hail_payload,
                                hail_signature,
                            },
                        ),
                        (Err(e), _) => Err(e),
                    },
                    (Err(e), _) => Err(e),
                },
                (Err(e), _) => Err(e),
            },
            (Err(e), _) => Err(e),
        }
    }

    /// An array of six: the array of mods, an array with the user name, the
    /// version, the password hash or nil, the hail payload or nil, the hail
    /// signature or nil.
    pub open spec fn spec_parse(c: Cursor) -> Result<ConnectionApprovalData, ReadError> {
        match spec_expect_array(c, 6) {
            (Ok(_), c1) => match spec_read_array(c1) {
                (Ok(mod_count), c2) => match spec_read_strings(
                    c2,
                    mod_count as int,
                    Seq::empty(),
                ) {
                    (Ok(mods), c3) => match spec_expect_array(c3, 1) {
                        (Ok(_), c4) => match spec_read_string(c4) {
                            (Ok(username), c5) => ConnectionApproval::spec_parse_tail(
                                c5,
                                mods,
                                username,
                            ),
                            (Err(e), _) => Err(e),
                        },
                        (Err(e), _) => Err(e),
                    },
                    (Err(e), _) => Err(e),
                },
                (Err(e), _) => Err(e),
            },
            (Err(e), _) => Err(e),
        }
    }

    pub fn validate_packet_id(iterator: &mut CustomIterator) -> (r: Result<(), ReadError>)
        ensures
            (r, final(iterator)@) == spec_expect_packet_id(old(iterator)@, 16),
    {
        expect_packet_id(iterator, PacketIDs::ConnectionApproval)
    }

    pub fn parse(iterator: CustomIterator) -> (r: Result<ConnectionApproval, ReadError>)
        ensures
            match ConnectionApproval::spec_parse(iterator@) {
                Ok(data) => r is Ok && r->Ok_0@ == data,
                Err(e) => r is Err && r->Err_0 == e,
            },
    {
        let mut iterator = iterator;
        ConnectionApproval::read(&mut iterator)
    }

    /// Reads the approval from where the cursor stands.
    pub fn read(iterator: &mut CustomIterator) -> (r: Result<ConnectionApproval, ReadError>)
        ensures
            match ConnectionApproval::spec_parse(old(iterator)@) {
                Ok(data) => r is Ok && r->Ok_0@ == data,
                Err(e) => r is Err && r->Err_0 == e,
            },
    {
        expect_array(iterator, 6)?;
        let mod_count = read_array(iterator)?;
        let mods = read_strings(iterator, mod_count)?;
        expect_array(iterator, 1)?;
        let username = read_string(iterator)?;
        let version = read_string(iterator)?;
        let password_hash = optional_byte_string(iterator)?;
        let hail_payload = optional_string(iterator)?;
        let hail_signature = optional_string(iterator)?;
        Ok(
            ConnectionApproval {
                username,
                mods,
                version,
                password_hash,
                hail_payload,
                hail_signature,
            },
        )
    }
}

} // verus!
