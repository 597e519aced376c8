//! The connection approval, read together with its packet id.

use crate::network::packets::c2s::connection_approval::{
    ConnectionApproval, ConnectionApprovalData,
};
use crate::network::packets::packet_tools::{
    optional_bytes, optional_text, spec_expect_packet_id, texts,
};
use crate::util::custom_iterator::{Cursor, CustomIterator};
use crate::util::error_handling::ReadError;
use vstd::prelude::*;

verus! {

pub struct Connect {
    pub username: String,
    pub mods: Vec<String>,
    pub version: String,
    pub password_hash: Option<Vec<u8>>,
    pub hail_payload: Option<String>,
    pub hail_signature: Option<String>,
}

impl View for Connect {
    type V = ConnectionApprovalData;

    open spec fn view(&self) -> ConnectionApprovalData {
        ConnectionApprovalData {
            username: self.username@,
            mods: texts(self.mods@),
            version: self.version@,
            password_hash: optional_bytes(self.password_hash),
            hail_payload: optional_text(self.hail_payload),
            hail_signature: optional_text(self.hail_signature),
        }
    }
}

impl Connect {
    /// The packet id 16, then the connection approval.
    pub open spec fn spec_parse(c: Cursor) -> Result<ConnectionApprovalData, ReadError> {
        match spec_expect_packet_id(c, 16) {
            (Ok(_), c1) => ConnectionApproval::spec_parse(c1),
            (Err(e), _) => Err(e),
        }
    }

    pub fn parse(iterator: &mut CustomIterator) -> (r: Result<Connect, ReadError>)
        ensures
            match Connect::spec_parse(old(iterator)@) {
                Ok(data) => r is Ok && r->Ok_0@ == data,
                Err(e) => r is Err && r->Err_0 == e,
            },
    {
        ConnectionApproval::validate_packet_id(iterator)?;
        let approval = ConnectionApproval::read(iterator)?;
        Ok(
            Connect {
                username: approval.username,
                mods: approval.mods,
                version: approval.version,
                password_hash: approval.password_hash,
                hail_payload: approval.hail_payload,
                hail_signature: approval.hail_signature,
            },
        )
    }
}

} // verus!
