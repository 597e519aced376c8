//! The discovery request, read together with its packet id.

use crate::network::packets::c2s::discovery_request::{DiscoveryRequest, DiscoveryRequestData};
use crate::network::packets::packet_tools::spec_expect_packet_id;
use crate::util::custom_iterator::{Cursor, CustomIterator};
use crate::util::error_handling::ReadError;
use vstd::prelude::*;

verus! {

pub struct Discovery {
    pub intention_to_connect: bool,
    pub request_uid: String,
}

impl View for Discovery {
    type V = DiscoveryRequestData;

    open spec fn view(&self) -> DiscoveryRequestData {
        DiscoveryRequestData {
            intention_to_connect: self.intention_to_connect,
            request_uid: self.request_uid@,
        }
    }
}

impl Discovery {
    /// The packet id 10, then the discovery request.
    pub open spec fn spec_parse(c: Cursor) -> Result<DiscoveryRequestData, ReadError> {
        match spec_expect_packet_id(c, 10) {
            (Ok(_), c1) => DiscoveryRequest::spec_parse(c1),
            (Err(e), _) => Err(e),
        }
    }

    pub fn parse(iterator: &mut CustomIterator) -> (r: Result<Discovery, ReadError>)
        ensures
            match Discovery::spec_parse(old(iterator)@) {
                Ok(data) => r is Ok && r->Ok_0@ == data,
                Err(e) => r is Err && r->Err_0 == e,
            },
    {
        DiscoveryRequest::validate_packet_id(iterator)?;
        let request = DiscoveryRequest::read(iterator)?;
        Ok(
            Discovery {
                intention_to_connect: request.intention_to_connect,
                request_uid: request.request_uid,
            },
        )
    }
}

} // verus!
