//! The kinds of message that the transport hands to the application.

use vstd::prelude::*;

verus! {

/// What a message handed to the application carries.
#[derive(Clone, Copy, Debug, PartialEq, Eq, Structural)]
pub enum DataType {
    /// The payload of a discovery frame.
    Discovery,
    /// What follows the preamble of a connect frame.
    Connect,
    /// A payload of the reliable-ordered channel, reassembled where it was fragmented.
    Data,
}

/// The transport address of a peer: an IPv6 address, or an IPv4 address
/// mapped into one, and a port.
#[derive(Clone, Copy, Debug, PartialEq, Eq, Structural)]
pub struct RemoteAddress {
    /// The upper 64 bits of the address.
    pub ip_high: u64,
    /// The lower 64 bits of the address.
    pub ip_low: u64,
    pub port: u16,
}

} // verus!
