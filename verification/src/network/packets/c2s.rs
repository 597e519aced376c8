//! The packets that a client sends.

pub mod connect;
pub mod connection_approval;
pub mod connection_established;
pub mod discovery;
pub mod discovery_request;
pub mod extra_data_change;
pub mod extra_data_request;
pub mod player_position;
