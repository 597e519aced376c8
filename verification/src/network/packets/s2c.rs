//! The packets that the server sends.

pub mod discovery_response;
pub mod extra_data_update;
pub mod world_initialization_packet;
