//! The Lidgren transport: frames, the reliable-ordered channel, fragments.

pub mod channel_handler;
pub mod channel_sender;
pub mod connected_client;
pub mod data_structures;
pub mod data_types;
pub mod fragment;
pub mod fragment_round_trip;
pub mod lidgren_server;
pub mod message_type;
pub mod util;
