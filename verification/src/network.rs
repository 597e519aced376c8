//! The application protocol: MessagePack values and the typed packets.

pub mod message_pack;
pub mod packets;
