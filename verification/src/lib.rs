//! A Logic World compatible multiplayer server core: the Lidgren transport
//! state machines, the MessagePack codec with its typed packets, and the
//! ExtraData service, all as pure functions of bytes and state.

pub mod dispatcher;
pub mod error_handling;
pub mod files;
pub mod lidgren;
pub mod lidgren_formatter;
pub mod network;
pub mod util;
