//! The MessagePack codec.

pub mod pretty_printer;
pub mod reader;
pub mod round_trip;
pub mod writer;
