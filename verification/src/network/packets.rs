//! The typed packets of the application protocol, one type for each packet id.

pub mod c2s;
pub mod compression;
pub mod packet_ids;
pub mod packet_tools;
pub mod s2c;
