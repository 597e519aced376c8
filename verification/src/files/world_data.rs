//! The world: its parts, and the save file that they are read from.

pub mod world_file_parser;
pub mod world_structs;
