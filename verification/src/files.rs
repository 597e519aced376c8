//! What the server keeps: the world and the extra data.

pub mod extra_data;
pub mod world_data;
pub mod world_files;
