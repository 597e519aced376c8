//! The extra data: typed values under keys, which clients ask for and change.

pub mod entries;
pub mod manager;
pub mod policy;
