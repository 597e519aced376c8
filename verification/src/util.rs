//! Shared primitives: the byte cursor, byte orders, keyed lists, texts, the
//! SUCC format and the error values.

pub mod association;
pub mod byte_order;
pub mod custom_iterator;
pub mod error_handling;
pub mod succ;
pub mod text;
