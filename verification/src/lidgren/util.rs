//! The primitive values of the Lidgren wire format.

pub mod formatter;
