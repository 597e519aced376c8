//! The SUCC text format, in which the defaults of the extra data are kept.

pub mod succ_parser;
pub mod succ_printer;
pub mod succ_types;
