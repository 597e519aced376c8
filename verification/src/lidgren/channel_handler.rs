//! The receiving ends of the channels.

pub mod reliable_ordered;
