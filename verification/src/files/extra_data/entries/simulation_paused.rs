//! Whether the simulation is paused.

use crate::network::message_pack::reader::{read_bool, spec_read_bool};
use crate::network::message_pack::writer::{bool_encoding, write_bool};
use crate::util::custom_iterator::{Cursor, CustomIterator};
use crate::util::error_handling::{ReadError, SuccError};
use crate::util::succ::succ_types::{spec_bool, SuccType};
use vstd::prelude::*;
use vstd::string::*;

verus! {

pub const KEY: &'static str = "MHG.SimulationPaused";

pub const TYPE: &'static str = "System.Boolean";

#[derive(Clone, Copy, Debug, Default, PartialEq, Eq, Structural)]
pub struct SimulationPaused {
    pub paused: bool,
}

/// The value that the bytes spell: a MessagePack bool.
pub open spec fn spec_parse(bytes: Seq<u8>) -> Result<bool, ReadError> {
    spec_read_bool(Cursor { bytes, position: 0 }).0
}

pub fn parse_data(bytes: &[u8]) -> (r: Result<SimulationPaused, ReadError>)
    ensures
        match spec_parse(bytes@) {
            Ok(paused) => r == Ok::<SimulationPaused, ReadError>(SimulationPaused { paused }),
            Err(e) => r == Err::<SimulationPaused, ReadError>(e),
        },
{
    let mut iterator = CustomIterator::borrow(bytes);
    let paused = read_bool(&mut iterator)?;
    Ok(SimulationPaused { paused })
}

impl SimulationPaused {
    /// Every default that can be read is accepted.
    pub fn validate_default_bytes(&self, bytes: &[u8]) -> (valid: bool)
        ensures
            valid == spec_parse(bytes@) is Ok,
    {
        parse_data(bytes).is_ok()
    }

    /// Every bool is accepted and stored.
    pub fn update_bytes_if_valid(&mut self, bytes: &[u8]) -> (valid: bool)
        ensures
            valid == spec_parse(bytes@) is Ok,
            final(self).paused == match spec_parse(bytes@) {
                Ok(paused) => paused,
                Err(_) => old(self).paused,
            },
    {
        match parse_data(bytes) {
            Ok(new_data) => {
                self.paused = new_data.paused;
                true
            },
            Err(_) => false,
        }
    }

    /// Takes the value from a SUCC tree: a text that spells a bool.
    pub fn load_from_file(&mut self, data: &SuccType) -> (r: Result<(), SuccError>)
        ensures
            match data {
                SuccType::Value(text) => match spec_bool(text@) {
                    Some(paused) => r is Ok && final(self).paused == paused,
                    None => r == Err::<(), SuccError>(SuccError::WrongValue) && *final(self)
                        == *old(self),
                },
                _ => r == Err::<(), SuccError>(SuccError::WrongKind) && *final(self) == *old(self),
            },
    {
        let paused = data.expect_bool()?;
        self.paused = paused;
        Ok(())
    }

    pub fn key(&self) -> (key: String)
        ensures
            key@ == KEY@,
    {
        KEY.to_owned()
    }

    pub fn data_type_network(&self) -> (name: &'static str)
        ensures
            name@ == TYPE@,
    {
        TYPE
    }

    pub fn data_type_file(&self) -> (name: &'static str)
        ensures
            name@ == TYPE@,
    {
        TYPE
    }

    pub fn serialize_data(&self) -> (buffer: Vec<u8>)
        ensures
            buffer@ == bool_encoding(self.paused),
    {
        let mut buffer: Vec<u8> = Vec::new();
        write_bool(&mut buffer, self.paused);
        assert(buffer@ =~= bool_encoding(self.paused));
        buffer
    }
}

} // verus!
