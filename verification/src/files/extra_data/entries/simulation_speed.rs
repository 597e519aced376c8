//! The speed of the simulation in ticks per second, a 64-bit float that is
//! held as its bit pattern.

use crate::network::message_pack::reader::{read_f64, spec_read_float_64};
use crate::network::message_pack::writer::{float_64_encoding, write_float_64};
use crate::util::custom_iterator::{Cursor, CustomIterator};
use crate::util::error_handling::ReadError;
use vstd::prelude::*;
use vstd::string::*;

verus! {

pub const KEY: &'static str = "MHG.SimulationSpeed";

pub const TYPE: &'static str = "System.Double";

/// Whether the 64-bit float with these bits is less than zero: the sign bit
/// is set, and the float is neither the negative zero nor a NaN.
pub open spec fn is_below_zero(bits: u64) -> bool {
    0x8000_0000_0000_0000 < bits <= 0xFFF0_0000_0000_0000
}

#[derive(Clone, Copy, Debug, Default, PartialEq, Eq, Structural)]
pub struct SimulationSpeed {
    /// The bit pattern of the speed.
    pub speed: u64,
}

/// The value that the bytes spell: a MessagePack 64-bit float.
pub open spec fn spec_parse(bytes: Seq<u8>) -> Result<u64, ReadError> {
    spec_read_float_64(Cursor { bytes, position: 0 }).0
}

pub fn parse_data(bytes: &[u8]) -> (r: Result<SimulationSpeed, ReadError>)
    ensures
        match spec_parse(bytes@) {
            Ok(speed) => r == Ok::<SimulationSpeed, ReadError>(SimulationSpeed { speed }),
            Err(e) => r == Err::<SimulationSpeed, ReadError>(e),
        },
{
    let mut iterator = CustomIterator::borrow(bytes);
    let speed = read_f64(&mut iterator)?;
    Ok(SimulationSpeed { speed })
}

impl SimulationSpeed {
    /// Every default that can be read is accepted.
    pub fn validate_default_bytes(&self, bytes: &[u8]) -> (valid: bool)
        ensures
            valid == spec_parse(bytes@) is Ok,
    {
        parse_data(bytes).is_ok()
    }

    /// A speed that is not less than zero is accepted and stored.
    pub fn update_bytes_if_valid(&mut self, bytes: &[u8]) -> (valid: bool)
        ensures
            valid == (spec_parse(bytes@) matches Ok(speed) && !is_below_zero(speed)),
            final(self).speed == if valid {
                spec_parse(bytes@)->Ok_0
            } else {
                old(self).speed
            },
    {
        match parse_data(bytes) {
            Ok(new_data) => {
                if new_data.speed > 0x8000_0000_0000_0000 && new_data.speed
                    <= 0xFFF0_0000_0000_0000 {
                    return false;
                }
                self.speed = new_data.speed;
                true
            },
            Err(_) => false,
        }
    }

    /// Takes the speed that was read from a file, unless it is less than zero.
    pub fn load_value(&mut self, speed: u64) -> (valid: bool)
        ensures
            valid == !is_below_zero(speed),
            final(self).speed == if valid {
                speed
            } else {
                old(self).speed
            },
    {
        if speed > 0x8000_0000_0000_0000 && speed <= 0xFFF0_0000_0000_0000 {
            return false;
        }
        self.speed = speed;
        true
    }

    pub fn key(&self) -> (key: String)
        ensures
            key@ == KEY@,
    {
        KEY.to_owned()
    }

    pub fn data_type_network(&self) -> (name: &'static str)
        ensures
            name@ == TYPE@,
    {
        TYPE
    }

    pub fn data_type_file(&self) -> (name: &'static str)
        ensures
            name@ == TYPE@,
    {
        TYPE
    }

    pub fn serialize_data(&self) -> (buffer: Vec<u8>)
        ensures
            buffer@ == float_64_encoding(self.speed),
    {
        let mut buffer: Vec<u8> = Vec::new();
        write_float_64(&mut buffer, self.speed);
        assert(buffer@ =~= float_64_encoding(self.speed));
        buffer
    }
}

} // verus!
