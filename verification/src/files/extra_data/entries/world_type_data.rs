//! The look of a gridlands world: two colours and the sides of the big cells.

use crate::files::world_data::world_structs::Color24;
use crate::network::message_pack::reader::{read_i32, read_u8, spec_read_i32, spec_read_u8};
use crate::network::message_pack::writer::{
    array_header, int_encoding, write_array_auto, write_int_auto,
};
use crate::network::packets::packet_tools::{expect_array, spec_expect_array};
use crate::util::byte_order::lemma_appended;
use crate::util::custom_iterator::{Cursor, CustomIterator};
use crate::util::error_handling::{ReadError, SuccError};
use crate::util::succ::succ_types::{
    last_with_key, lookup, parsed_u32, spec_color, SuccType,
};
use vstd::prelude::*;
use vstd::string::*;

verus! {

pub const KEY: &'static str = "MHG.WorldTypeData";

pub const TYPE: &'static str = "LogicWorld.SharedCode.Data.GridlandsWorldData";

#[derive(Clone, Copy, Debug, PartialEq, Eq, Structural)]
pub struct WorldTypeDataGridlands {
    pub color_a: Color24,
    pub color_b: Color24,
    /// At least 1.
    pub side_x: u32,
    /// At least 1.
    pub side_z: u32,
}

impl Default for WorldTypeDataGridlands {
    fn default() -> (data: Self)
        ensures
            data == (WorldTypeDataGridlands {
                color_a: Color24 { r: 80, g: 0, b: 0 },
                color_b: Color24 { r: 0, g: 80, b: 0 },
                side_x: 16,
                side_z: 32,
            }),
    {
        WorldTypeDataGridlands {
            color_a: Color24 { r: 80, g: 0, b: 0 },
            color_b: Color24 { r: 0, g: 80, b: 0 },
            side_x: 16,
            side_z: 32,
        }
    }
}

/// Reads a colour: an array of three bytes.
pub open spec fn spec_read_color(c: Cursor) -> (Result<Color24, ReadError>, Cursor) {
    match spec_expect_array(c, 3) {
        (Ok(_), c1) => match spec_read_u8(c1) {
            (Ok(r), c2) => match spec_read_u8(c2) {
                (Ok(g), c3) => match spec_read_u8(c3) {
                    (Ok(b), c4) => (Ok(Color24 { r, g, b }), c4),
                    (Err(e), c4) => (Err(e), c4),
                },
                (Err(e), c3) => (Err(e), c3),
            },
            (Err(e), c2) => (Err(e), c2),
        },
        (Err(e), c1) => (Err(e), c1),
    }
}

/// Reads the side of a cell: an integer that is at least 1.
pub open spec fn spec_read_side(c: Cursor) -> (Result<u32, ReadError>, Cursor) {
    match spec_read_i32(c) {
        (Ok(side), c1) => if side < 1 {
            (Err(ReadError::WrongValue), c1)
        } else {
            (Ok(side as u32), c1)
        },
        (Err(e), c1) => (Err(e), c1),
    }
}

/// The value that the bytes spell: an array of the two colours and the two sides.
pub open spec fn spec_parse(bytes: Seq<u8>) -> Result<WorldTypeDataGridlands, ReadError> {
    match spec_expect_array(Cursor { bytes, position: 0 }, 4) {
        (Ok(_), c1) => match spec_read_color(c1) {
            (Ok(color_a), c2) => match spec_read_color(c2) {
                (Ok(color_b), c3) => match spec_read_side(c3) {
                    (Ok(side_x), c4) => match spec_read_side(c4) {
                        (Ok(side_z), _) => Ok(
                            WorldTypeDataGridlands { color_a, color_b, side_x, side_z },
                        ),
                        (Err(e), _) => Err(e),
                    },
                    (Err(e), _) => Err(e),
                },
                (Err(e), _) => Err(e),
            },
            (Err(e), _) => Err(e),
        },
        (Err(e), _) => Err(e),
    }
}

/// The encoding of a colour.
pub open spec fn color_encoding(color: Color24) -> Seq<u8> {
    array_header(3) + int_encoding(color.r as int) + int_encoding(color.g as int) + int_encoding(
        color.b as int,
    )
}

/// The encoding of the value.
pub open spec fn encoding(data: WorldTypeDataGridlands) -> Seq<u8> {
    array_header(4) + color_encoding(data.color_a) + color_encoding(data.color_b) + int_encoding(
        data.side_x as int,
    ) + int_encoding(data.side_z as int)
}

/// The colour under `key` in the entries of a SUCC map.
pub open spec fn spec_load_color(entries: Seq<(String, SuccType)>, key: Seq<char>) -> Result<
    Color24,
    SuccError,
> {
    match last_with_key(entries, key) {
        Some(index) => match entries[index].1 {
            SuccType::Value(text) => SuccType::taken(spec_color(text@)),
            _ => Err(SuccError::WrongKind),
        },
        None => Err(SuccError::MissingEntry),
    }
}

/// The side under `key` in the entries of a SUCC map: a number above 0.
pub open spec fn spec_load_side(entries: Seq<(String, SuccType)>, key: Seq<char>) -> Result<
    u32,
    SuccError,
> {
    match last_with_key(entries, key) {
        Some(index) => match entries[index].1 {
            SuccType::Value(text) => match parsed_u32(text@) {
                Some(side) => if side == 0 {
                    Err(SuccError::WrongValue)
                } else {
                    Ok(side)
                },
                None => Err(SuccError::WrongValue),
            },
            _ => Err(SuccError::WrongKind),
        },
        None => Err(SuccError::MissingEntry),
    }
}

/// The value that the entries of a SUCC map spell.
pub open spec fn spec_load(entries: Seq<(String, SuccType)>) -> Result<
    WorldTypeDataGridlands,
    SuccError,
> {
    match spec_load_color(entries, "ColorA"@) {
        Ok(color_a) => match spec_load_color(entries, "ColorB"@) {
            Ok(color_b) => match spec_load_side(entries, "BigCellSizeX"@) {
                Ok(side_x) => match spec_load_side(entries, "BigCellSizeZ"@) {
                    Ok(side_z) => Ok(WorldTypeDataGridlands { color_a, color_b, side_x, side_z }),
                    Err(e) => Err(e),
                },
                Err(e) => Err(e),
            },
            Err(e) => Err(e),
        },
        Err(e) => Err(e),
    }
}

fn read_color(iterator: &mut CustomIterator) -> (r: Result<Color24, ReadError>)
    ensures
        (r, final(iterator)@) == spec_read_color(old(iterator)@),
{
    expect_array(iterator, 3)?;
    let r = read_u8(iterator)?;
    let g = read_u8(iterator)?;
    let b = read_u8(iterator)?;
    Ok(Color24 { r, g, b })
}

fn read_side(iterator: &mut CustomIterator) -> (r: Result<u32, ReadError>)
    ensures
        (r, final(iterator)@) == spec_read_side(old(iterator)@),
{
    let side = read_i32(iterator)?;
    if side < 1 {
        return Err(ReadError::WrongValue);
    }
    Ok(side as u32)
}

fn write_color(buffer: &mut Vec<u8>, color: &Color24)
    ensures
        final(buffer)@ == old(buffer)@ + color_encoding(*color),
{
    write_array_auto(buffer, 3);
    write_int_auto(buffer, color.r as u32);
    write_int_auto(buffer, color.g as u32);
    write_int_auto(buffer, color.b as u32);
    assert(buffer@ =~= old(buffer)@ + color_encoding(*color));
}

fn load_color(entries: &[(String, SuccType)], key: &str) -> (r: Result<Color24, SuccError>)
    ensures
        r == spec_load_color(entries@, key@),
{
    match lookup(entries, key) {
        Some(entry) => entry.expect_color(),
        None => Err(SuccError::MissingEntry),
    }
}

fn load_side(entries: &[(String, SuccType)], key: &str) -> (r: Result<u32, SuccError>)
    ensures
        r == spec_load_side(entries@, key@),
{
    match lookup(entries, key) {
        Some(entry) => {
            let side = entry.expect_unsigned()?;
            if side == 0 {
                return Err(SuccError::WrongValue);
            }
            Ok(side)
        },
        None => Err(SuccError::MissingEntry),
    }
}

pub fn parse_data(bytes: &[u8]) -> (r: Result<WorldTypeDataGridlands, ReadError>)
    ensures
        r == spec_parse(bytes@),
{
    let mut iterator = CustomIterator::borrow(bytes);
    expect_array(&mut iterator, 4)?;
    let color_a = read_color(&mut iterator)?;
    let color_b = read_color(&mut iterator)?;
    let side_x = read_side(&mut iterator)?;
    let side_z = read_side(&mut iterator)?;
    Ok(WorldTypeDataGridlands { color_a, color_b, side_x, side_z })
}

impl WorldTypeDataGridlands {
    /// Every default that can be read is accepted.
    pub fn validate_default_bytes(&self, bytes: &[u8]) -> (valid: bool)
        ensures
            valid == spec_parse(bytes@) is Ok,
    {
        parse_data(bytes).is_ok()
    }

    /// Every value that can be read is accepted and stored.
    pub fn update_bytes_if_valid(&mut self, bytes: &[u8]) -> (valid: bool)
        ensures
            valid == spec_parse(bytes@) is Ok,
            *final(self) == match spec_parse(bytes@) {
                Ok(data) => data,
                Err(_) => *old(self),
            },
    {
        match parse_data(bytes) {
            Ok(new_data) => {
                *self = new_data;
                true
            },
            Err(_) => false,
        }
    }

    /// Takes the value from a SUCC tree: a map with the colours `ColorA` and
    /// `ColorB` and the sides `BigCellSizeX` and `BigCellSizeZ`.
    pub fn load_from_file(&mut self, data: &SuccType) -> (r: Result<(), SuccError>)
        ensures
            match data {
                SuccType::Mapping(entries) => match spec_load(entries@) {
                    Ok(loaded) => r is Ok && *final(self) == loaded,
                    Err(e) => r == Err::<(), SuccError>(e) && *final(self) == *old(self),
                },
                SuccType::Any => r == Err::<(), SuccError>(SuccError::MissingEntry) && *final(self) == *old(self),
                _ => r == Err::<(), SuccError>(SuccError::WrongKind) && *final(self) == *old(self),
            },
    {
        let root = data.expect_map()?;
        let color_a = load_color(root, "ColorA")?;
        let color_b = load_color(root, "ColorB")?;
        let side_x = load_side(root, "BigCellSizeX")?;
        let side_z = load_side(root, "BigCellSizeZ")?;
        self.color_a = color_a;
        self.color_b = color_b;
        self.side_x = side_x;
        self.side_z = side_z;
        Ok(())
    }

    pub fn key(&self) -> (key: String)
        ensures
            key@ == KEY@,
    {
        KEY.to_owned()
    }

    pub fn data_type_network(&self) -> (name: &'static str)
        ensures
            name@ == TYPE@,
    {
        TYPE
    }

    pub fn data_type_file(&self) -> (name: &'static str)
        ensures
            name@ == TYPE@,
    {
        TYPE
    }

    pub fn serialize_data(&self) -> (buffer: Vec<u8>)
        ensures
            buffer@ == encoding(*self),
    {
        let mut buffer: Vec<u8> = Vec::new();
        write_array_auto(&mut buffer, 4);
        let ghost mut part = array_header(4);
        assert(buffer@ =~= part);
        let ghost base = Seq::<u8>::empty();
        assert(buffer@ =~= base + part);
        write_color(&mut buffer, &self.color_a);
        proof {
            lemma_appended(base, part, color_encoding(self.color_a));
            part = part + color_encoding(self.color_a);
        }
        write_color(&mut buffer, &self.color_b);
        proof {
            lemma_appended(base, part, color_encoding(self.color_b));
            part = part + color_encoding(self.color_b);
        }
        write_int_auto(&mut buffer, self.side_x);
        proof {
            lemma_appended(base, part, int_encoding(self.side_x as int));
            part = part + int_encoding(self.side_x as int);
        }
        write_int_auto(&mut buffer, self.side_z);
        proof {
            lemma_appended(base, part, int_encoding(self.side_z as int));
            part = part + int_encoding(self.side_z as int);
            assert(base + part =~= part);
        }
        buffer
    }
}

} // verus!
