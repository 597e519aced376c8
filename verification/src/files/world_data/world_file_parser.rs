//! Reads a world from the bytes of a save file.
//!
//! The file begins with `Logic World save`, a byte with the version of the
//! format, and the save information; then come the mods, the component
//! types, the components, the wires and the circuit states, and at the end
//! `redstone sux lol`. Integers have 32 bits, least significant byte first,
//! unless said otherwise.

use crate::files::world_data::world_structs::{
    components, identifiers, Component, ComponentAddress, ComponentData, PegAddress, Wire, World,
    WorldData,
};
use crate::lidgren::util::formatter::{read_vint_32, spec_read_vint_32};
use crate::network::message_pack::reader::{read_string_len, spec_read_string_len};
use crate::util::byte_order::{lemma_two_to_grows, two_to};
use crate::util::custom_iterator::{Cursor, CustomIterator};
use crate::util::error_handling::{ReadError, WorldFileError};
use vstd::prelude::*;

verus! {

/// `Logic World save`
pub open spec fn header_text() -> Seq<u8> {
    seq![
        0x4Cu8, 0x6F, 0x67, 0x69, 0x63, 0x20, 0x57, 0x6F, 0x72, 0x6C, 0x64, 0x20, 0x73, 0x61, 0x76,
        0x65,
    ]
}

/// `redstone sux lol`
pub open spec fn footer_text() -> Seq<u8> {
    seq![
        0x72u8, 0x65, 0x64, 0x73, 0x74, 0x6F, 0x6E, 0x65, 0x20, 0x73, 0x75, 0x78, 0x20, 0x6C, 0x6F,
        0x6C,
    ]
}

/// The result of a read of the cursor as a result of reading the file.
pub open spec fn lifted<T>(read: (Result<T, ReadError>, Cursor)) -> (
    Result<T, WorldFileError>,
    Cursor,
) {
    match read {
        (Ok(value), c) => (Ok(value), c),
        (Err(e), c) => (Err(WorldFileError::Read(e)), c),
    }
}

/// The millimetres that a 32-bit float of metres, given by its bit pattern,
/// makes: a thousand times the float, rounded to the nearest integer, halves
/// away from zero. What lies beyond the 32-bit integers becomes the nearest
/// of them, and a NaN becomes 0.
pub open spec fn millimetres(bits: u32) -> int {
    let negative = bits >= 0x8000_0000;
    let exponent = bits / 0x80_0000 % 0x100;
    let fraction = bits % 0x80_0000;
    let scaled = (0x80_0000 + fraction) * 1000;
    let limit = if negative {
        0x8000_0000
    } else {
        0x7FFF_FFFF
    };
    let magnitude: int = if exponent == 0xFF {
        if fraction == 0 {
            limit
        } else {
            0
        }
    } else if exponent >= 150 {
        limit
    } else if exponent < 116 {
        0
    } else {
        let rounded = (scaled + two_to((149 - exponent) as nat)) / (two_to(
            (150 - exponent) as nat,
        ) as int);
        if rounded > limit {
            limit
        } else {
            rounded
        }
    };
    if negative {
        -magnitude
    } else {
        magnitude
    }
}

fn power_of_two(exponent: u32) -> (r: u64)
    requires
        exponent <= 40,
    ensures
        r == two_to(exponent as nat),
        1 <= r <= 0x100_0000_0000,
{
    let mut value: u64 = 1;
    let mut done: u32 = 0;
    proof {
        lemma_two_to_40();
        lemma_two_to_grows(0, 40);
    }
    while done < exponent
        invariant
            done <= exponent <= 40,
            value == two_to(done as nat),
            value <= two_to(40),
            two_to(40) == 0x100_0000_0000,
        decreases exponent - done,
    {
        proof {
            lemma_two_to_grows((done + 1) as nat, 40);
        }
        value = value * 2;
        done += 1;
    }
    proof {
        lemma_two_to_grows(0, exponent as nat);
    }
    value
}

proof fn lemma_two_to_40()
    ensures
        two_to(40) == 0x100_0000_0000,
{
    assert(two_to(10) == 1024) by {
        reveal_with_fuel(two_to, 11);
    }
    assert(two_to(20) == 1024 * two_to(10)) by {
        reveal_with_fuel(two_to, 11);
    }
    assert(two_to(30) == 1024 * two_to(20)) by {
        reveal_with_fuel(two_to, 11);
    }
    assert(two_to(40) == 1024 * two_to(30)) by {
        reveal_with_fuel(two_to, 11);
    }
}

/// Converts a float of metres, given by its bit pattern, to millimetres.
pub fn convert(bits: u32) -> (r: i32)
    ensures
        r == millimetres(bits),
{
    let negative = bits >= 0x8000_0000;
    let exponent: u32 = bits / 0x80_0000 % 0x100;
    let fraction: u32 = bits % 0x80_0000;
    let limit: u64 = if negative {
        0x8000_0000
    } else {
        0x7FFF_FFFF
    };
    let magnitude: u64 = if exponent == 0xFF {
        if fraction == 0 {
            limit
        } else {
            0
        }
    } else if exponent >= 150 {
        limit
    } else if exponent < 116 {
        0
    } else {
        let scaled: u64 = ((0x80_0000 + fraction) as u64) * 1000;
        let rounded: u64 = (scaled + power_of_two(149 - exponent)) / power_of_two(150 - exponent);
        if rounded > limit {
            limit
        } else {
            rounded
        }
    };
    if negative {
        (-(magnitude as i64)) as i32
    } else {
        magnitude as i32
    }
}

/// Reads an integer that has to be a count or an index: it is not negative.
pub open spec fn spec_read_semi_unsigned_int(c: Cursor) -> (Result<u32, WorldFileError>, Cursor) {
    match c.le_i32() {
        (Ok(value), c1) => if value < 0 {
            (Err(WorldFileError::NegativeNumber), c1)
        } else {
            (Ok(value as u32), c1)
        },
        (Err(e), c1) => (Err(WorldFileError::Read(e)), c1),
    }
}

/// Reads a string: its length in bytes, then its UTF-8 bytes.
pub open spec fn spec_read_string(c: Cursor) -> (Result<Seq<char>, WorldFileError>, Cursor) {
    match c.le_u32() {
        (Ok(length), c1) => lifted(spec_read_string_len(c1, length as int)),
        (Err(e), c1) => (Err(WorldFileError::Read(e)), c1),
    }
}

/// The four numbers of a version, of which there are 16 bytes at the cursor.
pub open spec fn version_at(c: Cursor) -> (i32, i32, i32, i32) {
    (
        c.le_i32().0->Ok_0,
        c.skipped(4).le_i32().0->Ok_0,
        c.skipped(8).le_i32().0->Ok_0,
        c.skipped(12).le_i32().0->Ok_0,
    )
}

/// Reads the four numbers of a version.
pub open spec fn spec_read_version(c: Cursor) -> (
    Result<(i32, i32, i32, i32), WorldFileError>,
    Cursor,
) {
    if c.remaining() < 16 {
        (Err(WorldFileError::Read(ReadError::EndOfData)), c)
    } else {
        (Ok(version_at(c)), c.skipped(16))
    }
}

pub open spec fn spec_read_component_address(c: Cursor) -> (
    Result<ComponentAddress, WorldFileError>,
    Cursor,
) {
    match c.le_u32() {
        (Ok(id), c1) => (Ok(ComponentAddress { id }), c1),
        (Err(e), c1) => (Err(WorldFileError::Read(e)), c1),
    }
}

/// Reads a bool, a byte that is 0 or 1, where a byte is left.
pub open spec fn spec_read_bool(c: Cursor) -> (Result<bool, WorldFileError>, Cursor) {
    if c.bytes[c.position] == 0 {
        (Ok(false), c.skipped(1))
    } else if c.bytes[c.position] == 1 {
        (Ok(true), c.skipped(1))
    } else {
        (Err(WorldFileError::WrongBool(c.bytes[c.position])), c.skipped(1))
    }
}

/// Reads the address of a peg: whether it is an input, its component, its index.
pub open spec fn spec_read_peg_address(c: Cursor) -> (Result<PegAddress, WorldFileError>, Cursor) {
    match spec_read_bool(c) {
        (Ok(is_input), c1) => match spec_read_component_address(c1) {
            (Ok(component_address), c2) => match spec_read_semi_unsigned_int(c2) {
                (Ok(peg_index), c3) => (
                    Ok(PegAddress { is_input, component_address, peg_index }),
                    c3,
                ),
                (Err(e), c3) => (Err(e), c3),
            },
            (Err(e), c2) => (Err(e), c2),
        },
        (Err(e), c1) => (Err(e), c1),
    }
}

/// One coordinate of a position, of which there are 4 bytes at the cursor:
/// millimetres, or, in the older format, a float of metres.
pub open spec fn coordinate_at(c: Cursor, convert_from_float: bool) -> i32 {
    if convert_from_float {
        millimetres(c.le_u32().0->Ok_0) as i32
    } else {
        c.le_i32().0->Ok_0
    }
}

/// Reads a position of three coordinates.
pub open spec fn spec_read_position(c: Cursor, convert_from_float: bool) -> (
    Result<(i32, i32, i32), WorldFileError>,
    Cursor,
) {
    if c.remaining() < 12 {
        (Err(WorldFileError::Read(ReadError::EndOfData)), c)
    } else {
        (
            Ok(
                (
                    coordinate_at(c, convert_from_float),
                    coordinate_at(c.skipped(4), convert_from_float),
                    coordinate_at(c.skipped(8), convert_from_float),
                ),
            ),
            c.skipped(12),
        )
    }
}

/// Reads an alignment: four floats, which are kept as their bit patterns.
pub open spec fn spec_read_alignment(c: Cursor) -> (
    Result<(u32, u32, u32, u32), WorldFileError>,
    Cursor,
) {
    if c.remaining() < 16 {
        (Err(WorldFileError::Read(ReadError::EndOfData)), c)
    } else {
        (
            Ok(
                (
                    c.le_u32().0->Ok_0,
                    c.skipped(4).le_u32().0->Ok_0,
                    c.skipped(8).le_u32().0->Ok_0,
                    c.skipped(12).le_u32().0->Ok_0,
                ),
            ),
            c.skipped(16),
        )
    }
}

/// Reads `count` indices of circuit states and appends them to `read`.
pub open spec fn spec_read_indices(c: Cursor, count: int, read: Seq<u32>) -> (
    Result<Seq<u32>, WorldFileError>,
    Cursor,
)
    decreases count,
{
    if count <= 0 {
        (Ok(read), c)
    } else {
        match spec_read_semi_unsigned_int(c) {
            (Ok(index), c1) => spec_read_indices(c1, count - 1, read.push(index)),
            (Err(e), c1) => (Err(e), c1),
        }
    }
}

/// Reads a count and as many indices of circuit states.
pub open spec fn spec_read_index_list(c: Cursor) -> (Result<Seq<u32>, WorldFileError>, Cursor) {
    match spec_read_semi_unsigned_int(c) {
        (Ok(count), c1) => spec_read_indices(c1, count as int, Seq::empty()),
        (Err(e), c1) => (Err(e), c1),
    }
}

/// Reads the custom data of a component: a length, which is -1 where there
/// is none, and the bytes.
pub open spec fn spec_read_custom_data(c: Cursor) -> (Result<Seq<u8>, WorldFileError>, Cursor) {
    match c.le_i32() {
        (Ok(length), c1) => if length < -1 {
            (Err(WorldFileError::WrongCustomDataLength), c1)
        } else if length > 0 {
            lifted(c1.take(length as int))
        } else {
            (Ok(Seq::empty()), c1)
        },
        (Err(e), c1) => (Err(WorldFileError::Read(e)), c1),
    }
}

/// Whether the component types declare the type id.
pub open spec fn declares(dictionary: Seq<(u16, Seq<char>)>, type_id: u16) -> bool {
    exists|i: int| 0 <= i < dictionary.len() && (#[trigger] dictionary[i]).0 == type_id
}

/// The place of the first entry behind `from` that declares the type id, or
/// the number of entries.
pub open spec fn place_of(dictionary: Seq<(u16, Seq<char>)>, type_id: u16, from: int) -> int
    decreases dictionary.len() - from,
{
    if from < 0 || from >= dictionary.len() {
        dictionary.len() as int
    } else if dictionary[from].0 == type_id {
        from
    } else {
        place_of(dictionary, type_id, from + 1)
    }
}

/// The component types with one more declaration. A type id that is
/// declared again takes the new identifier.
pub open spec fn declared(dictionary: Seq<(u16, Seq<char>)>, type_id: u16, identifier: Seq<char>)
    -> Seq<(u16, Seq<char>)> {
    if place_of(dictionary, type_id, 0) < dictionary.len() {
        dictionary.update(place_of(dictionary, type_id, 0), (type_id, identifier))
    } else {
        dictionary.push((type_id, identifier))
    }
}

/// What follows the position of a component.
pub open spec fn spec_read_component_tail(
    c: Cursor,
    address: ComponentAddress,
    parent: ComponentAddress,
    type_id: u16,
    relative_position: (i32, i32, i32),
) -> (Result<ComponentData, WorldFileError>, Cursor) {
    match spec_read_alignment(c) {
        (Ok(relative_alignment), c1) => match spec_read_index_list(c1) {
            (Ok(inputs), c2) => match spec_read_index_list(c2) {
                (Ok(outputs), c3) => match spec_read_custom_data(c3) {
                    (Ok(custom_data), c4) => (
                        Ok(
                            ComponentData {
                                address,
                                parent,
                                type_id,
                                relative_position,
                                relative_alignment,
                                inputs,
                                outputs,
                                custom_data,
                            },
                        ),
                        c4,
                    ),
                    (Err(e), c4) => (Err(e), c4),
                },
                (Err(e), c3) => (Err(e), c3),
            },
            (Err(e), c2) => (Err(e), c2),
        },
        (Err(e), c1) => (Err(e), c1),
    }
}

/// Reads a component: address, parent, type id, which has to be declared,
/// position, alignment, inputs, outputs, custom data.
pub open spec fn spec_read_component(
    c: Cursor,
    dictionary: Seq<(u16, Seq<char>)>,
    convert_from_float: bool,
) -> (Result<ComponentData, WorldFileError>, Cursor) {
    match spec_read_component_address(c) {
        (Ok(address), c1) => match spec_read_component_address(c1) {
            (Ok(parent), c2) => match c2.le_u16() {
                (Ok(type_id), c3) => if place_of(dictionary, type_id, 0) >= dictionary.len() {
                    (Err(WorldFileError::UnknownComponentType(type_id)), c3)
                } else {
                    match spec_read_position(c3, convert_from_float) {
                        (Ok(position), c4) => spec_read_component_tail(
                            c4,
                            address,
                            parent,
                            type_id,
                            position,
                        ),
                        (Err(e), c4) => (Err(e), c4),
                    }
                },
                (Err(e), c3) => (Err(WorldFileError::Read(e)), c3),
            },
            (Err(e), c2) => (Err(e), c2),
        },
        (Err(e), c1) => (Err(e), c1),
    }
}

/// Reads a wire: two pegs, the index of its circuit state, its rotation.
pub open spec fn spec_read_wire(c: Cursor) -> (Result<Wire, WorldFileError>, Cursor) {
    if c.remaining() < 26 {
        (Err(WorldFileError::IncompleteWire), c)
    } else {
        match spec_read_peg_address(c) {
            (Ok(peg_a), c1) => match spec_read_peg_address(c1) {
                (Ok(peg_b), c2) => match spec_read_semi_unsigned_int(c2) {
                    (Ok(circuit_state_id), c3) => match c3.le_u32() {
                        (Ok(rotation), c4) => (
                            Ok(Wire { peg_a, peg_b, circuit_state_id, rotation }),
                            c4,
                        ),
                        (Err(e), c4) => (Err(WorldFileError::Read(e)), c4),
                    },
                    (Err(e), c3) => (Err(e), c3),
                },
                (Err(e), c2) => (Err(e), c2),
            },
            (Err(e), c1) => (Err(e), c1),
        }
    }
}

/// The eight circuit states that a byte packs, the highest bit first.
pub open spec fn states_of(byte: u8) -> Seq<bool> {
    seq![
        byte / 0x80 % 2 == 1,
        byte / 0x40 % 2 == 1,
        byte / 0x20 % 2 == 1,
        byte / 0x10 % 2 == 1,
        byte / 0x08 % 2 == 1,
        byte / 0x04 % 2 == 1,
        byte / 0x02 % 2 == 1,
        byte % 2 == 1,
    ]
}

/// The circuit states that the bytes pack.
pub open spec fn unpacked_states(bytes: Seq<u8>) -> Seq<bool>
    decreases bytes.len(),
{
    if bytes.len() == 0 {
        Seq::empty()
    } else {
        unpacked_states(bytes.drop_last()) + states_of(bytes.last())
    }
}

/// Reads `count` mods, each a name and a version, and drops them.
pub open spec fn spec_skip_mods(c: Cursor, count: int) -> (Result<(), WorldFileError>, Cursor)
    decreases count,
{
    if count <= 0 {
        (Ok(()), c)
    } else {
        match spec_read_string(c) {
            (Ok(_), c1) => match spec_read_version(c1) {
                (Ok(_), c2) => spec_skip_mods(c2, count - 1),
                (Err(e), c2) => (Err(e), c2),
            },
            (Err(e), c1) => (Err(e), c1),
        }
    }
}

/// Reads `count` declarations of component types, each a type id of 16
/// bits and an identifier, and adds them to the dictionary.
pub open spec fn spec_read_dictionary(c: Cursor, count: int, dictionary: Seq<(u16, Seq<char>)>)
    -> (Result<Seq<(u16, Seq<char>)>, WorldFileError>, Cursor)
    decreases count,
{
    if count <= 0 {
        (Ok(dictionary), c)
    } else {
        match c.le_u16() {
            (Ok(type_id), c1) => match spec_read_string(c1) {
                (Ok(identifier), c2) => spec_read_dictionary(
                    c2,
                    count - 1,
                    declared(dictionary, type_id, identifier),
                ),
                (Err(e), c2) => (Err(e), c2),
            },
            (Err(e), c1) => (Err(WorldFileError::Read(e)), c1),
        }
    }
}

/// Reads `count` components and appends them to `read`.
pub open spec fn spec_read_components(
    c: Cursor,
    count: int,
    dictionary: Seq<(u16, Seq<char>)>,
    convert_from_float: bool,
    read: Seq<ComponentData>,
) -> (Result<Seq<ComponentData>, WorldFileError>, Cursor)
    decreases count,
{
    if count <= 0 {
        (Ok(read), c)
    } else {
        match spec_read_component(c, dictionary, convert_from_float) {
            (Ok(component), c1) => spec_read_components(
                c1,
                count - 1,
                dictionary,
                convert_from_float,
                read.push(component),
            ),
            (Err(e), c1) => (Err(e), c1),
        }
    }
}

/// Reads `count` wires and appends them to `read`.
pub open spec fn spec_read_wires(c: Cursor, count: int, read: Seq<Wire>) -> (
    Result<Seq<Wire>, WorldFileError>,
    Cursor,
)
    decreases count,
{
    if count <= 0 {
        (Ok(read), c)
    } else {
        match spec_read_wire(c) {
            (Ok(wire), c1) => spec_read_wires(c1, count - 1, read.push(wire)),
            (Err(e), c1) => (Err(e), c1),
        }
    }
}

/// Reads a count as a variable-length integer.
pub open spec fn spec_read_count(c: Cursor) -> (Result<u32, WorldFileError>, Cursor) {
    lifted(spec_read_vint_32(c))
}

/// Reads the circuit states: the number of their bytes, and the bytes.
pub open spec fn spec_read_states(c: Cursor) -> (Result<Seq<bool>, WorldFileError>, Cursor) {
    match spec_read_count(c) {
        (Ok(count), c1) => match c1.take(count as int) {
            (Ok(bytes), c2) => (Ok(unpacked_states(bytes)), c2),
            (Err(e), c2) => (Err(WorldFileError::Read(e)), c2),
        },
        (Err(e), c1) => (Err(e), c1),
    }
}

/// Reads the wires and the circuit states, behind which only the footer may stand.
pub open spec fn spec_read_rest(
    c: Cursor,
    amount_wires: u32,
    component_id_map: Seq<(u16, Seq<char>)>,
    components: Seq<ComponentData>,
) -> Result<WorldData, WorldFileError> {
    match spec_read_wires(c, amount_wires as int, Seq::empty()) {
        (Ok(wires), c1) => match spec_read_states(c1) {
            (Ok(circuit_states), c2) => if c2.remaining() != 16 {
                Err(WorldFileError::LeftoverBytes)
            } else {
                Ok(WorldData { component_id_map, components, wires, circuit_states })
            },
            (Err(e), _) => Err(e),
        },
        (Err(e), _) => Err(e),
    }
}

/// Reads the mods, the component types and the components, and then the rest.
pub open spec fn spec_read_parts(
    c: Cursor,
    amount_components: u32,
    amount_wires: u32,
    convert_from_float: bool,
) -> Result<WorldData, WorldFileError> {
    match spec_read_count(c) {
        (Ok(amount_mods), c1) => match spec_skip_mods(c1, amount_mods as int) {
            (Ok(_), c2) => match spec_read_count(c2) {
                (Ok(amount_types), c3) => if amount_types > 65534 {
                    Err(WorldFileError::TooManyComponentTypes)
                } else {
                    match spec_read_dictionary(c3, amount_types as int, Seq::empty()) {
                        (Ok(dictionary), c4) => match spec_read_components(
                            c4,
                            amount_components as int,
                            dictionary,
                            convert_from_float,
                            Seq::empty(),
                        ) {
                            (Ok(components), c5) => spec_read_rest(
                                c5,
                                amount_wires,
                                dictionary,
                                components,
                            ),
                            (Err(e), _) => Err(e),
                        },
                        (Err(e), _) => Err(e),
                    }
                },
                (Err(e), _) => Err(e),
            },
            (Err(e), _) => Err(e),
        },
        (Err(e), _) => Err(e),
    }
}

/// Reads the save information, which is the version of the game, the type
/// of the save, which has to be 1, the number of components and the number
/// of wires, and then the parts.
pub open spec fn spec_read_save(c: Cursor, convert_from_float: bool) -> Result<
    WorldData,
    WorldFileError,
> {
    if c.remaining() < 25 {
        Err(WorldFileError::MissingSaveInformation)
    } else if c.bytes[c.position + 16] != 1 {
        Err(WorldFileError::WrongSaveType(c.bytes[c.position + 16]))
    } else {
        spec_read_parts(
            c.skipped(25),
            c.skipped(17).le_u32().0->Ok_0,
            c.skipped(21).le_u32().0->Ok_0,
            convert_from_float,
        )
    }
}

/// The world that the bytes of a save file spell.
pub open spec fn spec_read_world(bytes: Seq<u8>) -> Result<WorldData, WorldFileError> {
    if bytes.len() < 33 {
        Err(WorldFileError::TooSmall)
    } else if bytes.subrange(0, 16) != header_text() {
        Err(WorldFileError::WrongHeader)
    } else if bytes.subrange(bytes.len() - 16, bytes.len() as int) != footer_text() {
        Err(WorldFileError::WrongFooter)
    } else if bytes[16] < 5 {
        Err(WorldFileError::TooOld(bytes[16]))
    } else if bytes[16] > 6 {
        Err(WorldFileError::TooNew(bytes[16]))
    } else {
        spec_read_save(Cursor { bytes, position: 17 }, bytes[16] == 5)
    }
}

/// Whether a world that was read is the world that the model names.
pub open spec fn world_read_as(got: Result<World, WorldFileError>, model: Result<
    WorldData,
    WorldFileError,
>) -> bool {
    match model {
        Ok(world) => got is Ok && got->Ok_0@ == world,
        Err(e) => got is Err && got->Err_0 == e,
    }
}

fn lift<T>(read: Result<T, ReadError>) -> (r: Result<T, WorldFileError>)
    ensures
        r == match read {
            Ok(value) => Ok::<T, WorldFileError>(value),
            Err(e) => Err::<T, WorldFileError>(WorldFileError::Read(e)),
        },
{
    match read {
        Ok(value) => Ok(value),
        Err(e) => Err(WorldFileError::Read(e)),
    }
}

pub fn read_semi_unsigned_int(iterator: &mut CustomIterator) -> (r: Result<u32, WorldFileError>)
    ensures
        (r, final(iterator)@) == spec_read_semi_unsigned_int(old(iterator)@),
{
    let value = lift(iterator.read_le_i32())?;
    if value < 0 {
        return Err(WorldFileError::NegativeNumber);
    }
    Ok(value as u32)
}

pub fn read_string(iterator: &mut CustomIterator) -> (r: Result<String, WorldFileError>)
    ensures
        final(iterator)@ == spec_read_string(old(iterator)@).1,
        match spec_read_string(old(iterator)@).0 {
            Ok(text) => r is Ok && r->Ok_0@ == text,
            Err(e) => r is Err && r->Err_0 == e,
        },
{
    let amount_bytes = lift(iterator.read_le_u32())?;
    match read_string_len(iterator, amount_bytes as usize) {
        Ok(text) => Ok(text),
        Err(e) => Err(WorldFileError::Read(e)),
    }
}

pub fn read_version_unchecked(iterator: &mut CustomIterator) -> (r: (i32, i32, i32, i32))
    requires
        old(iterator)@.remaining() >= 16,
    ensures
        r == version_at(old(iterator)@),
        final(iterator)@ == old(iterator)@.skipped(16),
{
    let a = iterator.read_le_i32();
    let b = iterator.read_le_i32();
    let c = iterator.read_le_i32();
    let d = iterator.read_le_i32();
    match (a, b, c, d) {
        (Ok(a), Ok(b), Ok(c), Ok(d)) => (a, b, c, d),
        _ => (0, 0, 0, 0),
    }
}

pub fn read_version(iterator: &mut CustomIterator) -> (r: Result<
    (i32, i32, i32, i32),
    WorldFileError,
>)
    ensures
        (r, final(iterator)@) == spec_read_version(old(iterator)@),
{
    if iterator.remaining() < 16 {
        return Err(WorldFileError::Read(ReadError::EndOfData));
    }
    Ok(read_version_unchecked(iterator))
}

pub fn read_component_address(iterator: &mut CustomIterator) -> (r: Result<
    ComponentAddress,
    WorldFileError,
>)
    ensures
        (r, final(iterator)@) == spec_read_component_address(old(iterator)@),
{
    let id = lift(iterator.read_le_u32())?;
    Ok(ComponentAddress { id })
}

pub fn read_bool_unchecked(iterator: &mut CustomIterator) -> (r: Result<bool, WorldFileError>)
    requires
        old(iterator)@.remaining() >= 1,
    ensures
        (r, final(iterator)@) == spec_read_bool(old(iterator)@),
{
    let bool_byte = iterator.next_unchecked();
    if bool_byte == 0 {
        Ok(false)
    } else if bool_byte == 1 {
        Ok(true)
    } else {
        Err(WorldFileError::WrongBool(bool_byte))
    }
}

pub fn read_peg_address_unchecked(iterator: &mut CustomIterator) -> (r: Result<
    PegAddress,
    WorldFileError,
>)
    requires
        old(iterator)@.remaining() >= 1,
    ensures
        (r, final(iterator)@) == spec_read_peg_address(old(iterator)@),
{
    let is_input = read_bool_unchecked(iterator)?;
    let component_address = read_component_address(iterator)?;
    let peg_index = read_semi_unsigned_int(iterator)?;
    Ok(PegAddress { is_input, component_address, peg_index })
}

fn read_coordinate(iterator: &mut CustomIterator, convert_from_float: bool) -> (r: i32)
    requires
        old(iterator)@.remaining() >= 4,
    ensures
        r == coordinate_at(old(iterator)@, convert_from_float),
        final(iterator)@ == old(iterator)@.skipped(4),
{
    if convert_from_float {
        match iterator.read_le_u32() {
            Ok(bits) => convert(bits),
            Err(_) => 0,
        }
    } else {
        match iterator.read_le_i32() {
            Ok(value) => value,
            Err(_) => 0,
        }
    }
}

pub fn read_position(iterator: &mut CustomIterator, convert_from_float: bool) -> (r: Result<
    (i32, i32, i32),
    WorldFileError,
>)
    ensures
        (r, final(iterator)@) == spec_read_position(old(iterator)@, convert_from_float),
{
    if iterator.remaining() < 12 {
        return Err(WorldFileError::Read(ReadError::EndOfData));
    }
    let x = read_coordinate(iterator, convert_from_float);
    let y = read_coordinate(iterator, convert_from_float);
    let z = read_coordinate(iterator, convert_from_float);
    Ok((x, y, z))
}

fn read_bits(iterator: &mut CustomIterator) -> (r: u32)
    requires
        old(iterator)@.remaining() >= 4,
    ensures
        r == old(iterator)@.le_u32().0->Ok_0,
        final(iterator)@ == old(iterator)@.skipped(4),
{
    match iterator.read_le_u32() {
        Ok(bits) => bits,
        Err(_) => 0,
    }
}

/// Reads an alignment: four floats, which are handed out as their bit patterns.
pub fn read_alignment(iterator: &mut CustomIterator) -> (r: Result<
    (u32, u32, u32, u32),
    WorldFileError,
>)
    ensures
        (r, final(iterator)@) == spec_read_alignment(old(iterator)@),
{
    if iterator.remaining() < 16 {
        return Err(WorldFileError::Read(ReadError::EndOfData));
    }
    let a = read_bits(iterator);
    let b = read_bits(iterator);
    let c = read_bits(iterator);
    let d = read_bits(iterator);
    Ok((a, b, c, d))
}

fn read_index_list(iterator: &mut CustomIterator) -> (r: Result<Vec<u32>, WorldFileError>)
    ensures
        final(iterator)@ == spec_read_index_list(old(iterator)@).1,
        match spec_read_index_list(old(iterator)@).0 {
            Ok(list) => r is Ok && r->Ok_0@ == list,
            Err(e) => r is Err && r->Err_0 == e,
        },
{
    let amount = read_semi_unsigned_int(iterator)?;
    let ghost start = iterator@;
    let mut list: Vec<u32> = Vec::new();
    let mut left: u32 = amount;
    while left > 0
        invariant
            spec_read_semi_unsigned_int(old(iterator)@) == (
                Ok::<u32, WorldFileError>(amount),
                start,
            ),
            spec_read_indices(iterator@, left as int, list@) == spec_read_indices(
                start,
                amount as int,
                Seq::empty(),
            ),
        decreases left,
    {
        let circuit_state_id = read_semi_unsigned_int(iterator)?;
        list.push(circuit_state_id);
        left -= 1;
    }
    Ok(list)
}

fn read_custom_data(iterator: &mut CustomIterator) -> (r: Result<Vec<u8>, WorldFileError>)
    ensures
        final(iterator)@ == spec_read_custom_data(old(iterator)@).1,
        match spec_read_custom_data(old(iterator)@).0 {
            Ok(bytes) => r is Ok && r->Ok_0@ == bytes,
            Err(e) => r is Err && r->Err_0 == e,
        },
{
    let amount = lift(iterator.read_le_i32())?;
    if amount < -1 {
        return Err(WorldFileError::WrongCustomDataLength);
    }
    if amount > 0 {
        match iterator.read_bytes(amount as usize) {
            Ok(bytes) => Ok(bytes),
            Err(e) => Err(WorldFileError::Read(e)),
        }
    } else {
        Ok(Vec::new())
    }
}

fn find_type(dictionary: &Vec<(u16, String)>, type_id: u16) -> (found: usize)
    ensures
        found == place_of(identifiers(dictionary@), type_id, 0),
        found <= dictionary@.len(),
{
    let mut found: usize = 0;
    while found < dictionary.len() && dictionary[found].0 != type_id
        invariant
            found <= dictionary@.len(),
            place_of(identifiers(dictionary@), type_id, found as int) == place_of(
                identifiers(dictionary@),
                type_id,
                0,
            ),
        decreases dictionary@.len() - found,
    {
        found += 1;
    }
    found
}

fn read_component(
    iterator: &mut CustomIterator,
    dictionary: &Vec<(u16, String)>,
    convert_from_float: bool,
) -> (r: Result<Component, WorldFileError>)
    ensures
        final(iterator)@ == spec_read_component(
            old(iterator)@,
            identifiers(dictionary@),
            convert_from_float,
        ).1,
        match spec_read_component(old(iterator)@, identifiers(dictionary@), convert_from_float).0 {
            Ok(component) => r is Ok && r->Ok_0@ == component,
            Err(e) => r is Err && r->Err_0 == e,
        },
{
    let address = read_component_address(iterator)?;
    let parent = read_component_address(iterator)?;
    let type_id = lift(iterator.read_le_u16())?;
    if find_type(dictionary, type_id) >= dictionary.len() {
        return Err(WorldFileError::UnknownComponentType(type_id));
    }
    let relative_position = read_position(iterator, convert_from_float)?;
    let relative_alignment = read_alignment(iterator)?;
    let inputs = read_index_list(iterator)?;
    let outputs = read_index_list(iterator)?;
    let custom_data = read_custom_data(iterator)?;
    Ok(
        Component {
            address,
            parent,
            type_id,
            relative_position,
            relative_alignment,
            inputs,
            outputs,
            custom_data,
        },
    )
}

fn read_wire(iterator: &mut CustomIterator) -> (r: Result<Wire, WorldFileError>)
    ensures
        (r, final(iterator)@) == spec_read_wire(old(iterator)@),
{
    if iterator.remaining() < 26 {
        return Err(WorldFileError::IncompleteWire);
    }
    let peg_a = read_peg_address_unchecked(iterator)?;
    let ghost behind = iterator@;
    if iterator.remaining() < 1 {
        return Err(WorldFileError::IncompleteWire);
    }
    let peg_b = read_peg_address_unchecked(iterator)?;
    let circuit_state_id = read_semi_unsigned_int(iterator)?;
    let rotation = lift(iterator.read_le_u32())?;
    Ok(Wire { peg_a, peg_b, circuit_state_id, rotation })
}

fn push_states(states: &mut Vec<bool>, byte: u8)
    ensures
        final(states)@ == old(states)@ + states_of(byte),
{
    states.push(byte / 0x80 % 2 == 1);
    states.push(byte / 0x40 % 2 == 1);
    states.push(byte / 0x20 % 2 == 1);
    states.push(byte / 0x10 % 2 == 1);
    states.push(byte / 0x08 % 2 == 1);
    states.push(byte / 0x04 % 2 == 1);
    states.push(byte / 0x02 % 2 == 1);
    states.push(byte % 2 == 1);
    assert(states@ =~= old(states)@ + states_of(byte));
}

fn read_states(iterator: &mut CustomIterator) -> (r: Result<Vec<bool>, WorldFileError>)
    ensures
        final(iterator)@ == spec_read_states(old(iterator)@).1,
        match spec_read_states(old(iterator)@).0 {
            Ok(states) => r is Ok && r->Ok_0@ == states,
            Err(e) => r is Err && r->Err_0 == e,
        },
{
    let amount_of_bytes = lift(read_vint_32(iterator))?;
    let bytes = lift(iterator.read_bytes(amount_of_bytes as usize))?;
    let mut circuit_states: Vec<bool> = Vec::new();
    let mut i: usize = 0;
    assert(bytes@.subrange(0, 0) =~= Seq::empty());
    while i < bytes.len()
        invariant
            i <= bytes@.len(),
            circuit_states@ == unpacked_states(bytes@.subrange(0, i as int)),
        decreases bytes@.len() - i,
    {
        push_states(&mut circuit_states, bytes[i]);
        proof {
            let upto = bytes@.subrange(0, i as int + 1);
            assert(upto.drop_last() =~= bytes@.subrange(0, i as int));
        }
        i += 1;
    }
    assert(bytes@.subrange(0, i as int) =~= bytes@);
    Ok(circuit_states)
}

fn skip_mods(iterator: &mut CustomIterator, count: u32) -> (r: Result<(), WorldFileError>)
    ensures
        (r, final(iterator)@) == spec_skip_mods(old(iterator)@, count as int),
{
    let mut left: u32 = count;
    while left > 0
        invariant
            spec_skip_mods(iterator@, left as int) == spec_skip_mods(old(iterator)@, count as int),
        decreases left,
    {
        let _name = read_string(iterator)?;
        let _version = read_version(iterator)?;
        left -= 1;
    }
    Ok(())
}

fn declare(dictionary: &mut Vec<(u16, String)>, type_id: u16, identifier: String)
    ensures
        identifiers(final(dictionary)@) == declared(
            identifiers(old(dictionary)@),
            type_id,
            identifier@,
        ),
{
    let found = find_type(dictionary, type_id);
    if found < dictionary.len() {
        dictionary[found] = (type_id, identifier);
        assert(identifiers(dictionary@) =~= identifiers(old(dictionary)@).update(
            found as int,
            (type_id, identifier@),
        ));
    } else {
        dictionary.push((type_id, identifier));
        assert(identifiers(dictionary@) =~= identifiers(old(dictionary)@).push(
            (type_id, identifier@),
        ));
    }
}

fn read_dictionary(iterator: &mut CustomIterator, count: u32) -> (r: Result<
    Vec<(u16, String)>,
    WorldFileError,
>)
    ensures
        final(iterator)@ == spec_read_dictionary(old(iterator)@, count as int, Seq::empty()).1,
        match spec_read_dictionary(old(iterator)@, count as int, Seq::empty()).0 {
            Ok(dictionary) => r is Ok && identifiers(r->Ok_0@) == dictionary,
            Err(e) => r is Err && r->Err_0 == e,
        },
{
    let mut dictionary: Vec<(u16, String)> = Vec::new();
    let mut left: u32 = count;
    assert(identifiers(dictionary@) =~= Seq::empty());
    while left > 0
        invariant
            spec_read_dictionary(iterator@, left as int, identifiers(dictionary@))
                == spec_read_dictionary(old(iterator)@, count as int, Seq::empty()),
        decreases left,
    {
        let index = lift(iterator.read_le_u16())?;
        let identifier = read_string(iterator)?;
        declare(&mut dictionary, index, identifier);
        left -= 1;
    }
    Ok(dictionary)
}

fn read_components(
    iterator: &mut CustomIterator,
    count: u32,
    dictionary: &Vec<(u16, String)>,
    convert_from_float: bool,
) -> (r: Result<Vec<Component>, WorldFileError>)
    ensures
        final(iterator)@ == spec_read_components(
            old(iterator)@,
            count as int,
            identifiers(dictionary@),
            convert_from_float,
            Seq::empty(),
        ).1,
        match spec_read_components(
            old(iterator)@,
            count as int,
            identifiers(dictionary@),
            convert_from_float,
            Seq::empty(),
        ).0 {
            Ok(list) => r is Ok && components(r->Ok_0@) == list,
            Err(e) => r is Err && r->Err_0 == e,
        },
{
    let mut list: Vec<Component> = Vec::new();
    let mut left: u32 = count;
    assert(components(list@) =~= Seq::empty());
    while left > 0
        invariant
            spec_read_components(
                iterator@,
                left as int,
                identifiers(dictionary@),
                convert_from_float,
                components(list@),
            ) == spec_read_components(
                old(iterator)@,
                count as int,
                identifiers(dictionary@),
                convert_from_float,
                Seq::empty(),
            ),
        decreases left,
    {
        let ghost read = components(list@);
        let component = read_component(iterator, dictionary, convert_from_float)?;
        list.push(component);
        assert(components(list@) =~= read.push(component@));
        left -= 1;
    }
    Ok(list)
}

fn read_wires(iterator: &mut CustomIterator, count: u32) -> (r: Result<Vec<Wire>, WorldFileError>)
    ensures
        final(iterator)@ == spec_read_wires(old(iterator)@, count as int, Seq::empty()).1,
        match spec_read_wires(old(iterator)@, count as int, Seq::empty()).0 {
            Ok(list) => r is Ok && r->Ok_0@ == list,
            Err(e) => r is Err && r->Err_0 == e,
        },
{
    let mut list: Vec<Wire> = Vec::new();
    let mut left: u32 = count;
    while left > 0
        invariant
            spec_read_wires(iterator@, left as int, list@) == spec_read_wires(
                old(iterator)@,
                count as int,
                Seq::empty(),
            ),
        decreases left,
    {
        let wire = read_wire(iterator)?;
        list.push(wire);
        left -= 1;
    }
    Ok(list)
}

fn read_parts(
    iterator: &mut CustomIterator,
    amount_components: u32,
    amount_wires: u32,
    convert_from_float: bool,
) -> (r: Result<World, WorldFileError>)
    ensures
        world_read_as(
            r,
            spec_read_parts(old(iterator)@, amount_components, amount_wires, convert_from_float),
        ),
{
    let amount_mods = lift(read_vint_32(iterator))?;
    skip_mods(iterator, amount_mods)?;
    let components_map_count = lift(read_vint_32(iterator))?;
    if components_map_count > 65534 {
        return Err(WorldFileError::TooManyComponentTypes);
    }
    let component_dictionary = read_dictionary(iterator, components_map_count)?;
    let components = read_components(
        iterator,
        amount_components,
        &component_dictionary,
        convert_from_float,
    )?;
    let wires = read_wires(iterator, amount_wires)?;
    let circuit_states = read_states(iterator)?;
    if iterator.remaining() != 16 {
        return Err(WorldFileError::LeftoverBytes);
    }
    Ok(World { component_id_map: component_dictionary, components, wires, circuit_states })
}

fn has_text_at(iterator: &CustomIterator, at: usize, text: &[u8; 16]) -> (r: bool)
    requires
        at + 16 <= iterator@.bytes.len(),
    ensures
        r == (iterator@.bytes.subrange(at as int, at + 16) == text@),
{
    let mut i: usize = 0;
    assert(iterator.buffer.len() == iterator@.bytes.len());
    while i < 16
        invariant
            i <= 16,
            at + 16 <= iterator@.bytes.len() <= usize::MAX,
            forall|k: int| 0 <= k < i ==> iterator@.bytes[at + k] == text@[k],
        decreases 16 - i,
    {
        if iterator.buffer[at + i] != text[i] {
            assert(iterator@.bytes.subrange(at as int, at + 16)[i as int] != text@[i as int]);
            return false;
        }
        i += 1;
    }
    assert(iterator@.bytes.subrange(at as int, at + 16) =~= text@);
    true
}

fn header_bytes() -> (text: [u8; 16])
    ensures
        text@ == header_text(),
{
    let text: [u8; 16] = [
        0x4C, 0x6F, 0x67, 0x69, 0x63, 0x20, 0x57, 0x6F, 0x72, 0x6C, 0x64, 0x20, 0x73, 0x61, 0x76,
        0x65,
    ];
    assert(text@ =~= header_text());
    text
}

fn footer_bytes() -> (text: [u8; 16])
    ensures
        text@ == footer_text(),
{
    let text: [u8; 16] = [
        0x72, 0x65, 0x64, 0x73, 0x74, 0x6F, 0x6E, 0x65, 0x20, 0x73, 0x75, 0x78, 0x20, 0x6C, 0x6F,
        0x6C,
    ];
    assert(text@ =~= footer_text());
    text
}

/// Reads the save information and the parts of the world.
fn read_save(iterator: &mut CustomIterator, convert_from_float: bool) -> (r: Result<
    World,
    WorldFileError,
>)
    ensures
        world_read_as(r, spec_read_save(old(iterator)@, convert_from_float)),
{
    if iterator.remaining() < 25 {
        return Err(WorldFileError::MissingSaveInformation);
    }
    let ghost save = iterator@;
    let _game_version = read_version_unchecked(iterator);
    let save_type = iterator.next_unchecked();
    if save_type != 1 {
        return Err(WorldFileError::WrongSaveType(save_type));
    }
    let amount_components = read_bits(iterator);
    let amount_wires = read_bits(iterator);
    assert(iterator@ == save.skipped(25));
    read_parts(iterator, amount_components, amount_wires, convert_from_float)
}

/// Reads a world from a save file: the bytes that are left at the cursor,
/// all of which are taken.
pub fn read_from_file(iterator: &mut CustomIterator) -> (r: Result<World, WorldFileError>)
    ensures
        world_read_as(r, spec_read_world(old(iterator)@.rest())),
        final(iterator)@.bytes == old(iterator)@.bytes,
        final(iterator)@.remaining() == 0,
{
    let mut file = CustomIterator::own(iterator.consume());
    read_file(&mut file)
}

/// Reads a world from the bytes of a save file, from their start.
fn read_file(iterator: &mut CustomIterator) -> (r: Result<World, WorldFileError>)
    requires
        old(iterator)@.position == 0,
    ensures
        world_read_as(r, spec_read_world(old(iterator)@.bytes)),
{
    let length = iterator.remaining();
    if length < 33 {
        return Err(WorldFileError::TooSmall);
    }
    let header = header_bytes();
    let footer = footer_bytes();
    if !has_text_at(iterator, 0, &header) {
        return Err(WorldFileError::WrongHeader);
    }
    if !has_text_at(iterator, length - 16, &footer) {
        return Err(WorldFileError::WrongFooter);
    }
    iterator.pointer_restore(16);
    let file_version = iterator.next_unchecked();
    if file_version < 5 {
        return Err(WorldFileError::TooOld(file_version));
    }
    if file_version > 6 {
        return Err(WorldFileError::TooNew(file_version));
    }
    read_save(iterator, file_version == 5)
}

/// Reads a world from the bytes of a save file.
pub fn load_world(data: Vec<u8>) -> (r: Result<World, WorldFileError>)
    ensures
        world_read_as(r, spec_read_world(data@)),
{
    let mut iterator = CustomIterator::own(data);
    read_file(&mut iterator)
}

} // verus!
