//! The packet that ships the whole world to a client.

use crate::files::world_data::world_structs::{
    components, identifiers, Component, ComponentData, PegAddress, Wire, World, WorldData,
};
use crate::network::message_pack::writer::{
    array_header, binary_encoding, bool_encoding, float_32_encoding, int_encoding, map_header,
    string_encoding, write_array_auto, write_binary, write_bool, write_bool_auto,
    write_float_auto, write_i32, write_int_16, write_int_auto, write_map_auto, write_null,
    write_string_auto,
};
use crate::network::packets::packet_ids::PacketIDs;
use crate::util::text::lemma_utf8_length;
use crate::util::byte_order::{be_bytes_16, lemma_appended};
use vstd::prelude::*;
use vstd::string::*;
use vstd::utf8::encode_utf8;

verus! {

/// The bit pattern of the 32-bit float 0.
pub const FLOAT_ZERO: u32 = 0;

/// The bit pattern of the 32-bit float 1.
pub const FLOAT_ONE: u32 = 0x3F80_0000;

/// One bool behind the other.
pub open spec fn states_encoding(states: Seq<bool>) -> Seq<u8>
    decreases states.len(),
{
    if states.len() == 0 {
        Seq::empty()
    } else {
        states_encoding(states.drop_last()) + bool_encoding(states.last())
    }
}

/// For each type id: the id as a 16-bit integer, then the identifier.
pub open spec fn identifiers_encoding(list: Seq<(u16, Seq<char>)>) -> Seq<u8>
    decreases list.len(),
{
    if list.len() == 0 {
        Seq::empty()
    } else {
        identifiers_encoding(list.drop_last()) + (seq![0xCDu8] + be_bytes_16(list.last().0 as int))
            + string_encoding(Some(list.last().1))
    }
}

/// Each integer in an array of its own.
pub open spec fn wrapped_encoding(values: Seq<u32>) -> Seq<u8>
    decreases values.len(),
{
    if values.len() == 0 {
        Seq::empty()
    } else {
        wrapped_encoding(values.drop_last()) + array_header(1) + int_encoding(values.last() as int)
    }
}

/// The address, the type and the pegs of a component.
pub open spec fn component_head_encoding(component: ComponentData) -> Seq<u8> {
    array_header(2) + array_header(1) + int_encoding(component.address.id as int) + array_header(7)
        + array_header(1) + (seq![0xCDu8] + be_bytes_16(component.type_id as int)) + array_header(
        component.inputs.len() as u32,
    ) + wrapped_encoding(component.inputs) + array_header(component.outputs.len() as u32)
        + wrapped_encoding(component.outputs)
}

/// The custom data, the parent, the position and the alignment of a component.
pub open spec fn component_tail_encoding(component: ComponentData) -> Seq<u8> {
    binary_encoding(component.custom_data) + array_header(1) + int_encoding(
        component.parent.id as int,
    ) + array_header(3) + int_encoding(component.relative_position.0 as int) + int_encoding(
        component.relative_position.1 as int,
    ) + int_encoding(component.relative_position.2 as int) + array_header(4) + float_32_encoding(
        component.relative_alignment.0,
    ) + float_32_encoding(component.relative_alignment.1) + float_32_encoding(
        component.relative_alignment.2,
    ) + float_32_encoding(component.relative_alignment.3)
}

/// A component: a pair of its address and an array of its seven properties.
pub open spec fn component_encoding(component: ComponentData) -> Seq<u8> {
    component_head_encoding(component) + component_tail_encoding(component)
}

pub open spec fn components_encoding(list: Seq<ComponentData>) -> Seq<u8>
    decreases list.len(),
{
    if list.len() == 0 {
        Seq::empty()
    } else {
        components_encoding(list.drop_last()) + component_encoding(list.last())
    }
}

/// A peg: whether it is an output, then its component and its index.
pub open spec fn peg_encoding(peg: PegAddress) -> Seq<u8> {
    array_header(2) + int_encoding(
        if peg.is_input {
            0
        } else {
            1
        },
    ) + array_header(2) + array_header(1) + int_encoding(peg.component_address.id as int)
        + int_encoding(peg.peg_index as int)
}

/// A wire under its number: the two pegs, the circuit state, the rotation.
pub open spec fn wire_encoding(wire: Wire, number: int) -> Seq<u8> {
    array_header(1) + int_encoding(number) + array_header(4) + peg_encoding(wire.peg_a)
        + peg_encoding(wire.peg_b) + int_encoding(wire.circuit_state_id as int)
        + float_32_encoding(wire.rotation)
}

/// The wires, numbered from 1.
pub open spec fn wires_encoding(list: Seq<Wire>) -> Seq<u8>
    decreases list.len(),
{
    if list.len() == 0 {
        Seq::empty()
    } else {
        wires_encoding(list.drop_last()) + wire_encoding(list.last(), list.len() as int)
    }
}

/// Where the player begins: upright, one metre above the origin, flying.
pub open spec fn player_position_encoding() -> Seq<u8> {
    array_header(7) + array_header(4) + float_32_encoding(FLOAT_ZERO) + float_32_encoding(
        FLOAT_ZERO,
    ) + float_32_encoding(FLOAT_ZERO) + float_32_encoding(FLOAT_ONE) + array_header(3)
        + float_32_encoding(FLOAT_ZERO) + float_32_encoding(FLOAT_ONE) + float_32_encoding(
        FLOAT_ZERO,
    ) + float_32_encoding(FLOAT_ZERO) + float_32_encoding(FLOAT_ZERO) + float_32_encoding(
        FLOAT_ONE,
    ) + bool_encoding(true) + bool_encoding(false)
}

/// The circuit states, the type ids and the world type.
pub open spec fn world_head_encoding(world: WorldData) -> Seq<u8> {
    int_encoding(18) + array_header(8) + array_header(world.circuit_states.len() as u32)
        + states_encoding(world.circuit_states) + map_header(world.component_id_map.len() as u32)
        + identifiers_encoding(world.component_id_map) + string_encoding(Some("MHG.Gridlands"@))
}

/// The components, the wires and the player.
pub open spec fn world_tail_encoding(world: WorldData) -> Seq<u8> {
    array_header(world.components.len() as u32) + components_encoding(world.components)
        + map_header(world.wires.len() as u32) + wires_encoding(world.wires)
        + player_position_encoding() + seq![0xC0u8] + string_encoding(Some("EpicUsername"@))
}

/// The packet: the id 18, then an array of eight: circuit states, type ids,
/// world type, components, wires, player position, hotbar, player name.
pub open spec fn world_encoding(world: WorldData) -> Seq<u8> {
    world_head_encoding(world) + world_tail_encoding(world)
}

/// Whether a component can be written: its lists have lengths of 32 bits.
pub open spec fn component_is_writable(component: ComponentData) -> bool {
    &&& component.inputs.len() <= 0xFFFF_FFFF
    &&& component.outputs.len() <= 0xFFFF_FFFF
    &&& component.custom_data.len() <= 0xFFFF_FFFF
}

/// Whether a world can be written: its lists have lengths of 32 bits and
/// its identifiers at most 0xFFFF_FFFF bytes.
pub open spec fn is_writable(world: WorldData) -> bool {
    &&& world.circuit_states.len() <= 0xFFFF_FFFF
    &&& world.component_id_map.len() <= 0xFFFF_FFFF
    &&& world.components.len() <= 0xFFFF_FFFF
    &&& world.wires.len() <= 0xFFFF_FFFF
    &&& forall|i: int|
        0 <= i < world.component_id_map.len() ==> encode_utf8(
            (#[trigger] world.component_id_map[i]).1,
        ).len() <= 0xFFFF_FFFF
    &&& forall|i: int|
        0 <= i < world.components.len() ==> component_is_writable(#[trigger] world.components[i])
}

/// Tells whether the world can be written.
pub fn can_be_written(world: &World) -> (writable: bool)
    ensures
        writable == is_writable(world@),
{
    if world.circuit_states.len() > 0xFFFF_FFFF || world.component_id_map.len() > 0xFFFF_FFFF
        || world.components.len() > 0xFFFF_FFFF || world.wires.len() > 0xFFFF_FFFF {
        return false;
    }
    let mut i: usize = 0;
    while i < world.component_id_map.len()
        invariant
            i <= world.component_id_map@.len(),
            forall|j: int|
                0 <= j < i ==> encode_utf8((#[trigger] world@.component_id_map[j]).1).len()
                    <= 0xFFFF_FFFF,
        decreases world.component_id_map@.len() - i,
    {
        assert(world@.component_id_map[i as int].1 == world.component_id_map@[i as int].1@);
        if world.component_id_map[i].1.as_str().as_bytes().len() > 0xFFFF_FFFF {
            return false;
        }
        i += 1;
    }
    let mut i: usize = 0;
    while i < world.components.len()
        invariant
            i <= world.components@.len(),
            forall|j: int| 0 <= j < i ==> component_is_writable(#[trigger] world@.components[j]),
        decreases world.components@.len() - i,
    {
        assert(world@.components[i as int] == world.components@[i as int]@);
        let component = &world.components[i];
        if component.inputs.len() > 0xFFFF_FFFF || component.outputs.len() > 0xFFFF_FFFF
            || component.custom_data.len() > 0xFFFF_FFFF {
            return false;
        }
        i += 1;
    }
    true
}

fn write_wrapped(buffer: &mut Vec<u8>, values: &Vec<u32>)
    ensures
        final(buffer)@ == old(buffer)@ + wrapped_encoding(values@),
{
    let mut i: usize = 0;
    assert(values@.subrange(0, 0) =~= Seq::empty());
    assert(buffer@ =~= old(buffer)@ + wrapped_encoding(values@.subrange(0, 0)));
    while i < values.len()
        invariant
            i <= values.len(),
            buffer@ == old(buffer)@ + wrapped_encoding(values@.subrange(0, i as int)),
        decreases values.len() - i,
    {
        let ghost before = buffer@;
        write_array_auto(buffer, 1);
        write_int_auto(buffer, values[i]);
        proof {
            let upto = values@.subrange(0, i as int + 1);
            assert(upto.drop_last() =~= values@.subrange(0, i as int));
            assert(buffer@ =~= old(buffer)@ + wrapped_encoding(upto));
        }
        i += 1;
    }
    assert(values@.subrange(0, i as int) =~= values@);
}

fn write_peg(buffer: &mut Vec<u8>, peg: &PegAddress)
    ensures
        final(buffer)@ == old(buffer)@ + peg_encoding(*peg),
{
    write_array_auto(buffer, 2);
    write_int_auto(
        buffer,
        if peg.is_input {
            0
        } else {
            1
        },
    );
    write_array_auto(buffer, 2);
    write_array_auto(buffer, 1);
    write_int_auto(buffer, peg.component_address.id);
    write_int_auto(buffer, peg.peg_index);
    assert(buffer@ =~= old(buffer)@ + peg_encoding(*peg));
}

fn write_wire(buffer: &mut Vec<u8>, wire: &Wire, number: u32)
    ensures
        final(buffer)@ == old(buffer)@ + wire_encoding(*wire, number as int),
{
    write_array_auto(buffer, 1);
    write_int_auto(buffer, number);
    write_array_auto(buffer, 4);
    write_peg(buffer, &wire.peg_a);
    write_peg(buffer, &wire.peg_b);
    write_int_auto(buffer, wire.circuit_state_id);
    write_float_auto(buffer, wire.rotation);
    assert(buffer@ =~= old(buffer)@ + wire_encoding(*wire, number as int));
}

fn write_component(buffer: &mut Vec<u8>, component: &Component)
    requires
        component_is_writable(component@),
    ensures
        final(buffer)@ == old(buffer)@ + component_encoding(component@),
{
    let ghost view = component@;
    let ghost base = buffer@;
    write_array_auto(buffer, 2);
    let ghost mut part = array_header(2);
    write_array_auto(buffer, 1);
    proof {
        lemma_appended(base, part, array_header(1));
        part = part + array_header(1);
    }
    write_int_auto(buffer, component.address.id);
    proof {
        lemma_appended(base, part, int_encoding(view.address.id as int));
        part = part + int_encoding(view.address.id as int);
    }
    write_array_auto(buffer, 7);
    proof {
        lemma_appended(base, part, array_header(7));
        part = part + array_header(7);
    }
    write_array_auto(buffer, 1);
    proof {
        lemma_appended(base, part, array_header(1));
        part = part + array_header(1);
    }
    write_int_16(buffer, component.type_id);
    proof {
        lemma_appended(base, part, seq![0xCDu8] + be_bytes_16(view.type_id as int));
        part = part + (seq![0xCDu8] + be_bytes_16(view.type_id as int));
    }
    write_array_auto(buffer, component.inputs.len() as u32);
    proof {
        lemma_appended(base, part, array_header(view.inputs.len() as u32));
        part = part + array_header(view.inputs.len() as u32);
    }
    write_wrapped(buffer, &component.inputs);
    proof {
        lemma_appended(base, part, wrapped_encoding(view.inputs));
        part = part + wrapped_encoding(view.inputs);
    }
    write_array_auto(buffer, component.outputs.len() as u32);
    proof {
        lemma_appended(base, part, array_header(view.outputs.len() as u32));
        part = part + array_header(view.outputs.len() as u32);
    }
    write_wrapped(buffer, &component.outputs);
    proof {
        lemma_appended(base, part, wrapped_encoding(view.outputs));
        part = part + wrapped_encoding(view.outputs);
        assert(part == component_head_encoding(view));
    }
    let ghost head = part;
    let ghost middle = buffer@;
    write_binary(buffer, component.custom_data.as_slice());
    let ghost mut part = binary_encoding(view.custom_data);
    write_array_auto(buffer, 1);
    proof {
        lemma_appended(middle, part, array_header(1));
        part = part + array_header(1);
    }
    write_int_auto(buffer, component.parent.id);
    proof {
        lemma_appended(middle, part, int_encoding(view.parent.id as int));
        part = part + int_encoding(view.parent.id as int);
    }
    write_array_auto(buffer, 3);
    proof {
        lemma_appended(middle, part, array_header(3));
        part = part + array_header(3);
    }
    write_i32(buffer, component.relative_position.0);
    proof {
        lemma_appended(middle, part, int_encoding(view.relative_position.0 as int));
        part = part + int_encoding(view.relative_position.0 as int);
    }
    write_i32(buffer, component.relative_position.1);
    proof {
        lemma_appended(middle, part, int_encoding(view.relative_position.1 as int));
        part = part + int_encoding(view.relative_position.1 as int);
    }
    write_i32(buffer, component.relative_position.2);
    proof {
        lemma_appended(middle, part, int_encoding(view.relative_position.2 as int));
        part = part + int_encoding(view.relative_position.2 as int);
    }
    write_array_auto(buffer, 4);
    proof {
        lemma_appended(middle, part, array_header(4));
        part = part + array_header(4);
    }
    write_float_auto(buffer, component.relative_alignment.0);
    proof {
        lemma_appended(middle, part, float_32_encoding(view.relative_alignment.0));
        part = part + float_32_encoding(view.relative_alignment.0);
    }
    write_float_auto(buffer, component.relative_alignment.1);
    proof {
        lemma_appended(middle, part, float_32_encoding(view.relative_alignment.1));
        part = part + float_32_encoding(view.relative_alignment.1);
    }
    write_float_auto(buffer, component.relative_alignment.2);
    proof {
        lemma_appended(middle, part, float_32_encoding(view.relative_alignment.2));
        part = part + float_32_encoding(view.relative_alignment.2);
    }
    write_float_auto(buffer, component.relative_alignment.3);
    proof {
        lemma_appended(middle, part, float_32_encoding(view.relative_alignment.3));
        part = part + float_32_encoding(view.relative_alignment.3);
        assert(part == component_tail_encoding(view));
        lemma_appended(base, head, part);
    }
}

fn write_player_position(buffer: &mut Vec<u8>)
    ensures
        final(buffer)@ == old(buffer)@ + player_position_encoding(),
{
    write_array_auto(buffer, 7);
    write_array_auto(buffer, 4);
    write_float_auto(buffer, FLOAT_ZERO);
    write_float_auto(buffer, FLOAT_ZERO);
    write_float_auto(buffer, FLOAT_ZERO);
    write_float_auto(buffer, FLOAT_ONE);
    write_array_auto(buffer, 3);
    write_float_auto(buffer, FLOAT_ZERO);
    write_float_auto(buffer, FLOAT_ONE);
    write_float_auto(buffer, FLOAT_ZERO);
    write_float_auto(buffer, FLOAT_ZERO);
    write_float_auto(buffer, FLOAT_ZERO);
    write_float_auto(buffer, FLOAT_ONE);
    write_bool_auto(buffer, true);
    write_bool_auto(buffer, false);
    assert(buffer@ =~= old(buffer)@ + player_position_encoding());
}

pub struct WorldInitializationPacket<'a> {
    world: &'a World,
}

impl<'a> WorldInitializationPacket<'a> {
    /// The world that the packet ships.
    pub closed spec fn world(&self) -> WorldData {
        self.world@
    }

    pub fn simple(world: &'a World) -> (packet: WorldInitializationPacket<'a>)
        ensures
            packet.world() == world@,
    {
        WorldInitializationPacket { world }
    }

    pub fn write(&self, buffer: &mut Vec<u8>)
        requires
            is_writable(self.world()),
        ensures
            final(buffer)@ == old(buffer)@ + world_encoding(self.world()),
    {
        let ghost world = self.world@;
        proof {
            reveal_strlit("MHG.Gridlands");
            reveal_strlit("EpicUsername");
            lemma_utf8_length("MHG.Gridlands"@);
            lemma_utf8_length("EpicUsername"@);
        }
        let ghost base = buffer@;
        write_int_auto(buffer, PacketIDs::WorldInitialization.id());
        let ghost mut part = int_encoding(18);
        write_array_auto(buffer, 8);
        proof {
            lemma_appended(base, part, array_header(8));
            part = part + array_header(8);
        }
        write_array_auto(buffer, self.world.circuit_states.len() as u32);
        proof {
            lemma_appended(base, part, array_header(world.circuit_states.len() as u32));
            part = part + array_header(world.circuit_states.len() as u32);
        }
        self.write_states(buffer);
        proof {
            lemma_appended(base, part, states_encoding(world.circuit_states));
            part = part + states_encoding(world.circuit_states);
        }
        write_map_auto(buffer, self.world.component_id_map.len() as u32);
        proof {
            lemma_appended(base, part, map_header(world.component_id_map.len() as u32));
            part = part + map_header(world.component_id_map.len() as u32);
        }
        self.write_identifiers(buffer);
        proof {
            lemma_appended(base, part, identifiers_encoding(world.component_id_map));
            part = part + identifiers_encoding(world.component_id_map);
        }
        write_string_auto(buffer, Some("MHG.Gridlands"));
        proof {
            lemma_appended(base, part, string_encoding(Some("MHG.Gridlands"@)));
            part = part + string_encoding(Some("MHG.Gridlands"@));
            assert(part == world_head_encoding(world));
        }
        let ghost head = part;
        let ghost middle = buffer@;
        write_array_auto(buffer, self.world.components.len() as u32);
        let ghost mut part = array_header(world.components.len() as u32);
        self.write_components(buffer);
        proof {
            lemma_appended(middle, part, components_encoding(world.components));
            part = part + components_encoding(world.components);
        }
        write_map_auto(buffer, self.world.wires.len() as u32);
        proof {
            lemma_appended(middle, part, map_header(world.wires.len() as u32));
            part = part + map_header(world.wires.len() as u32);
        }
        self.write_wires(buffer);
        proof {
            lemma_appended(middle, part, wires_encoding(world.wires));
            part = part + wires_encoding(world.wires);
        }
        write_player_position(buffer);
        proof {
            lemma_appended(middle, part, player_position_encoding());
            part = part + player_position_encoding();
        }
        write_null(buffer);
        proof {
            lemma_appended(middle, part, seq![0xC0u8]);
            part = part + seq![0xC0u8];
        }
        write_string_auto(buffer, Some("EpicUsername"));
        proof {
            lemma_appended(middle, part, string_encoding(Some("EpicUsername"@)));
            part = part + string_encoding(Some("EpicUsername"@));
            assert(part == world_tail_encoding(world));
            lemma_appended(base, head, part);
        }
    }

    fn write_states(&self, buffer: &mut Vec<u8>)
        ensures
            final(buffer)@ == old(buffer)@ + states_encoding(self.world@.circuit_states),
    {
        let ghost states = self.world@.circuit_states;
        let mut i: usize = 0;
        assert(states.subrange(0, 0) =~= Seq::empty());
        assert(buffer@ =~= old(buffer)@ + states_encoding(states.subrange(0, 0)));
        while i < self.world.circuit_states.len()
            invariant
                i <= self.world.circuit_states.len(),
                states == self.world@.circuit_states,
                buffer@ == old(buffer)@ + states_encoding(states.subrange(0, i as int)),
            decreases self.world.circuit_states.len() - i,
        {
            let ghost before = states_encoding(states.subrange(0, i as int));
            write_bool(buffer, self.world.circuit_states[i]);
            proof {
                let upto = states.subrange(0, i as int + 1);
                assert(upto.drop_last() =~= states.subrange(0, i as int));
                lemma_appended(old(buffer)@, before, bool_encoding(states[i as int]));
            }
            i += 1;
        }
        assert(states.subrange(0, i as int) =~= states);
    }

    fn write_identifiers(&self, buffer: &mut Vec<u8>)
        requires
            is_writable(self.world@),
        ensures
            final(buffer)@ == old(buffer)@ + identifiers_encoding(self.world@.component_id_map),
    {
        let ghost list = self.world@.component_id_map;
        let mut i: usize = 0;
        assert(list.subrange(0, 0) =~= Seq::empty());
        assert(buffer@ =~= old(buffer)@ + identifiers_encoding(list.subrange(0, 0)));
        while i < self.world.component_id_map.len()
            invariant
                i <= self.world.component_id_map.len(),
                list == self.world@.component_id_map,
                is_writable(self.world@),
                buffer@ == old(buffer)@ + identifiers_encoding(list.subrange(0, i as int)),
            decreases self.world.component_id_map.len() - i,
        {
            let ghost before = identifiers_encoding(list.subrange(0, i as int));
            assert(list[i as int] == (
                self.world.component_id_map@[i as int].0,
                self.world.component_id_map@[i as int].1@,
            ));
            write_int_16(buffer, self.world.component_id_map[i].0);
            write_string_auto(buffer, Some(self.world.component_id_map[i].1.as_str()));
            proof {
                let upto = list.subrange(0, i as int + 1);
                assert(upto.drop_last() =~= list.subrange(0, i as int));
                let id = seq![0xCDu8] + be_bytes_16(list[i as int].0 as int);
                lemma_appended(old(buffer)@, before, id);
                lemma_appended(old(buffer)@, before + id, string_encoding(Some(list[i as int].1)));
            }
            i += 1;
        }
        assert(list.subrange(0, i as int) =~= list);
    }

    fn write_components(&self, buffer: &mut Vec<u8>)
        requires
            is_writable(self.world@),
        ensures
            final(buffer)@ == old(buffer)@ + components_encoding(self.world@.components),
    {
        let ghost list = self.world@.components;
        let mut i: usize = 0;
        assert(list.subrange(0, 0) =~= Seq::empty());
        assert(buffer@ =~= old(buffer)@ + components_encoding(list.subrange(0, 0)));
        while i < self.world.components.len()
            invariant
                i <= self.world.components.len(),
                list == self.world@.components,
                is_writable(self.world@),
                buffer@ == old(buffer)@ + components_encoding(list.subrange(0, i as int)),
            decreases self.world.components.len() - i,
        {
            let ghost before = components_encoding(list.subrange(0, i as int));
            assert(list[i as int] == self.world.components@[i as int]@);
            write_component(buffer, &self.world.components[i]);
            proof {
                let upto = list.subrange(0, i as int + 1);
                assert(upto.drop_last() =~= list.subrange(0, i as int));
                lemma_appended(old(buffer)@, before, component_encoding(list[i as int]));
            }
            i += 1;
        }
        assert(list.subrange(0, i as int) =~= list);
    }

    fn write_wires(&self, buffer: &mut Vec<u8>)
        requires
            is_writable(self.world@),
        ensures
            final(buffer)@ == old(buffer)@ + wires_encoding(self.world@.wires),
    {
        let ghost list = self.world@.wires;
        let mut i: usize = 0;
        assert(list.subrange(0, 0) =~= Seq::empty());
        assert(buffer@ =~= old(buffer)@ + wires_encoding(list.subrange(0, 0)));
        while i < self.world.wires.len()
            invariant
                i <= self.world.wires.len(),
                list == self.world@.wires,
                is_writable(self.world@),
                buffer@ == old(buffer)@ + wires_encoding(list.subrange(0, i as int)),
            decreases self.world.wires.len() - i,
        {
            let ghost before = wires_encoding(list.subrange(0, i as int));
            write_wire(buffer, &self.world.wires[i], (i + 1) as u32);
            proof {
                let upto = list.subrange(0, i as int + 1);
                assert(upto.drop_last() =~= list.subrange(0, i as int));
                lemma_appended(old(buffer)@, before, wire_encoding(list[i as int], i as int + 1));
            }
            i += 1;
        }
        assert(list.subrange(0, i as int) =~= list);
    }
}

} // verus!
