//! The parts of a world. Floats are held as the bit patterns that they have
//! on the wire and in the save file.

use vstd::prelude::*;

verus! {

#[derive(Clone, Copy, Debug, PartialEq, Eq, Structural)]
pub struct ComponentAddress {
    pub id: u32,
}

#[derive(Clone, Copy, Debug, PartialEq, Eq, Structural)]
pub struct PegAddress {
    pub is_input: bool,
    pub component_address: ComponentAddress,
    pub peg_index: u32,
}

#[derive(Clone, Copy, Debug, PartialEq, Eq, Structural)]
pub struct Wire {
    pub peg_a: PegAddress,
    pub peg_b: PegAddress,
    pub circuit_state_id: u32,
    /// A 32-bit float, by its bit pattern.
    pub rotation: u32,
}

/// A colour of three bytes.
#[derive(Clone, Copy, Debug, Default, PartialEq, Eq, Structural)]
pub struct Color24 {
    pub r: u8,
    pub g: u8,
    pub b: u8,
}

pub struct Component {
    pub address: ComponentAddress,
    /// The address of the parent, 0 for the root of the world.
    pub parent: ComponentAddress,
    pub type_id: u16,
    /// In millimetres.
    pub relative_position: (i32, i32, i32),
    /// A quaternion of four 32-bit floats, by their bit patterns.
    pub relative_alignment: (u32, u32, u32, u32),
    pub inputs: Vec<u32>,
    pub outputs: Vec<u32>,
    pub custom_data: Vec<u8>,
}

/// A component as a value.
pub struct ComponentData {
    pub address: ComponentAddress,
    pub parent: ComponentAddress,
    pub type_id: u16,
    pub relative_position: (i32, i32, i32),
    pub relative_alignment: (u32, u32, u32, u32),
    pub inputs: Seq<u32>,
    pub outputs: Seq<u32>,
    pub custom_data: Seq<u8>,
}

impl View for Component {
    type V = ComponentData;

    open spec fn view(&self) -> ComponentData {
        ComponentData {
            address: self.address,
            parent: self.parent,
            type_id: self.type_id,
            relative_position: self.relative_position,
            relative_alignment: self.relative_alignment,
            inputs: self.inputs@,
            outputs: self.outputs@,
            custom_data: self.custom_data@,
        }
    }
}

pub struct World {
    /// The type identifier of each type id, in the order of the save file.
    /// No type id occurs twice.
    pub component_id_map: Vec<(u16, String)>,
    pub components: Vec<Component>,
    pub wires: Vec<Wire>,
    pub circuit_states: Vec<bool>,
}

/// A world as a value.
pub struct WorldData {
    pub component_id_map: Seq<(u16, Seq<char>)>,
    pub components: Seq<ComponentData>,
    pub wires: Seq<Wire>,
    pub circuit_states: Seq<bool>,
}

/// The type ids with the texts of their identifiers.
pub open spec fn identifiers(list: Seq<(u16, String)>) -> Seq<(u16, Seq<char>)> {
    Seq::new(list.len(), |i: int| (list[i].0, list[i].1@))
}

/// The values of a list of components.
pub open spec fn components(list: Seq<Component>) -> Seq<ComponentData> {
    Seq::new(list.len(), |i: int| list[i]@)
}

impl View for World {
    type V = WorldData;

    open spec fn view(&self) -> WorldData {
        WorldData {
            component_id_map: identifiers(self.component_id_map@),
            components: components(self.components@),
            wires: self.wires@,
            circuit_states: self.circuit_states@,
        }
    }
}

} // verus!
