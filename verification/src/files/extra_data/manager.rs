//! The extra data service: it resolves keys to entries, which it creates on
//! first use, checks what a client proposes against the rules of the entry,
//! and answers with the value that the server holds.

use crate::files::extra_data::entries::display_configuration::{
    colors_encoding, DisplayConfiguration, DisplayConfigurationValue,
};
use crate::files::extra_data::entries::display_configurations_order::{
    indices_encoding, DisplayConfigurationsOrder, DisplayConfigurationsOrderValue,
};
use crate::files::extra_data::entries::flag_list_order::FlagListOrder;
use crate::files::extra_data::entries::simulation_paused::SimulationPaused;
use crate::files::extra_data::entries::simulation_speed::{is_below_zero, SimulationSpeed};
use crate::files::extra_data::entries::world_type_data::WorldTypeDataGridlands;
use crate::files::extra_data::entries::{
    display_configuration, display_configurations_order, flag_list_order, simulation_paused,
    simulation_speed, world_type_data,
};
use crate::lidgren::connected_client::ClientState;
use crate::lidgren::data_types::RemoteAddress;
use crate::lidgren::lidgren_server::{ServerInstance, ServerState};
use crate::network::message_pack::writer::{array_header, bool_encoding, float_64_encoding};
use crate::network::packets::c2s::extra_data_change::ExtraDataChange;
use crate::network::packets::c2s::extra_data_request::{ExtraDataMessage, ExtraDataRequest};
use crate::network::packets::s2c::extra_data_update::{
    is_writable, update_encoding, ExtraDataUpdate,
};
use crate::network::packets::s2c::world_initialization_packet::wrapped_encoding;
use crate::util::association::{
    as_map, distinct_keys, lemma_absent, lemma_entry, lemma_push, lemma_update,
};
use crate::util::error_handling::SuccError;
use crate::util::byte_order::{lemma_two_to_grows, two_to};
use crate::util::succ::succ_types::{last_with_key, lookup, spec_bool, SuccType};
use crate::util::text::is_text;
use vstd::prelude::*;
use vstd::string::*;
use vstd::utf8::encode_utf8;

verus! {

/// An extra data entry of one of the six kinds.
pub enum GenericExtraData {
    SimulationPaused(SimulationPaused),
    SimulationSpeed(SimulationSpeed),
    FlagListOrder(FlagListOrder),
    WorldTypeData(WorldTypeDataGridlands),
    DisplayConfiguration(DisplayConfiguration),
    DisplayConfigurationsOrder(DisplayConfigurationsOrder),
}

/// The entries of a SUCC node that counts as a list: an empty node is the
/// empty list.
pub open spec fn list_of(data: SuccType) -> Option<Seq<SuccType>> {
    match data {
        SuccType::Any => Some(Seq::empty()),
        SuccType::List(entries) => Some(entries@),
        _ => None,
    }
}

/// The entries of a SUCC node that counts as a map: an empty node is the
/// empty map.
pub open spec fn map_of(data: SuccType) -> Option<Seq<(String, SuccType)>> {
    match data {
        SuccType::Any => Some(Seq::empty()),
        SuccType::Mapping(entries) => Some(entries@),
        _ => None,
    }
}

/// The `Data` of a SUCC file, if the file has one and declares, as its
/// `DataType`, the type `file_type`.
pub open spec fn data_of(entries: Seq<(String, SuccType)>, file_type: Seq<char>) -> Option<
    SuccType,
> {
    match last_with_key(entries, "DataType"@) {
        Some(declared) => match entries[declared].1 {
            SuccType::Value(text) => if text@ == file_type {
                match last_with_key(entries, "Data"@) {
                    Some(data) => Some(entries[data].1),
                    None => None,
                }
            } else {
                None
            },
            _ => None,
        },
        None => None,
    }
}

/// An extra data entry as a value.
pub enum EntryValue {
    SimulationPaused(bool),
    /// The bit pattern of a 64-bit float.
    SimulationSpeed(u64),
    FlagListOrder(Seq<u32>),
    WorldTypeData(WorldTypeDataGridlands),
    DisplayConfiguration(DisplayConfigurationValue),
    DisplayConfigurationsOrder(DisplayConfigurationsOrderValue),
}

impl View for GenericExtraData {
    type V = EntryValue;

    open spec fn view(&self) -> EntryValue {
        match self {
            GenericExtraData::SimulationPaused(entry) => EntryValue::SimulationPaused(entry.paused),
            GenericExtraData::SimulationSpeed(entry) => EntryValue::SimulationSpeed(entry.speed),
            GenericExtraData::FlagListOrder(entry) => EntryValue::FlagListOrder(entry@),
            GenericExtraData::WorldTypeData(entry) => EntryValue::WorldTypeData(*entry),
            GenericExtraData::DisplayConfiguration(entry) => EntryValue::DisplayConfiguration(
                entry@,
            ),
            GenericExtraData::DisplayConfigurationsOrder(
                entry,
            ) => EntryValue::DisplayConfigurationsOrder(entry@),
        }
    }
}

impl EntryValue {
    /// Whether the entry takes the bytes as the default that a client proposes.
    pub open spec fn accepts_default(self, bytes: Seq<u8>) -> bool {
        match self {
            EntryValue::SimulationPaused(_) => simulation_paused::spec_parse(bytes) is Ok,
            EntryValue::SimulationSpeed(_) => simulation_speed::spec_parse(bytes) is Ok,
            EntryValue::FlagListOrder(_) => flag_list_order::spec_parse(bytes) matches Ok(flags)
                && flags.len() == 0,
            EntryValue::WorldTypeData(_) => world_type_data::spec_parse(bytes) is Ok,
            EntryValue::DisplayConfiguration(entry) => display_configuration::spec_accepts(
                entry.peg_count,
                bytes,
            ),
            EntryValue::DisplayConfigurationsOrder(_) => display_configurations_order::spec_parse(
                bytes,
            ) is Ok,
        }
    }

    /// The entry after a client has proposed the bytes as its new value, if
    /// the entry takes them.
    pub open spec fn updated(self, bytes: Seq<u8>) -> Option<EntryValue> {
        match self {
            EntryValue::SimulationPaused(_) => match simulation_paused::spec_parse(bytes) {
                Ok(paused) => Some(EntryValue::SimulationPaused(paused)),
                Err(_) => None,
            },
            EntryValue::SimulationSpeed(_) => match simulation_speed::spec_parse(bytes) {
                Ok(speed) => if is_below_zero(speed) {
                    None
                } else {
                    Some(EntryValue::SimulationSpeed(speed))
                },
                Err(_) => None,
            },
            EntryValue::FlagListOrder(_) => match flag_list_order::spec_parse(bytes) {
                Ok(flags) => Some(EntryValue::FlagListOrder(flags)),
                Err(_) => None,
            },
            EntryValue::WorldTypeData(_) => match world_type_data::spec_parse(bytes) {
                Ok(data) => Some(EntryValue::WorldTypeData(data)),
                Err(_) => None,
            },
            EntryValue::DisplayConfiguration(entry) => if display_configuration::spec_accepts(
                entry.peg_count,
                bytes,
            ) {
                Some(
                    EntryValue::DisplayConfiguration(
                        DisplayConfigurationValue {
                            colors: Some(display_configuration::spec_parse(bytes)->Ok_0),
                            ..entry
                        },
                    ),
                )
            } else {
                None
            },
            EntryValue::DisplayConfigurationsOrder(
                entry,
            ) => match display_configurations_order::spec_parse(bytes) {
                Ok(list) => Some(
                    EntryValue::DisplayConfigurationsOrder(
                        DisplayConfigurationsOrderValue { list: Some(list), ..entry },
                    ),
                ),
                Err(_) => None,
            },
        }
    }

    /// The entry after it has taken its value from the `Data` of a SUCC
    /// file, or why it has not. The speed of the simulation is a float and
    /// is not taken from a tree.
    pub open spec fn loaded(self, data: SuccType) -> Result<EntryValue, SuccError> {
        match self {
            EntryValue::SimulationPaused(_) => match data {
                SuccType::Value(text) => match spec_bool(text@) {
                    Some(paused) => Ok(EntryValue::SimulationPaused(paused)),
                    None => Err(SuccError::WrongValue),
                },
                _ => Err(SuccError::WrongKind),
            },
            EntryValue::SimulationSpeed(_) => Err(SuccError::WrongKind),
            EntryValue::FlagListOrder(_) => match list_of(data) {
                Some(entries) => match flag_list_order::spec_load(entries, 0, Seq::empty()) {
                    Ok(flags) => Ok(EntryValue::FlagListOrder(flags)),
                    Err(e) => Err(e),
                },
                None => Err(SuccError::WrongKind),
            },
            EntryValue::WorldTypeData(_) => match data {
                SuccType::Mapping(entries) => match world_type_data::spec_load(entries@) {
                    Ok(loaded) => Ok(EntryValue::WorldTypeData(loaded)),
                    Err(e) => Err(e),
                },
                SuccType::Any => Err(SuccError::MissingEntry),
                _ => Err(SuccError::WrongKind),
            },
            EntryValue::DisplayConfiguration(entry) => match list_of(data) {
                Some(entries) => match display_configuration::spec_load(
                    entries,
                    0,
                    Seq::empty(),
                ) {
                    Ok(colors) => if colors.len() == two_to(entry.peg_count as nat) {
                        Ok(
                            EntryValue::DisplayConfiguration(
                                DisplayConfigurationValue { colors: Some(colors), ..entry },
                            ),
                        )
                    } else {
                        Err(SuccError::WrongValue)
                    },
                    Err(e) => Err(e),
                },
                None => Err(SuccError::WrongKind),
            },
            EntryValue::DisplayConfigurationsOrder(entry) => match list_of(data) {
                Some(entries) => match display_configurations_order::spec_load(
                    entries,
                    0,
                    Seq::empty(),
                ) {
                    Ok(list) => Ok(
                        EntryValue::DisplayConfigurationsOrder(
                            DisplayConfigurationsOrderValue { list: Some(list), ..entry },
                        ),
                    ),
                    Err(e) => Err(e),
                },
                None => Err(SuccError::WrongKind),
            },
        }
    }

    /// Whether two entries are of one kind: the same of the six, and, where
    /// they belong to displays, with the same number of pegs and the same
    /// number of the configuration.
    pub open spec fn same_kind(self, other: EntryValue) -> bool {
        match self {
            EntryValue::SimulationPaused(_) => other is SimulationPaused,
            EntryValue::SimulationSpeed(_) => other is SimulationSpeed,
            EntryValue::FlagListOrder(_) => other is FlagListOrder,
            EntryValue::WorldTypeData(_) => other is WorldTypeData,
            EntryValue::DisplayConfiguration(entry) => other matches EntryValue::DisplayConfiguration(
                twin,
            ) && twin.peg_count == entry.peg_count && twin.configuration_index
                == entry.configuration_index,
            EntryValue::DisplayConfigurationsOrder(
                entry,
            ) => other matches EntryValue::DisplayConfigurationsOrder(twin) && twin.peg_count
                == entry.peg_count,
        }
    }

    /// Whether the entry holds a value.
    pub open spec fn has_value(self) -> bool {
        match self {
            EntryValue::DisplayConfiguration(entry) => entry.colors is Some,
            EntryValue::DisplayConfigurationsOrder(entry) => entry.list is Some,
            _ => true,
        }
    }

    /// Whether the entry holds a value whose list, if it is one, has a
    /// length of 32 bits.
    pub open spec fn can_serialize(self) -> bool {
        match self {
            EntryValue::FlagListOrder(flags) => flags.len() <= 0xFFFF_FFFF,
            EntryValue::DisplayConfiguration(entry) => entry.colors matches Some(colors)
                && colors.len() <= 0xFFFF_FFFF,
            EntryValue::DisplayConfigurationsOrder(entry) => entry.list matches Some(list)
                && list.len() <= 0xFFFF_FFFF,
            _ => true,
        }
    }

    /// The value of the entry in MessagePack.
    pub open spec fn encoding(self) -> Seq<u8> {
        match self {
            EntryValue::SimulationPaused(paused) => bool_encoding(paused),
            EntryValue::SimulationSpeed(speed) => float_64_encoding(speed),
            EntryValue::FlagListOrder(flags) => array_header(flags.len() as u32)
                + wrapped_encoding(flags),
            EntryValue::WorldTypeData(data) => world_type_data::encoding(data),
            EntryValue::DisplayConfiguration(entry) => array_header(
                entry.colors->Some_0.len() as u32,
            ) + colors_encoding(entry.colors->Some_0),
            EntryValue::DisplayConfigurationsOrder(entry) => array_header(
                entry.list->Some_0.len() as u32,
            ) + indices_encoding(entry.list->Some_0),
        }
    }

    /// The key under which the entry goes over the wire.
    pub open spec fn key(self) -> Seq<char> {
        match self {
            EntryValue::SimulationPaused(_) => simulation_paused::KEY@,
            EntryValue::SimulationSpeed(_) => simulation_speed::KEY@,
            EntryValue::FlagListOrder(_) => flag_list_order::KEY@,
            EntryValue::WorldTypeData(_) => world_type_data::KEY@,
            EntryValue::DisplayConfiguration(entry) => display_configuration::spec_key(
                entry.peg_count,
                entry.configuration_index,
            ),
            EntryValue::DisplayConfigurationsOrder(entry) => display_configurations_order::spec_key(
                entry.peg_count,
            ),
        }
    }

    /// The name of the type of the entry on the wire.
    pub open spec fn network_type(self) -> Seq<char> {
        match self {
            EntryValue::SimulationPaused(_) => simulation_paused::TYPE@,
            EntryValue::SimulationSpeed(_) => simulation_speed::TYPE@,
            EntryValue::FlagListOrder(_) => flag_list_order::TYPE@,
            EntryValue::WorldTypeData(_) => world_type_data::TYPE@,
            EntryValue::DisplayConfiguration(_) => display_configuration::TYPE@,
            EntryValue::DisplayConfigurationsOrder(_) => display_configurations_order::TYPE@,
        }
    }

    /// The name of the type of the entry in a file.
    pub open spec fn file_type(self) -> Seq<char> {
        match self {
            EntryValue::FlagListOrder(_) => flag_list_order::FILE_TYPE@,
            _ => self.network_type(),
        }
    }

    /// The update that tells a client the value of the entry.
    pub open spec fn packed(self) -> ExtraDataMessage {
        ExtraDataMessage {
            key: self.key(),
            data_type: self.network_type(),
            data: self.encoding(),
        }
    }
}

impl GenericExtraData {
    pub fn validate_default_bytes(&self, bytes: &[u8]) -> (valid: bool)
        ensures
            valid == self@.accepts_default(bytes@),
    {
        match self {
            GenericExtraData::SimulationPaused(entry) => entry.validate_default_bytes(bytes),
            GenericExtraData::SimulationSpeed(entry) => entry.validate_default_bytes(bytes),
            GenericExtraData::FlagListOrder(entry) => entry.validate_default_bytes(bytes),
            GenericExtraData::WorldTypeData(entry) => entry.validate_default_bytes(bytes),
            GenericExtraData::DisplayConfiguration(entry) => entry.validate_default_bytes(bytes),
            GenericExtraData::DisplayConfigurationsOrder(entry) => entry.validate_default_bytes(
                bytes,
            ),
        }
    }

    pub fn update_bytes_if_valid(&mut self, bytes: &[u8]) -> (valid: bool)
        ensures
            valid == old(self)@.updated(bytes@) is Some,
            final(self)@ == match old(self)@.updated(bytes@) {
                Some(entry) => entry,
                None => old(self)@,
            },
    {
        match self {
            GenericExtraData::SimulationPaused(entry) => entry.update_bytes_if_valid(bytes),
            GenericExtraData::SimulationSpeed(entry) => entry.update_bytes_if_valid(bytes),
            GenericExtraData::FlagListOrder(entry) => entry.update_bytes_if_valid(bytes),
            GenericExtraData::WorldTypeData(entry) => entry.update_bytes_if_valid(bytes),
            GenericExtraData::DisplayConfiguration(entry) => entry.update_bytes_if_valid(bytes),
            GenericExtraData::DisplayConfigurationsOrder(entry) => entry.update_bytes_if_valid(
                bytes,
            ),
        }
    }

    /// Takes the value from the `Data` entry of a SUCC file. The speed of
    /// the simulation is a float and is not taken here.
    pub fn load_from_file(&mut self, data: &SuccType) -> (r: Result<(), SuccError>)
        ensures
            match old(self)@.loaded(*data) {
                Ok(entry) => r is Ok && final(self)@ == entry,
                Err(e) => r == Err::<(), SuccError>(e) && final(self)@ == old(self)@,
            },
    {
        proof {
            if let EntryValue::DisplayConfiguration(entry) = self@ {
                lemma_two_to_grows(0, entry.peg_count as nat);
            }
        }
        match self {
            GenericExtraData::SimulationPaused(entry) => entry.load_from_file(data),
            GenericExtraData::SimulationSpeed(_) => Err(SuccError::WrongKind),
            GenericExtraData::FlagListOrder(entry) => entry.load_from_file(data),
            GenericExtraData::WorldTypeData(entry) => entry.load_from_file(data),
            GenericExtraData::DisplayConfiguration(entry) => entry.load_from_file(data),
            GenericExtraData::DisplayConfigurationsOrder(entry) => entry.load_from_file(data),
        }
    }

    pub fn key(&self) -> (key: String)
        ensures
            key@ == self@.key(),
    {
        match self {
            GenericExtraData::SimulationPaused(entry) => entry.key(),
            GenericExtraData::SimulationSpeed(entry) => entry.key(),
            GenericExtraData::FlagListOrder(entry) => entry.key(),
            GenericExtraData::WorldTypeData(entry) => entry.key(),
            GenericExtraData::DisplayConfiguration(entry) => entry.key(),
            GenericExtraData::DisplayConfigurationsOrder(entry) => entry.key(),
        }
    }

    pub fn data_type_network(&self) -> (name: &'static str)
        ensures
            name@ == self@.network_type(),
    {
        match self {
            GenericExtraData::SimulationPaused(entry) => entry.data_type_network(),
            GenericExtraData::SimulationSpeed(entry) => entry.data_type_network(),
            GenericExtraData::FlagListOrder(entry) => entry.data_type_network(),
            GenericExtraData::WorldTypeData(entry) => entry.data_type_network(),
            GenericExtraData::DisplayConfiguration(entry) => entry.data_type_network(),
            GenericExtraData::DisplayConfigurationsOrder(entry) => entry.data_type_network(),
        }
    }

    pub fn data_type_file(&self) -> (name: &'static str)
        ensures
            name@ == self@.file_type(),
    {
        match self {
            GenericExtraData::SimulationPaused(entry) => entry.data_type_file(),
            GenericExtraData::SimulationSpeed(entry) => entry.data_type_file(),
            GenericExtraData::FlagListOrder(entry) => entry.data_type_file(),
            GenericExtraData::WorldTypeData(entry) => entry.data_type_file(),
            GenericExtraData::DisplayConfiguration(entry) => entry.data_type_file(),
            GenericExtraData::DisplayConfigurationsOrder(entry) => entry.data_type_file(),
        }
    }

    /// Whether the entry holds a value.
    pub fn has_value(&self) -> (r: bool)
        ensures
            r == self@.has_value(),
    {
        match self {
            GenericExtraData::DisplayConfiguration(entry) => entry.has_data(),
            GenericExtraData::DisplayConfigurationsOrder(entry) => entry.has_data(),
            _ => true,
        }
    }

    /// Whether the entry holds a value whose list, if it is one, has a
    /// length of 32 bits.
    pub fn can_serialize(&self) -> (r: bool)
        ensures
            r == self@.can_serialize(),
    {
        match self {
            GenericExtraData::FlagListOrder(entry) => entry.flags.len() <= 0xFFFF_FFFF,
            GenericExtraData::DisplayConfiguration(entry) => match &entry.data {
                Some(data) => data.colors.len() <= 0xFFFF_FFFF,
                None => false,
            },
            GenericExtraData::DisplayConfigurationsOrder(entry) => match &entry.data {
                Some(data) => data.list.len() <= 0xFFFF_FFFF,
                None => false,
            },
            _ => true,
        }
    }

    pub fn serialize_data(&self) -> (buffer: Vec<u8>)
        requires
            self@.can_serialize(),
        ensures
            buffer@ == self@.encoding(),
    {
        match self {
            GenericExtraData::SimulationPaused(entry) => entry.serialize_data(),
            GenericExtraData::SimulationSpeed(entry) => entry.serialize_data(),
            GenericExtraData::FlagListOrder(entry) => entry.serialize_data(),
            GenericExtraData::WorldTypeData(entry) => entry.serialize_data(),
            GenericExtraData::DisplayConfiguration(entry) => entry.serialize_data(),
            GenericExtraData::DisplayConfigurationsOrder(entry) => entry.serialize_data(),
        }
    }
}

/// Whether the character is a decimal digit.
pub open spec fn is_digit(c: char) -> bool {
    '0' <= c <= '9'
}

/// How many decimal digits stand in the text from `from` on, one behind the other.
pub open spec fn digit_count(text: Seq<char>, from: int) -> int
    decreases text.len() - from,
{
    if 0 <= from < text.len() && is_digit(text[from]) {
        1 + digit_count(text, from + 1)
    } else {
        0
    }
}

/// The number that the decimal digits of the text from `from` up to `to` spell.
pub open spec fn digits_value(text: Seq<char>, from: int, to: int) -> int
    decreases to - from,
{
    if to <= from {
        0
    } else {
        digits_value(text, from, to - 1) * 10 + (text[to - 1] as u32 - '0' as u32)
    }
}

/// Whether `part` stands in the text at `at`.
pub open spec fn stands_at(text: Seq<char>, part: Seq<char>, at: int) -> bool {
    0 <= at && at + part.len() <= text.len() && text.subrange(at, at + part.len()) == part
}

/// The most digits that the number of pegs may have in a key.
pub const MAXIMUM_PEG_DIGITS: usize = 1000;

/// The most digits that the number of a configuration may have in a key.
pub const MAXIMUM_INDEX_DIGITS: usize = 1000000;

/// The new entry for the key of a display configuration or of an order of
/// display configurations: `MHG.DisplayConfigurations/`, the number of pegs,
/// and then either `_pegs/_Order` or `_pegs/Configuration` and a number.
pub open spec fn spec_display_entry(key: Seq<char>) -> Option<EntryValue> {
    let prefix = "MHG.DisplayConfigurations/"@;
    let from = prefix.len() as int;
    let count = digit_count(key, from);
    let at = from + count;
    let pegs = digits_value(key, from, at);
    let index_from = at + "_pegs/Configuration"@.len();
    let index = digits_value(key, index_from, key.len() as int);
    if !stands_at(key, prefix, 0) || count == 0 || count > MAXIMUM_PEG_DIGITS || pegs
        > u32::MAX {
        None
    } else if key.subrange(at, key.len() as int) == "_pegs/_Order"@ {
        Some(
            EntryValue::DisplayConfigurationsOrder(
                DisplayConfigurationsOrderValue { peg_count: pegs as u32, list: None },
            ),
        )
    } else if stands_at(key, "_pegs/Configuration"@, at) && index_from < key.len() && key.len()
        - index_from <= MAXIMUM_INDEX_DIGITS && digit_count(key, index_from) == key.len()
        - index_from && index <= u32::MAX {
        Some(
            EntryValue::DisplayConfiguration(
                DisplayConfigurationValue {
                    peg_count: pegs as u32,
                    configuration_index: index as u32,
                    colors: None,
                },
            ),
        )
    } else {
        None
    }
}

/// The entry that is created for a key on its first use, if the key names one.
pub open spec fn spec_new_entry(key: Seq<char>) -> Option<EntryValue> {
    if key == simulation_paused::KEY@ {
        Some(EntryValue::SimulationPaused(false))
    } else if key == flag_list_order::KEY@ {
        Some(EntryValue::FlagListOrder(Seq::empty()))
    } else if key == simulation_speed::KEY@ {
        Some(EntryValue::SimulationSpeed(0))
    } else if key == world_type_data::KEY@ {
        Some(
            EntryValue::WorldTypeData(
                WorldTypeDataGridlands {
                    color_a: crate::files::world_data::world_structs::Color24 { r: 80, g: 0, b: 0 },
                    color_b: crate::files::world_data::world_structs::Color24 { r: 0, g: 80, b: 0 },
                    side_x: 16,
                    side_z: 32,
                },
            ),
        )
    } else {
        spec_display_entry(key)
    }
}

/// Whether every entry is of the kind that its key names.
pub open spec fn kinds_fit(entries: Map<Seq<char>, EntryValue>) -> bool {
    forall|key: Seq<char>| #[trigger]
        entries.dom().contains(key) ==> spec_new_entry(key) is Some && entries[key].same_kind(
            spec_new_entry(key)->Some_0,
        )
}

/// The entries with the entry for `key`, which is created if the key names
/// an entry that is not there yet.
pub open spec fn resolved(entries: Map<Seq<char>, EntryValue>, key: Seq<char>) -> Map<
    Seq<char>,
    EntryValue,
> {
    if entries.dom().contains(key) || spec_new_entry(key) is None {
        entries
    } else {
        entries.insert(key, spec_new_entry(key)->Some_0)
    }
}

/// A client asks for the value under a key and proposes a default: the
/// entries afterwards, and the update to send back, if the request is in
/// order. An entry that holds no value yet takes the default as its value.
pub open spec fn requested(entries: Map<Seq<char>, EntryValue>, request: ExtraDataMessage) -> (
    Map<Seq<char>, EntryValue>,
    Option<ExtraDataMessage>,
) {
    let known = resolved(entries, request.key);
    if !known.dom().contains(request.key) {
        (known, None)
    } else {
        let entry = known[request.key];
        if entry.network_type() != request.data_type || !entry.accepts_default(request.data) {
            (known, None)
        } else {
            let settled = if entry.has_value() {
                entry
            } else {
                match entry.updated(request.data) {
                    Some(adopted) => adopted,
                    None => entry,
                }
            };
            (
                known.insert(request.key, settled),
                if settled.can_serialize() {
                    Some(settled.packed())
                } else {
                    None
                },
            )
        }
    }
}

/// A client proposes a new value under a key: the entries afterwards, and
/// the update to send back, if the change is in order.
pub open spec fn changed(entries: Map<Seq<char>, EntryValue>, change: ExtraDataMessage) -> (
    Map<Seq<char>, EntryValue>,
    Option<ExtraDataMessage>,
) {
    let known = resolved(entries, change.key);
    if !known.dom().contains(change.key) {
        (known, None)
    } else {
        let entry = known[change.key];
        if entry.network_type() != change.data_type {
            (known, None)
        } else {
            match entry.updated(change.data) {
                Some(settled) => (
                    known.insert(change.key, settled),
                    if settled.can_serialize() {
                        Some(settled.packed())
                    } else {
                        None
                    },
                ),
                None => (known, None),
            }
        }
    }
}

/// The tree `root` of a SUCC file whose name spells `key` is loaded: the
/// entries afterwards, and whether the entry under the key took a value. A
/// file whose key names no entry, which does not declare the file type of
/// its entry, or which has no `Data`, is passed over.
pub open spec fn loaded_from(entries: Map<Seq<char>, EntryValue>, key: Seq<char>, root: SuccType)
    -> (Map<Seq<char>, EntryValue>, Result<bool, SuccError>) {
    let known = resolved(entries, key);
    match map_of(root) {
        Some(list) => if !known.dom().contains(key) {
            (known, Ok(false))
        } else {
            match data_of(list, known[key].file_type()) {
                Some(data) => match known[key].loaded(data) {
                    Ok(entry) => (known.insert(key, entry), Ok(true)),
                    Err(e) => (known, Err(e)),
                },
                None => (known, Ok(false)),
            }
        },
        None => (known, Err(SuccError::WrongKind)),
    }
}

/// One file of the extra data is taken at startup: the entries afterwards,
/// and whether the entry under the key took a value. The file of the speed
/// of the simulation holds a float, which is read elsewhere: `speed` is its
/// bit pattern, where the text of the file spells one. That entry takes
/// `speed`, unless it is less than zero; every other file is loaded as
/// `loaded_from` says.
pub open spec fn file_loaded(
    entries: Map<Seq<char>, EntryValue>,
    key: Seq<char>,
    root: SuccType,
    speed: Option<u64>,
) -> (Map<Seq<char>, EntryValue>, Result<bool, SuccError>) {
    if key == simulation_speed::KEY@ {
        let known = resolved(entries, key);
        match map_of(root) {
            Some(list) => match data_of(list, simulation_speed::TYPE@) {
                Some(data) => match data {
                    SuccType::Value(_) => match speed {
                        Some(bits) => if is_below_zero(bits) {
                            (known, Err(SuccError::WrongValue))
                        } else {
                            (known.insert(key, EntryValue::SimulationSpeed(bits)), Ok(true))
                        },
                        None => (known, Err(SuccError::WrongValue)),
                    },
                    _ => (known, Err(SuccError::WrongKind)),
                },
                None => (known, Ok(false)),
            },
            None => (known, Err(SuccError::WrongKind)),
        }
    } else {
        loaded_from(entries, key, root)
    }
}

/// The files from the number `from` on are taken one after the other,
/// starting with `entries`: the entries at the end, or the error of the
/// first file that cannot be taken.
pub open spec fn initialized(
    files: Seq<(String, SuccType)>,
    from: int,
    speed: Option<u64>,
    entries: Map<Seq<char>, EntryValue>,
) -> Result<Map<Seq<char>, EntryValue>, SuccError>
    decreases files.len() - from,
{
    if from < 0 || from >= files.len() {
        Ok(entries)
    } else {
        match file_loaded(entries, files[from].0@, files[from].1, speed) {
            (next, Ok(_)) => initialized(files, from + 1, speed, next),
            (_, Err(e)) => Err(e),
        }
    }
}

/// An entry that takes a new value stays of its kind.
pub proof fn lemma_updated_keeps_kind(entry: EntryValue, bytes: Seq<u8>)
    ensures
        entry.updated(bytes) matches Some(next) ==> next.same_kind(entry),
{
}

/// An entry that takes its value from a file stays of its kind.
pub proof fn lemma_loaded_keeps_kind(entry: EntryValue, data: SuccType)
    ensures
        entry.loaded(data) matches Ok(next) ==> next.same_kind(entry),
{
}

/// Each of the four fixed keys names its entry.
pub proof fn lemma_fixed_keys()
    ensures
        spec_new_entry(simulation_paused::KEY@) == Some(EntryValue::SimulationPaused(false)),
        spec_new_entry(flag_list_order::KEY@) == Some(EntryValue::FlagListOrder(Seq::empty())),
        spec_new_entry(simulation_speed::KEY@) == Some(EntryValue::SimulationSpeed(0)),
        spec_new_entry(world_type_data::KEY@) is Some,
        spec_new_entry(world_type_data::KEY@)->Some_0 is WorldTypeData,
{
    reveal_strlit("MHG.SimulationSpeed");
    reveal_strlit("MHG.SimulationPaused");
    reveal_strlit("MHG.FlagListOrder");
    reveal_strlit("MHG.WorldTypeData");
    assert(simulation_speed::KEY@.len() == 19);
    assert(simulation_paused::KEY@.len() == 20);
    assert(flag_list_order::KEY@.len() == 17);
    assert(world_type_data::KEY@.len() == 17);
    assert(flag_list_order::KEY@[4] == 'F');
    assert(world_type_data::KEY@[4] == 'W');
}

/// Where every entry is of the kind that its key names, this stays so when
/// a key is resolved.
pub proof fn lemma_resolved_fits(entries: Map<Seq<char>, EntryValue>, key: Seq<char>)
    requires
        kinds_fit(entries),
    ensures
        kinds_fit(resolved(entries, key)),
{
}

/// Where every entry is of the kind that its key names, this stays so when
/// a client asks for a value.
pub proof fn lemma_requested_fits(entries: Map<Seq<char>, EntryValue>, request: ExtraDataMessage)
    requires
        kinds_fit(entries),
    ensures
        kinds_fit(requested(entries, request).0),
{
    let known = resolved(entries, request.key);
    lemma_resolved_fits(entries, request.key);
    if known.dom().contains(request.key) {
        lemma_updated_keeps_kind(known[request.key], request.data);
    }
}

/// Where every entry is of the kind that its key names, this stays so when
/// a client proposes a new value.
pub proof fn lemma_changed_fits(entries: Map<Seq<char>, EntryValue>, change: ExtraDataMessage)
    requires
        kinds_fit(entries),
    ensures
        kinds_fit(changed(entries, change).0),
{
    let known = resolved(entries, change.key);
    lemma_resolved_fits(entries, change.key);
    if known.dom().contains(change.key) {
        lemma_updated_keeps_kind(known[change.key], change.data);
    }
}

/// Where every entry is of the kind that its key names, this stays so when
/// a file is taken.
pub proof fn lemma_file_loaded_fits(
    entries: Map<Seq<char>, EntryValue>,
    key: Seq<char>,
    root: SuccType,
    speed: Option<u64>,
)
    requires
        kinds_fit(entries),
    ensures
        kinds_fit(loaded_from(entries, key, root).0),
        kinds_fit(file_loaded(entries, key, root, speed).0),
{
    let known = resolved(entries, key);
    lemma_resolved_fits(entries, key);
    lemma_fixed_keys();
    if known.dom().contains(key) {
        if let Some(list) = map_of(root) {
            if let Some(data) = data_of(list, known[key].file_type()) {
                lemma_loaded_keeps_kind(known[key], data);
            }
        }
    }
}

/// What the server holds after an update was handed to it for `address`:
/// where the update can be written and `address` is connected, the update
/// has joined what the connection sends.
pub open spec fn replied(server: ServerState, address: RemoteAddress, update: Option<
    ExtraDataMessage,
>) -> ServerState {
    match update {
        Some(message) => if is_writable(message) && update_encoding(message).len() <= 0x1FFF_FFFF
            && server.clients.dom().contains(address) {
            ServerState {
                clients: server.clients.insert(
                    address,
                    server.clients[address].send(update_encoding(message)),
                ),
                ..server
            }
        } else {
            server
        },
        None => server,
    }
}

spec fn entry_pairs(entries: Seq<(String, GenericExtraData)>) -> Seq<(Seq<char>, EntryValue)> {
    Seq::new(entries.len(), |i: int| (entries[i].0@, entries[i].1@))
}

/// Whether `part` stands in the text at `at`.
fn part_stands_at(text: &str, part: &str, at: usize) -> (r: bool)
    ensures
        r == stands_at(text@, part@, at as int),
{
    let length = text.unicode_len();
    let part_length = part.unicode_len();
    if at > length || part_length > length - at {
        return false;
    }
    let mut i: usize = 0;
    while i < part_length
        invariant
            i <= part_length,
            part_length == part@.len(),
            length == text@.len(),
            at + part_length <= length,
            forall|k: int| 0 <= k < i ==> text@[at + k] == part@[k],
        decreases part_length - i,
    {
        if text.get_char(at + i) != part.get_char(i) {
            assert(text@.subrange(at as int, at + part@.len())[i as int] != part@[i as int]);
            return false;
        }
        i += 1;
    }
    assert(text@.subrange(at as int, at + part@.len()) =~= part@);
    true
}

/// Reads the decimal digits that stand in the text from `from` on. Returns
/// how many there are and their number, if it fits 32 bits.
fn read_digits(text: &str, from: usize) -> (r: (usize, Option<u32>))
    requires
        from <= text@.len(),
    ensures
        r.0 == digit_count(text@, from as int),
        from + r.0 <= text@.len(),
        match r.1 {
            Some(value) => value == digits_value(text@, from as int, from + r.0),
            None => digits_value(text@, from as int, from + r.0) > u32::MAX,
        },
{
    let length = text.unicode_len();
    let mut at: usize = from;
    let mut value: u64 = 0;
    let mut fits = true;
    loop
        invariant
            from <= at <= length,
            length == text@.len(),
            digit_count(text@, from as int) == (at - from) + digit_count(text@, at as int),
            fits ==> value == digits_value(text@, from as int, at as int) && value <= u32::MAX,
            !fits ==> digits_value(text@, from as int, at as int) > u32::MAX,
        ensures
            from <= at <= length,
            at - from == digit_count(text@, from as int),
            fits ==> value == digits_value(text@, from as int, at as int) && value <= u32::MAX,
            !fits ==> digits_value(text@, from as int, at as int) > u32::MAX,
        decreases length - at,
    {
        if at >= length {
            break ;
        }
        let c = text.get_char(at);
        if !('0' <= c && c <= '9') {
            break ;
        }
        let digit: u64 = (c as u32 - '0' as u32) as u64;
        if fits {
            value = value * 10 + digit;
            if value > 0xFFFF_FFFF {
                fits = false;
            }
        }
        at += 1;
    }
    (
        at - from,
        if fits {
            Some(value as u32)
        } else {
            None
        },
    )
}

/// The new entry for the key of a display configuration or of an order of
/// display configurations.
fn display_entry(key: &str) -> (r: Option<GenericExtraData>)
    ensures
        match spec_display_entry(key@) {
            Some(entry) => r is Some && r->Some_0@ == entry,
            None => r is None,
        },
{
    proof {
        reveal_strlit("MHG.DisplayConfigurations/");
        reveal_strlit("_pegs/Configuration");
    }
    let length = key.unicode_len();
    if !part_stands_at(key, "MHG.DisplayConfigurations/", 0) {
        return None;
    }
    let from: usize = 26;
    let (count, pegs) = read_digits(key, from);
    if count == 0 || count > MAXIMUM_PEG_DIGITS {
        return None;
    }
    let pegs = match pegs {
        Some(pegs) => pegs,
        None => {
            return None;
        },
    };
    let at: usize = from + count;
    if is_text(key.substring_char(at, length), "_pegs/_Order") {
        return Some(
            GenericExtraData::DisplayConfigurationsOrder(DisplayConfigurationsOrder::new(pegs)),
        );
    }
    if !part_stands_at(key, "_pegs/Configuration", at) {
        return None;
    }
    let index_from: usize = at + 19;
    if index_from >= length || length - index_from > MAXIMUM_INDEX_DIGITS {
        return None;
    }
    let (index_count, index) = read_digits(key, index_from);
    if index_count != length - index_from {
        return None;
    }
    match index {
        Some(index) => Some(
            GenericExtraData::DisplayConfiguration(DisplayConfiguration::new(pegs, index)),
        ),
        None => None,
    }
}

/// The entry that is created for a key on its first use, if the key names one.
fn new_entry(key: &str) -> (r: Option<GenericExtraData>)
    ensures
        match spec_new_entry(key@) {
            Some(entry) => r is Some && r->Some_0@ == entry,
            None => r is None,
        },
{
    if is_text(key, simulation_paused::KEY) {
        Some(GenericExtraData::SimulationPaused(SimulationPaused { paused: false }))
    } else if is_text(key, flag_list_order::KEY) {
        Some(GenericExtraData::FlagListOrder(FlagListOrder { flags: Vec::new() }))
    } else if is_text(key, simulation_speed::KEY) {
        Some(GenericExtraData::SimulationSpeed(SimulationSpeed { speed: 0 }))
    } else if is_text(key, world_type_data::KEY) {
        Some(GenericExtraData::WorldTypeData(WorldTypeDataGridlands::default()))
    } else {
        display_entry(key)
    }
}

#[derive(Default)]
pub struct ExtraDataManager {
    extra_data_map: Vec<(String, GenericExtraData)>,
}

impl View for ExtraDataManager {
    type V = Map<Seq<char>, EntryValue>;

    closed spec fn view(&self) -> Map<Seq<char>, EntryValue> {
        as_map(entry_pairs(self.extra_data_map@))
    }
}

impl ExtraDataManager {
    /// The invariant: no key occurs twice, and every entry is of the kind
    /// that its key names.
    pub closed spec fn wf(&self) -> bool {
        &&& distinct_keys(entry_pairs(self.extra_data_map@))
        &&& kinds_fit(self@)
    }

    /// The invariant says of the entries that each is of the kind that its
    /// key names.
    pub proof fn lemma_view_wf(&self)
        requires
            self.wf(),
        ensures
            kinds_fit(self@),
    {
    }

    /// The manager at startup: it has taken, one after the other, the files
    /// of the extra data, each with the key that its name spells and the
    /// tree that it holds. `speed` is the bit pattern of the float that the
    /// file of the speed of the simulation spells, if it spells one. Without
    /// files the manager has no entries.
    pub fn initialize(files: &[(String, SuccType)], speed: Option<u64>) -> (r: Result<
        ExtraDataManager,
        SuccError,
    >)
        ensures
            match initialized(files@, 0, speed, Map::empty()) {
                Ok(entries) => r is Ok && r->Ok_0.wf() && r->Ok_0@ == entries,
                Err(e) => r is Err && r->Err_0 == e,
            },
    {
        let mut manager = ExtraDataManager { extra_data_map: Vec::new() };
        assert(manager@ =~= Map::<Seq<char>, EntryValue>::empty());
        let mut index: usize = 0;
        while index < files.len()
            invariant
                index <= files@.len(),
                manager.wf(),
                initialized(files@, index as int, speed, manager@) == initialized(
                    files@,
                    0,
                    speed,
                    Map::empty(),
                ),
            decreases files@.len() - index,
        {
            match manager.load_file(files[index].0.as_str(), &files[index].1, speed) {
                Ok(_) => {},
                Err(e) => {
                    return Err(e);
                },
            }
            index += 1;
        }
        Ok(manager)
    }

    /// Whether a key names an entry: one of the four fixed keys, or the key
    /// of a display configuration or of an order of display configurations.
    pub fn names_entry(key: &str) -> (known: bool)
        ensures
            known == spec_new_entry(key@) is Some,
    {
        new_entry(key).is_some()
    }

    /// The place of the entry with the key, or the number of entries.
    fn find(&self, key: &str) -> (found: usize)
        requires
            self.wf(),
        ensures
            found <= self.extra_data_map@.len(),
            found < self.extra_data_map@.len() ==> self.extra_data_map@[found as int].0@ == key@
                && self@.dom().contains(key@) && self@[key@]
                == self.extra_data_map@[found as int].1@,
            found == self.extra_data_map@.len() ==> !self@.dom().contains(key@),
    {
        let wanted = key.to_owned();
        let mut found: usize = 0;
        while found < self.extra_data_map.len() && self.extra_data_map[found].0 != wanted
            invariant
                found <= self.extra_data_map.len(),
                wanted@ == key@,
                forall|i: int| 0 <= i < found ==> (#[trigger] self.extra_data_map@[i]).0@ != key@,
            decreases self.extra_data_map.len() - found,
        {
            found += 1;
        }
        proof {
            let pairs = entry_pairs(self.extra_data_map@);
            if found < self.extra_data_map.len() {
                lemma_entry(pairs, found as int);
            } else {
                assert forall|i: int| 0 <= i < pairs.len() implies (#[trigger] pairs[i]).0
                    != key@ by {
                    assert(self.extra_data_map@[i].0@ != key@);
                }
                lemma_absent(pairs, key@);
            }
        }
        found
    }

    /// Finds the entry for a key, which is created if the key names an entry
    /// that is not there yet. Returns whether there is an entry for the key.
    pub fn resolve_key(&mut self, key: &str) -> (known: bool)
        requires
            old(self).wf(),
        ensures
            final(self).wf(),
            final(self)@ == resolved(old(self)@, key@),
            known == final(self)@.dom().contains(key@),
    {
        self.resolve_index(key).is_some()
    }

    /// Finds the entry for a key, which is created if the key names an entry
    /// that is not there yet. Returns the place of the entry.
    fn resolve_index(&mut self, key: &str) -> (r: Option<usize>)
        requires
            old(self).wf(),
        ensures
            final(self).wf(),
            final(self)@ == resolved(old(self)@, key@),
            r is Some <==> final(self)@.dom().contains(key@),
            r matches Some(index) ==> index < final(self).extra_data_map@.len()
                && final(self).extra_data_map@[index as int].0@ == key@
                && final(self).extra_data_map@[index as int].1@ == final(self)@[key@],
    {
        let found = self.find(key);
        if found < self.extra_data_map.len() {
            return Some(found);
        }
        match new_entry(key) {
            Some(entry) => {
                let ghost pairs = entry_pairs(self.extra_data_map@);
                proof {
                    lemma_push(pairs, key@, entry@);
                }
                self.extra_data_map.push((key.to_owned(), entry));
                proof {
                    assert(entry_pairs(self.extra_data_map@) =~= pairs.push((key@, entry@)));
                    lemma_entry(entry_pairs(self.extra_data_map@), found as int);
                }
                Some(found)
            },
            None => None,
        }
    }

    /// Whether a request names the type of the entry and proposes a default
    /// that the entry takes.
    pub fn validate_request_data(request_packet: &ExtraDataRequest, extra_data: &GenericExtraData)
        -> (valid: bool)
        ensures
            valid == (extra_data@.network_type() == request_packet@.data_type
                && extra_data@.accepts_default(request_packet@.data)),
    {
        if !is_text(extra_data.data_type_network(), request_packet.data_type.as_str()) {
            return false;
        }
        extra_data.validate_default_bytes(request_packet.default.as_slice())
    }

    /// The update that tells a client the value of the entry.
    pub fn pack(extra_data: &GenericExtraData) -> (update: ExtraDataUpdate)
        requires
            extra_data@.can_serialize(),
        ensures
            update@ == extra_data@.packed(),
    {
        ExtraDataUpdate {
            key: extra_data.key(),
            data_type: extra_data.data_type_network().to_owned(),
            data: extra_data.serialize_data(),
        }
    }

    /// Hands an update to the server for `address`, if it can be written.
    fn reply(update: &ExtraDataUpdate, server: &mut ServerInstance, address: RemoteAddress)
        requires
            old(server).wf(),
        ensures
            final(server).wf(),
            final(server)@ == replied(old(server)@, address, Some(update@)),
    {
        if update.key.as_str().as_bytes().len() > 0xFFFF_FFFF
            || update.data_type.as_str().as_bytes().len() > 0xFFFF_FFFF || update.data.len()
            > 0xFFFF_FFFF {
            return ;
        }
        let mut buffer: Vec<u8> = Vec::new();
        update.write(&mut buffer);
        assert(buffer@ =~= update_encoding(update@));
        if buffer.len() > 0x1FFF_FFFF {
            return ;
        }
        let _ = server.send_to(address, buffer);
    }

    /// A client at `address` asks for the value under a key and proposes a
    /// default. Where the request is in order, the update with the value
    /// that the server holds joins what the server sends to `address`.
    pub fn handle_request(
        &mut self,
        request_packet: ExtraDataRequest,
        server: &mut ServerInstance,
        address: RemoteAddress,
    )
        requires
            old(self).wf(),
            old(server).wf(),
        ensures
            final(self).wf(),
            final(server).wf(),
            final(self)@ == requested(old(self)@, request_packet@).0,
            final(server)@ == replied(
                old(server)@,
                address,
                requested(old(self)@, request_packet@).1,
            ),
    {
        let index = match self.resolve_index(request_packet.key.as_str()) {
            Some(index) => index,
            None => {
                return ;
            },
        };
        let ghost entries = self.extra_data_map@;
        let ghost pairs = entry_pairs(entries);
        proof {
            lemma_update(pairs, index as int, entries[index as int].1@);
            assert(pairs.update(index as int, (request_packet.key@, entries[index as int].1@))
                =~= pairs);
        }
        if !ExtraDataManager::validate_request_data(
            &request_packet,
            &self.extra_data_map[index].1,
        ) {
            return ;
        }
        if !self.extra_data_map[index].1.has_value() {
            self.extra_data_map[index].1.update_bytes_if_valid(request_packet.default.as_slice());
        }
        proof {
            assert(entry_pairs(self.extra_data_map@) =~= pairs.update(
                index as int,
                (request_packet.key@, self.extra_data_map@[index as int].1@),
            ));
            lemma_update(pairs, index as int, self.extra_data_map@[index as int].1@);
        }
        if !self.extra_data_map[index].1.can_serialize() {
            return ;
        }
        let packet = ExtraDataManager::pack(&self.extra_data_map[index].1);
        ExtraDataManager::reply(&packet, server, address);
    }

    /// A client at `address` proposes a new value under a key. Where the
    /// change is in order, the update with the new value joins what the
    /// server sends to `address`.
    pub fn handle_change(
        &mut self,
        change_packet: ExtraDataChange,
        server: &mut ServerInstance,
        address: RemoteAddress,
    )
        requires
            old(self).wf(),
            old(server).wf(),
        ensures
            final(self).wf(),
            final(server).wf(),
            final(self)@ == changed(old(self)@, change_packet@).0,
            final(server)@ == replied(old(server)@, address, changed(old(self)@, change_packet@).1),
    {
        let index = match self.resolve_index(change_packet.key.as_str()) {
            Some(index) => index,
            None => {
                return ;
            },
        };
        let ghost entries = self.extra_data_map@;
        let ghost pairs = entry_pairs(entries);
        if !is_text(
            self.extra_data_map[index].1.data_type_network(),
            change_packet.data_type.as_str(),
        ) {
            return ;
        }
        if !self.extra_data_map[index].1.update_bytes_if_valid(change_packet.data_bytes.as_slice()) {
            proof {
                assert(self.extra_data_map@[index as int].1@ == entries[index as int].1@);
                assert(entry_pairs(self.extra_data_map@) =~= pairs);
            }
            return ;
        }
        proof {
            assert(entry_pairs(self.extra_data_map@) =~= pairs.update(
                index as int,
                (change_packet.key@, self.extra_data_map@[index as int].1@),
            ));
            lemma_update(pairs, index as int, self.extra_data_map@[index as int].1@);
        }
        if !self.extra_data_map[index].1.can_serialize() {
            return ;
        }
        let packet = ExtraDataManager::pack(&self.extra_data_map[index].1);
        ExtraDataManager::reply(&packet, server, address);
    }

    /// Takes the default of an entry from the tree of a SUCC file, whose
    /// name spells `key`. Returns whether the entry took a value: a file
    /// whose key names no entry, which has no `DataType` that is the file
    /// type of the entry, or no `Data`, is passed over.
    pub fn load_entry(&mut self, key: &str, root: &SuccType) -> (r: Result<bool, SuccError>)
        requires
            old(self).wf(),
        ensures
            final(self).wf(),
            (final(self)@, r) == loaded_from(old(self)@, key@, *root),
    {
        let index = match self.resolve_index(key) {
            Some(index) => index,
            None => {
                return match root.expect_map() {
                    Ok(_) => Ok(false),
                    Err(e) => Err(e),
                };
            },
        };
        let entries = root.expect_map()?;
        let data_type = match lookup(entries, "DataType") {
            Some(data_type) => data_type,
            None => {
                return Ok(false);
            },
        };
        let declared = match data_type.get_value() {
            Some(declared) => declared,
            None => {
                return Ok(false);
            },
        };
        if !is_text(declared, self.extra_data_map[index].1.data_type_file()) {
            return Ok(false);
        }
        let data = match lookup(entries, "Data") {
            Some(data) => data,
            None => {
                return Ok(false);
            },
        };
        let ghost list = self.extra_data_map@;
        let ghost pairs = entry_pairs(list);
        let loaded = self.extra_data_map[index].1.load_from_file(data);
        proof {
            assert(entry_pairs(self.extra_data_map@) =~= pairs.update(
                index as int,
                (key@, self.extra_data_map@[index as int].1@),
            ));
            lemma_update(pairs, index as int, self.extra_data_map@[index as int].1@);
        }
        assert(self@ =~= loaded_from(old(self)@, key@, *root).0);
        match loaded {
            Ok(_) => Ok(true),
            Err(e) => Err(e),
        }
    }

    /// Takes one file of the extra data at startup: the file of the speed
    /// of the simulation gives its entry the value `speed`, every other file
    /// is loaded from its tree. Returns whether the entry took a value.
    pub fn load_file(&mut self, key: &str, root: &SuccType, speed: Option<u64>) -> (r: Result<
        bool,
        SuccError,
    >)
        requires
            old(self).wf(),
        ensures
            final(self).wf(),
            (final(self)@, r) == file_loaded(old(self)@, key@, *root, speed),
    {
        if !is_text(key, simulation_speed::KEY) {
            return self.load_entry(key, root);
        }
        self.resolve_key(key);
        let text = match Self::simulation_speed_text(root) {
            Ok(text) => text,
            Err(e) => {
                return Err(e);
            },
        };
        if text.is_none() {
            return Ok(false);
        }
        match speed {
            Some(bits) => {
                if self.load_simulation_speed(bits) {
                    Ok(true)
                } else {
                    Err(SuccError::WrongValue)
                }
            },
            None => Err(SuccError::WrongValue),
        }
    }

    /// The text in which a SUCC file holds the speed of the simulation, if
    /// the file declares a double and has `Data`. The text spells a float,
    /// which is read elsewhere.
    pub fn simulation_speed_text<'a>(root: &'a SuccType) -> (r: Result<Option<&'a str>, SuccError>)
        ensures
            match map_of(*root) {
                Some(list) => match data_of(list, simulation_speed::TYPE@) {
                    Some(data) => match data {
                        SuccType::Value(text) => r matches Ok(Some(found)) && found@ == text@,
                        _ => r == Err::<Option<&str>, SuccError>(SuccError::WrongKind),
                    },
                    None => r == Ok::<Option<&str>, SuccError>(None),
                },
                None => r == Err::<Option<&str>, SuccError>(SuccError::WrongKind),
            },
    {
        let entries = root.expect_map()?;
        let data_type = match lookup(entries, "DataType") {
            Some(data_type) => data_type,
            None => {
                return Ok(None);
            },
        };
        let declared = match data_type.get_value() {
            Some(declared) => declared,
            None => {
                return Ok(None);
            },
        };
        if !is_text(declared, simulation_speed::TYPE) {
            return Ok(None);
        }
        let data = match lookup(entries, "Data") {
            Some(data) => data,
            None => {
                return Ok(None);
            },
        };
        match data.expect_string() {
            Ok(text) => Ok(Some(text)),
            Err(e) => Err(e),
        }
    }

    /// Takes the speed of the simulation that was read from a file, the bit
    /// pattern of a 64-bit float, unless it is less than zero.
    pub fn load_simulation_speed(&mut self, speed: u64) -> (valid: bool)
        requires
            old(self).wf(),
        ensures
            final(self).wf(),
            valid == !is_below_zero(speed),
            final(self)@ == if valid {
                old(self)@.insert(simulation_speed::KEY@, EntryValue::SimulationSpeed(speed))
            } else {
                resolved(old(self)@, simulation_speed::KEY@)
            },
    {
        let index = match self.resolve_index(simulation_speed::KEY) {
            Some(index) => index,
            None => {
                return false;
            },
        };
        let ghost list = self.extra_data_map@;
        let ghost pairs = entry_pairs(list);
        proof {
            lemma_fixed_keys();
        }
        let mut entry = SimulationSpeed { speed: 0 };
        let valid = entry.load_value(speed);
        if valid {
            self.extra_data_map[index].1 = GenericExtraData::SimulationSpeed(entry);
        }
        proof {
            assert(entry_pairs(self.extra_data_map@) =~= pairs.update(
                index as int,
                (simulation_speed::KEY@, self.extra_data_map@[index as int].1@),
            ));
            lemma_update(pairs, index as int, self.extra_data_map@[index as int].1@);
        }
        valid
    }
}

} // verus!
