//! One configuration of a display: a colour for each combination of its pegs.

use crate::files::extra_data::entries::world_type_data::{color_encoding, spec_read_color};
use crate::files::world_data::world_structs::Color24;
use crate::network::message_pack::reader::{read_array, read_u8, spec_read_array};
use crate::network::message_pack::writer::{
    array_header, int_encoding, write_array_auto, write_int_auto,
};
use crate::network::packets::packet_tools::expect_array;
use crate::util::byte_order::{lemma_appended, lemma_two_to_grows, two_to};
use crate::util::custom_iterator::{Cursor, CustomIterator};
use crate::util::error_handling::{ReadError, SuccError};
use crate::util::succ::succ_types::{spec_color, SuccType};
use crate::util::text::{append_decimal, decimal_text};
use vstd::prelude::*;
use vstd::string::*;

verus! {

pub const TYPE: &'static str = "JimmysUnityUtilities.Color24[]";

/// Whether `length` is 2 to the power `exponent`.
pub fn is_power_of_two(length: usize, exponent: u32) -> (r: bool)
    ensures
        r == (length == two_to(exponent as nat)),
{
    if length == 0 {
        proof {
            lemma_two_to_grows(0, exponent as nat);
        }
        return false;
    }
    let mut value: u128 = 1;
    let mut done: u32 = 0;
    while done < exponent
        invariant
            done <= exponent,
            value == two_to(done as nat),
            value <= length,
        decreases exponent - done,
    {
        if value * 2 > length as u128 {
            proof {
                lemma_two_to_grows((done + 1) as nat, exponent as nat);
            }
            return false;
        }
        value = value * 2;
        done += 1;
    }
    value == length as u128
}

#[derive(Default)]
pub struct DisplayConfigurationData {
    pub colors: Vec<Color24>,
}

#[derive(Default)]
pub struct DisplayConfiguration {
    pub peg_count: u32,
    pub configuration_index: u32,
    pub data: Option<DisplayConfigurationData>,
}

/// A display configuration as a value.
pub struct DisplayConfigurationValue {
    pub peg_count: u32,
    pub configuration_index: u32,
    /// The colours, once a client has proposed some.
    pub colors: Option<Seq<Color24>>,
}

impl View for DisplayConfiguration {
    type V = DisplayConfigurationValue;

    open spec fn view(&self) -> DisplayConfigurationValue {
        DisplayConfigurationValue {
            peg_count: self.peg_count,
            configuration_index: self.configuration_index,
            colors: match self.data {
                Some(data) => Some(data.colors@),
                None => None,
            },
        }
    }
}

/// Reads `count` colours and appends them to `read`.
pub open spec fn spec_read_colors(c: Cursor, count: int, read: Seq<Color24>) -> (
    Result<Seq<Color24>, ReadError>,
    Cursor,
)
    decreases count,
{
    if count <= 0 {
        (Ok(read), c)
    } else {
        match spec_read_color(c) {
            (Ok(color), c1) => spec_read_colors(c1, count - 1, read.push(color)),
            (Err(e), c1) => (Err(e), c1),
        }
    }
}

/// The colours that the bytes spell: an array of colours, and nothing behind it.
pub open spec fn spec_parse(bytes: Seq<u8>) -> Result<Seq<Color24>, ReadError> {
    match spec_read_array(Cursor { bytes, position: 0 }) {
        (Ok(count), c1) => match spec_read_colors(c1, count as int, Seq::empty()) {
            (Ok(colors), c2) => if c2.remaining() > 0 {
                Err(ReadError::TrailingBytes)
            } else {
                Ok(colors)
            },
            (Err(e), _) => Err(e),
        },
        (Err(e), _) => Err(e),
    }
}

/// Whether the bytes spell as many colours as a display of `peg_count` pegs
/// has combinations.
pub open spec fn spec_accepts(peg_count: u32, bytes: Seq<u8>) -> bool {
    spec_parse(bytes) matches Ok(colors) && colors.len() == two_to(peg_count as nat)
}

/// One colour behind the other.
pub open spec fn colors_encoding(colors: Seq<Color24>) -> Seq<u8>
    decreases colors.len(),
{
    if colors.len() == 0 {
        Seq::empty()
    } else {
        colors_encoding(colors.drop_last()) + color_encoding(colors.last())
    }
}

/// The key of the configuration `index` of the displays with `peg_count` pegs.
pub open spec fn spec_key(peg_count: u32, index: u32) -> Seq<char> {
    "MHG.DisplayConfigurations/"@ + decimal_text(peg_count as nat) + "_pegs/Configuration"@
        + decimal_text(index as nat)
}

/// The colours that the entries of a SUCC list spell, from the entry `from`
/// on, behind `read`.
pub open spec fn spec_load(entries: Seq<SuccType>, from: int, read: Seq<Color24>) -> Result<
    Seq<Color24>,
    SuccError,
>
    decreases entries.len() - from,
{
    if from < 0 || from >= entries.len() {
        Ok(read)
    } else {
        match entries[from] {
            SuccType::Value(text) => match spec_color(text@) {
                Some(color) => spec_load(entries, from + 1, read.push(color)),
                None => Err(SuccError::WrongValue),
            },
            _ => Err(SuccError::WrongKind),
        }
    }
}

pub fn parse_data(bytes: &[u8]) -> (r: Result<DisplayConfigurationData, ReadError>)
    ensures
        match spec_parse(bytes@) {
            Ok(colors) => r is Ok && r->Ok_0.colors@ == colors,
            Err(e) => r is Err && r->Err_0 == e,
        },
{
    let mut iterator = CustomIterator::borrow(bytes);
    let color_count = read_array(&mut iterator)?;
    let ghost start = iterator@;
    let mut colors: Vec<Color24> = Vec::new();
    let mut left: u32 = color_count;
    while left > 0
        invariant
            spec_read_array(Cursor { bytes: bytes@, position: 0 }) == (
                Ok::<u32, ReadError>(color_count),
                start,
            ),
            spec_read_colors(iterator@, left as int, colors@) == spec_read_colors(
                start,
                color_count as int,
                Seq::empty(),
            ),
        decreases left,
    {
        expect_array(&mut iterator, 3)?;
        let r = read_u8(&mut iterator)?;
        let g = read_u8(&mut iterator)?;
        let b = read_u8(&mut iterator)?;
        colors.push(Color24 { r, g, b });
        left -= 1;
    }
    if iterator.has_more() {
        return Err(ReadError::TrailingBytes);
    }
    Ok(DisplayConfigurationData { colors })
}

impl DisplayConfiguration {
    pub fn new(peg_count: u32, configuration_index: u32) -> (configuration: Self)
        ensures
            configuration@ == (DisplayConfigurationValue {
                peg_count,
                configuration_index,
                colors: None,
            }),
    {
        DisplayConfiguration { peg_count, configuration_index, data: None }
    }

    /// A default is accepted where it has a colour for each combination of the pegs.
    pub fn validate_default_bytes(&self, bytes: &[u8]) -> (valid: bool)
        ensures
            valid == spec_accepts(self@.peg_count, bytes@),
    {
        match parse_data(bytes) {
            Ok(suggested_default) => is_power_of_two(
                suggested_default.colors.len(),
                self.peg_count,
            ),
            Err(_) => false,
        }
    }

    /// A value is accepted and stored where it has a colour for each
    /// combination of the pegs.
    pub fn update_bytes_if_valid(&mut self, bytes: &[u8]) -> (valid: bool)
        ensures
            valid == spec_accepts(old(self)@.peg_count, bytes@),
            final(self)@ == if valid {
                DisplayConfigurationValue { colors: Some(spec_parse(bytes@)->Ok_0), ..old(self)@ }
            } else {
                old(self)@
            },
    {
        match parse_data(bytes) {
            Ok(new_data) => {
                if !is_power_of_two(new_data.colors.len(), self.peg_count) {
                    return false;
                }
                self.data = Some(new_data);
                true
            },
            Err(_) => false,
        }
    }

    /// Takes the colours from a SUCC tree: a list of colours, one for each
    /// combination of the pegs.
    pub fn load_from_file(&mut self, data: &SuccType) -> (r: Result<(), SuccError>)
        ensures
            r is Err ==> final(self)@ == old(self)@,
            r is Ok ==> final(self)@.peg_count == old(self)@.peg_count
                && final(self)@.configuration_index == old(self)@.configuration_index
                && final(self)@.colors is Some && final(self)@.colors->Some_0.len() == two_to(
                old(self)@.peg_count as nat,
            ),
            data matches SuccType::List(entries) ==> match spec_load(entries@, 0, Seq::empty()) {
                Ok(colors) => if colors.len() == two_to(old(self)@.peg_count as nat) {
                    r is Ok && final(self)@.colors == Some(colors)
                } else {
                    r == Err::<(), SuccError>(SuccError::WrongValue)
                },
                Err(e) => r == Err::<(), SuccError>(e),
            },
            data is Value || data is Mapping ==> r == Err::<(), SuccError>(SuccError::WrongKind),
            data is Any ==> r == Err::<(), SuccError>(SuccError::WrongValue),
    {
        let root = data.expect_list()?;
        let mut list: Vec<Color24> = Vec::new();
        let mut i: usize = 0;
        while i < root.len()
            invariant
                i <= root@.len(),
                data is Any || data is List,
                data is Any ==> root@.len() == 0,
                data matches SuccType::List(entries) ==> root@ == entries@,
                spec_load(root@, i as int, list@) == spec_load(root@, 0, Seq::empty()),
                *self == *old(self),
            decreases root@.len() - i,
        {
            let color = root[i].expect_color()?;
            list.push(color);
            i += 1;
        }
        if !is_power_of_two(list.len(), self.peg_count) {
            return Err(SuccError::WrongValue);
        }
        proof {
            lemma_two_to_grows(0, self.peg_count as nat);
        }
        self.data = Some(DisplayConfigurationData { colors: list });
        Ok(())
    }

    pub fn key(&self) -> (key: String)
        ensures
            key@ == spec_key(self@.peg_count, self@.configuration_index),
    {
        let mut key = "MHG.DisplayConfigurations/".to_owned();
        append_decimal(&mut key, self.peg_count);
        key.append("_pegs/Configuration");
        append_decimal(&mut key, self.configuration_index);
        key
    }

    pub fn data_type_network(&self) -> (name: &'static str)
        ensures
            name@ == TYPE@,
    {
        TYPE
    }

    pub fn data_type_file(&self) -> (name: &'static str)
        ensures
            name@ == TYPE@,
    {
        TYPE
    }

    /// Whether the configuration has colours, so that it can be serialized.
    pub fn has_data(&self) -> (r: bool)
        ensures
            r == self@.colors is Some,
    {
        self.data.is_some()
    }

    /// An array of the colours.
    pub fn serialize_data(&self) -> (buffer: Vec<u8>)
        requires
            self@.colors is Some,
            self@.colors->Some_0.len() <= 0xFFFF_FFFF,
        ensures
            buffer@ == array_header(self@.colors->Some_0.len() as u32) + colors_encoding(
                self@.colors->Some_0,
            ),
    {
        let mut buffer: Vec<u8> = Vec::new();
        let data = match &self.data {
            Some(data) => data,
            None => {
                return buffer;
            },
        };
        let ghost colors = data.colors@;
        write_array_auto(&mut buffer, data.colors.len() as u32);
        let ghost head = buffer@;
        let mut i: usize = 0;
        assert(colors.subrange(0, 0) =~= Seq::empty());
        assert(buffer@ =~= head + colors_encoding(colors.subrange(0, 0)));
        while i < data.colors.len()
            invariant
                i <= data.colors.len(),
                colors == data.colors@,
                buffer@ == head + colors_encoding(colors.subrange(0, i as int)),
            decreases data.colors.len() - i,
        {
            let ghost before = colors_encoding(colors.subrange(0, i as int));
            let ghost now = buffer@;
            write_array_auto(&mut buffer, 3);
            write_int_auto(&mut buffer, data.colors[i].r as u32);
            write_int_auto(&mut buffer, data.colors[i].g as u32);
            write_int_auto(&mut buffer, data.colors[i].b as u32);
            proof {
                let upto = colors.subrange(0, i as int + 1);
                assert(upto.drop_last() =~= colors.subrange(0, i as int));
                assert(buffer@ =~= now + color_encoding(colors[i as int]));
                lemma_appended(head, before, color_encoding(colors[i as int]));
            }
            i += 1;
        }
        assert(colors.subrange(0, i as int) =~= colors);
        assert(head =~= array_header(colors.len() as u32));
        buffer
    }
}

} // verus!
