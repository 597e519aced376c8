//! The order of the configurations of the displays with one number of pegs.

use crate::network::message_pack::reader::{
    read_array, read_i32, spec_read_array, spec_read_i32,
};
use crate::network::message_pack::writer::{
    array_header, int_encoding, write_array_auto, write_int_auto,
};
use crate::util::byte_order::lemma_appended;
use crate::util::custom_iterator::{Cursor, CustomIterator};
use crate::util::error_handling::{ReadError, SuccError};
use crate::util::succ::succ_types::{parsed_u32, SuccType};
use crate::util::text::{append_decimal, decimal_text};
use vstd::prelude::*;
use vstd::string::*;

verus! {

pub const TYPE: &'static str = "System.Int32[]";

pub struct DisplayConfigurationsOrderData {
    pub list: Vec<u32>,
}

#[derive(Default)]
pub struct DisplayConfigurationsOrder {
    pub peg_count: u32,
    pub data: Option<DisplayConfigurationsOrderData>,
}

/// An order of display configurations as a value.
pub struct DisplayConfigurationsOrderValue {
    pub peg_count: u32,
    /// The order, once a client has proposed one.
    pub list: Option<Seq<u32>>,
}

impl View for DisplayConfigurationsOrder {
    type V = DisplayConfigurationsOrderValue;

    open spec fn view(&self) -> DisplayConfigurationsOrderValue {
        DisplayConfigurationsOrderValue {
            peg_count: self.peg_count,
            list: match self.data {
                Some(data) => Some(data.list@),
                None => None,
            },
        }
    }
}

/// Reads `count` integers that are not negative and appends them to `read`.
pub open spec fn spec_read_indices(c: Cursor, count: int, read: Seq<u32>) -> (
    Result<Seq<u32>, ReadError>,
    Cursor,
)
    decreases count,
{
    if count <= 0 {
        (Ok(read), c)
    } else {
        match spec_read_i32(c) {
            (Ok(index), c1) => if index < 0 {
                (Err(ReadError::WrongValue), c1)
            } else {
                spec_read_indices(c1, count - 1, read.push(index as u32))
            },
            (Err(e), c1) => (Err(e), c1),
        }
    }
}

/// The order that the bytes spell: an array of integers that are not
/// negative, and nothing behind it.
pub open spec fn spec_parse(bytes: Seq<u8>) -> Result<Seq<u32>, ReadError> {
    match spec_read_array(Cursor { bytes, position: 0 }) {
        (Ok(count), c1) => match spec_read_indices(c1, count as int, Seq::empty()) {
            (Ok(list), c2) => if c2.remaining() > 0 {
                Err(ReadError::TrailingBytes)
            } else {
                Ok(list)
            },
            (Err(e), _) => Err(e),
        },
        (Err(e), _) => Err(e),
    }
}

/// One integer behind the other.
pub open spec fn indices_encoding(list: Seq<u32>) -> Seq<u8>
    decreases list.len(),
{
    if list.len() == 0 {
        Seq::empty()
    } else {
        indices_encoding(list.drop_last()) + int_encoding(list.last() as int)
    }
}

/// The key of the order of the displays with `peg_count` pegs.
pub open spec fn spec_key(peg_count: u32) -> Seq<char> {
    "MHG.DisplayConfigurations/"@ + decimal_text(peg_count as nat) + "_pegs/_Order"@
}

/// The numbers that the entries of a SUCC list spell, from the entry `from`
/// on, behind `read`.
pub open spec fn spec_load(entries: Seq<SuccType>, from: int, read: Seq<u32>) -> Result<
    Seq<u32>,
    SuccError,
>
    decreases entries.len() - from,
{
    if from < 0 || from >= entries.len() {
        Ok(read)
    } else {
        match entries[from] {
            SuccType::Value(text) => match parsed_u32(text@) {
                Some(index) => spec_load(entries, from + 1, read.push(index)),
                None => Err(SuccError::WrongValue),
            },
            _ => Err(SuccError::WrongKind),
        }
    }
}

pub fn parse_data(bytes: &[u8]) -> (r: Result<DisplayConfigurationsOrderData, ReadError>)
    ensures
        match spec_parse(bytes@) {
            Ok(list) => r is Ok && r->Ok_0.list@ == list,
            Err(e) => r is Err && r->Err_0 == e,
        },
{
    let mut iterator = CustomIterator::borrow(bytes);
    let entry_amount = read_array(&mut iterator)?;
    let ghost start = iterator@;
    let mut list: Vec<u32> = Vec::new();
    let mut left: u32 = entry_amount;
    while left > 0
        invariant
            spec_read_array(Cursor { bytes: bytes@, position: 0 }) == (
                Ok::<u32, ReadError>(entry_amount),
                start,
            ),
            spec_read_indices(iterator@, left as int, list@) == spec_read_indices(
                start,
                entry_amount as int,
                Seq::empty(),
            ),
        decreases left,
    {
        let order_entry = read_i32(&mut iterator)?;
        if order_entry < 0 {
            return Err(ReadError::WrongValue);
        }
        list.push(order_entry as u32);
        left -= 1;
    }
    if iterator.has_more() {
        return Err(ReadError::TrailingBytes);
    }
    Ok(DisplayConfigurationsOrderData { list })
}

impl DisplayConfigurationsOrder {
    pub fn new(peg_count: u32) -> (order: Self)
        ensures
            order@ == (DisplayConfigurationsOrderValue { peg_count, list: None }),
    {
        DisplayConfigurationsOrder { peg_count, data: None }
    }

    /// Every default that can be read is accepted.
    pub fn validate_default_bytes(&self, bytes: &[u8]) -> (valid: bool)
        ensures
            valid == spec_parse(bytes@) is Ok,
    {
        parse_data(bytes).is_ok()
    }

    /// Every order that can be read is accepted and stored.
    pub fn update_bytes_if_valid(&mut self, bytes: &[u8]) -> (valid: bool)
        ensures
            valid == spec_parse(bytes@) is Ok,
            final(self)@ == match spec_parse(bytes@) {
                Ok(list) => DisplayConfigurationsOrderValue { list: Some(list), ..old(self)@ },
                Err(_) => old(self)@,
            },
    {
        match parse_data(bytes) {
            Ok(new_data) => {
                self.data = Some(new_data);
                true
            },
            Err(_) => false,
        }
    }

    /// Takes the order from a SUCC tree: a list of numbers.
    pub fn load_from_file(&mut self, data: &SuccType) -> (r: Result<(), SuccError>)
        ensures
            match data {
                SuccType::Any => r is Ok && final(self)@ == (DisplayConfigurationsOrderValue {
                    list: Some(Seq::empty()),
                    ..old(self)@
                }),
                SuccType::List(entries) => match spec_load(entries@, 0, Seq::empty()) {
                    Ok(list) => r is Ok && final(self)@ == (DisplayConfigurationsOrderValue {
                        list: Some(list),
                        ..old(self)@
                    }),
                    Err(e) => r == Err::<(), SuccError>(e) && final(self)@ == old(self)@,
                },
                _ => r == Err::<(), SuccError>(SuccError::WrongKind) && final(self)@ == old(self)@,
            },
    {
        let root = data.expect_list()?;
        let mut list: Vec<u32> = Vec::new();
        let mut i: usize = 0;
        while i < root.len()
            invariant
                i <= root@.len(),
                data is Any || data is List,
                data is Any ==> root@.len() == 0,
                data matches SuccType::List(entries) ==> root@ == entries@,
                spec_load(root@, i as int, list@) == spec_load(root@, 0, Seq::empty()),
                *self == *old(self),
            decreases root@.len() - i,
        {
            let index = root[i].expect_unsigned()?;
            list.push(index);
            i += 1;
        }
        self.data = Some(DisplayConfigurationsOrderData { list });
        Ok(())
    }

    pub fn key(&self) -> (key: String)
        ensures
            key@ == spec_key(self@.peg_count),
    {
        let mut key = "MHG.DisplayConfigurations/".to_owned();
        append_decimal(&mut key, self.peg_count);
        key.append("_pegs/_Order");
        key
    }

    pub fn data_type_network(&self) -> (name: &'static str)
        ensures
            name@ == TYPE@,
    {
        TYPE
    }

    pub fn data_type_file(&self) -> (name: &'static str)
        ensures
            name@ == TYPE@,
    {
        TYPE
    }

    /// Whether the order is set, so that it can be serialized.
    pub fn has_data(&self) -> (r: bool)
        ensures
            r == self@.list is Some,
    {
        self.data.is_some()
    }

    /// An array of the numbers.
    pub fn serialize_data(&self) -> (buffer: Vec<u8>)
        requires
            self@.list is Some,
            self@.list->Some_0.len() <= 0xFFFF_FFFF,
        ensures
            buffer@ == array_header(self@.list->Some_0.len() as u32) + indices_encoding(
                self@.list->Some_0,
            ),
    {
        let mut buffer: Vec<u8> = Vec::new();
        let data = match &self.data {
            Some(data) => data,
            None => {
                return buffer;
            },
        };
        let ghost list = data.list@;
        write_array_auto(&mut buffer, data.list.len() as u32);
        let ghost head = buffer@;
        let mut i: usize = 0;
        assert(list.subrange(0, 0) =~= Seq::empty());
        assert(buffer@ =~= head + indices_encoding(list.subrange(0, 0)));
        while i < data.list.len()
            invariant
                i <= data.list.len(),
                list == data.list@,
                buffer@ == head + indices_encoding(list.subrange(0, i as int)),
            decreases data.list.len() - i,
        {
            let ghost before = indices_encoding(list.subrange(0, i as int));
            write_int_auto(&mut buffer, data.list[i]);
            proof {
                let upto = list.subrange(0, i as int + 1);
                assert(upto.drop_last() =~= list.subrange(0, i as int));
                lemma_appended(head, before, int_encoding(list[i as int] as int));
            }
            i += 1;
        }
        assert(list.subrange(0, i as int) =~= list);
        assert(head =~= array_header(list.len() as u32));
        buffer
    }
}

} // verus!
