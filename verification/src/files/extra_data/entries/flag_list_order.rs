//! The order of the flags: a list of component addresses.

use crate::network::message_pack::reader::{
    read_array, read_i32, spec_read_array, spec_read_i32,
};
use crate::network::message_pack::writer::{array_header, write_array_auto, write_int_auto};
use crate::network::packets::packet_tools::{expect_array, spec_expect_array};
use crate::network::packets::s2c::world_initialization_packet::wrapped_encoding;
use crate::util::byte_order::lemma_appended;
use crate::util::custom_iterator::{Cursor, CustomIterator};
use crate::util::error_handling::{ReadError, SuccError};
use crate::util::succ::succ_types::{spec_component_address, SuccType};
use vstd::prelude::*;
use vstd::string::*;

verus! {

pub const KEY: &'static str = "MHG.FlagListOrder";

pub const TYPE: &'static str =
    "System.Collections.Generic.List`1[[LogicAPI.Data.ComponentAddress, LogicAPI, Version=1.0.0.0, Culture=neutral, PublicKeyToken=null]]";

pub const FILE_TYPE: &'static str =
    "System.Collections.Generic.List<LogicAPI.Data.ComponentAddress>";

#[derive(Default)]
pub struct FlagListOrder {
    pub flags: Vec<u32>,
}

impl View for FlagListOrder {
    type V = Seq<u32>;

    open spec fn view(&self) -> Seq<u32> {
        self.flags@
    }
}

/// Reads `count` flags, each an array with one integer that is not
/// negative, and appends them to `read`.
pub open spec fn spec_read_flags(c: Cursor, count: int, read: Seq<u32>) -> (
    Result<Seq<u32>, ReadError>,
    Cursor,
)
    decreases count,
{
    if count <= 0 {
        (Ok(read), c)
    } else {
        match spec_expect_array(c, 1) {
            (Ok(_), c1) => match spec_read_i32(c1) {
                (Ok(address), c2) => if address < 0 {
                    (Err(ReadError::WrongValue), c2)
                } else {
                    spec_read_flags(c2, count - 1, read.push(address as u32))
                },
                (Err(e), c2) => (Err(e), c2),
            },
            (Err(e), c1) => (Err(e), c1),
        }
    }
}

/// The list that the bytes spell: an array of flags.
pub open spec fn spec_parse(bytes: Seq<u8>) -> Result<Seq<u32>, ReadError> {
    match spec_read_array(Cursor { bytes, position: 0 }) {
        (Ok(count), c1) => spec_read_flags(c1, count as int, Seq::empty()).0,
        (Err(e), _) => Err(e),
    }
}

/// The addresses that the entries of a SUCC list spell, from the entry
/// `from` on, behind `read`.
pub open spec fn spec_load(entries: Seq<SuccType>, from: int, read: Seq<u32>) -> Result<
    Seq<u32>,
    SuccError,
>
    decreases entries.len() - from,
{
    if from < 0 || from >= entries.len() {
        Ok(read)
    } else {
        match entries[from] {
            SuccType::Value(text) => match spec_component_address(text@) {
                Some(address) => spec_load(entries, from + 1, read.push(address)),
                None => Err(SuccError::WrongValue),
            },
            _ => Err(SuccError::WrongKind),
        }
    }
}

pub fn parse_data(bytes: &[u8]) -> (r: Result<FlagListOrder, ReadError>)
    ensures
        match spec_parse(bytes@) {
            Ok(flags) => r is Ok && r->Ok_0@ == flags,
            Err(e) => r is Err && r->Err_0 == e,
        },
{
    let mut iterator = CustomIterator::borrow(bytes);
    let flag_count = read_array(&mut iterator)?;
    let ghost start = iterator@;
    let mut flags: Vec<u32> = Vec::new();
    let mut left: u32 = flag_count;
    while left > 0
        invariant
            spec_read_array(Cursor { bytes: bytes@, position: 0 }) == (
                Ok::<u32, ReadError>(flag_count),
                start,
            ),
            spec_read_flags(iterator@, left as int, flags@) == spec_read_flags(
                start,
                flag_count as int,
                Seq::empty(),
            ),
        decreases left,
    {
        expect_array(&mut iterator, 1)?;
        let flag_address = read_i32(&mut iterator)?;
        if flag_address < 0 {
            return Err(ReadError::WrongValue);
        }
        flags.push(flag_address as u32);
        left -= 1;
    }
    Ok(FlagListOrder { flags })
}

impl FlagListOrder {
    /// Only the empty list is accepted as default: a client cannot know the
    /// flags of the server.
    pub fn validate_default_bytes(&self, bytes: &[u8]) -> (valid: bool)
        ensures
            valid == (spec_parse(bytes@) matches Ok(flags) && flags.len() == 0),
    {
        match parse_data(bytes) {
            Ok(suggested_default) => suggested_default.flags.len() == 0,
            Err(_) => false,
        }
    }

    /// Every list that can be read is accepted and stored.
    pub fn update_bytes_if_valid(&mut self, bytes: &[u8]) -> (valid: bool)
        ensures
            valid == spec_parse(bytes@) is Ok,
            final(self)@ == match spec_parse(bytes@) {
                Ok(flags) => flags,
                Err(_) => old(self)@,
            },
    {
        match parse_data(bytes) {
            Ok(new_data) => {
                self.flags = new_data.flags;
                true
            },
            Err(_) => false,
        }
    }

    /// Takes the list from a SUCC tree: a list of component addresses.
    pub fn load_from_file(&mut self, data: &SuccType) -> (r: Result<(), SuccError>)
        ensures
            match data {
                SuccType::Any => r is Ok && final(self)@ == Seq::<u32>::empty(),
                SuccType::List(entries) => match spec_load(entries@, 0, Seq::empty()) {
                    Ok(flags) => r is Ok && final(self)@ == flags,
                    Err(e) => r == Err::<(), SuccError>(e) && final(self)@ == old(self)@,
                },
                _ => r == Err::<(), SuccError>(SuccError::WrongKind) && final(self)@ == old(self)@,
            },
    {
        let root = data.expect_list()?;
        let mut list: Vec<u32> = Vec::new();
        let mut i: usize = 0;
        while i < root.len()
            invariant
                i <= root@.len(),
                data is Any || data is List,
                data is Any ==> root@.len() == 0,
                data matches SuccType::List(entries) ==> root@ == entries@,
                spec_load(root@, i as int, list@) == spec_load(root@, 0, Seq::empty()),
                *self == *old(self),
            decreases root@.len() - i,
        {
            let address = root[i].expect_component_address()?;
            list.push(address);
            i += 1;
        }
        self.flags = list;
        Ok(())
    }

    pub fn key(&self) -> (key: String)
        ensures
            key@ == KEY@,
    {
        KEY.to_owned()
    }

    pub fn data_type_network(&self) -> (name: &'static str)
        ensures
            name@ == TYPE@,
    {
        TYPE
    }

    pub fn data_type_file(&self) -> (name: &'static str)
        ensures
            name@ == FILE_TYPE@,
    {
        FILE_TYPE
    }

    /// An array of the flags, each in an array of its own.
    pub fn serialize_data(&self) -> (buffer: Vec<u8>)
        requires
            self@.len() <= 0xFFFF_FFFF,
        ensures
            buffer@ == array_header(self@.len() as u32) + wrapped_encoding(self@),
    {
        let mut buffer: Vec<u8> = Vec::new();
        write_array_auto(&mut buffer, self.flags.len() as u32);
        let ghost head = buffer@;
        let mut i: usize = 0;
        assert(self@.subrange(0, 0) =~= Seq::empty());
        assert(buffer@ =~= head + wrapped_encoding(self@.subrange(0, 0)));
        while i < self.flags.len()
            invariant
                i <= self.flags.len(),
                buffer@ == head + wrapped_encoding(self@.subrange(0, i as int)),
            decreases self.flags.len() - i,
        {
            let ghost before = wrapped_encoding(self@.subrange(0, i as int));
            write_array_auto(&mut buffer, 1);
            write_int_auto(&mut buffer, self.flags[i]);
            proof {
                let upto = self@.subrange(0, i as int + 1);
                assert(upto.drop_last() =~= self@.subrange(0, i as int));
                lemma_appended(head, before, array_header(1));
                lemma_appended(
                    head,
                    before + array_header(1),
                    crate::network::message_pack::writer::int_encoding(self@[i as int] as int),
                );
            }
            i += 1;
        }
        assert(self@.subrange(0, i as int) =~= self@);
        assert(head =~= array_header(self@.len() as u32));
        buffer
    }
}

} // verus!
