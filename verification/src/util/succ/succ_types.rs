//! The tree that a SUCC file spells, and how values are taken from it.

use crate::files::world_data::world_structs::Color24;
use crate::util::error_handling::SuccError;
use crate::util::text::is_text;
use vstd::prelude::*;
use vstd::string::*;

verus! {

/// A node of a SUCC tree.
pub enum SuccType {
    /// A key without value and without children: an empty map or an empty list.
    Any,
    /// A text.
    Value(String),
    /// Entries under keys, in the order of the file. A key may occur twice;
    /// the last entry counts.
    Mapping(Vec<(String, SuccType)>),
    List(Vec<SuccType>),
}

/// A SUCC tree as a value.
pub enum SuccTree {
    Any,
    Value(Seq<char>),
    Mapping(Seq<(Seq<char>, SuccTree)>),
    List(Seq<SuccTree>),
}

/// The values of the first `upto` entries of a map.
pub open spec fn entry_trees(entries: Vec<(String, SuccType)>, upto: int) -> Seq<
    (Seq<char>, SuccTree),
>
    decreases entries, upto,
{
    if 0 < upto <= entries@.len() {
        entry_trees(entries, upto - 1).push((entries[upto - 1].0@, entries[upto - 1].1.tree()))
    } else {
        Seq::empty()
    }
}

/// The values of the first `upto` entries of a list.
pub open spec fn list_trees(entries: Vec<SuccType>, upto: int) -> Seq<SuccTree>
    decreases entries, upto,
{
    if 0 < upto <= entries@.len() {
        list_trees(entries, upto - 1).push(entries[upto - 1].tree())
    } else {
        Seq::empty()
    }
}

impl SuccType {
    /// The tree as a value.
    pub open spec fn tree(self) -> SuccTree
        decreases self, 0int,
    {
        match self {
            SuccType::Any => SuccTree::Any,
            SuccType::Value(text) => SuccTree::Value(text@),
            SuccType::Mapping(entries) => SuccTree::Mapping(
                entry_trees(entries, entries@.len() as int),
            ),
            SuccType::List(entries) => SuccTree::List(list_trees(entries, entries@.len() as int)),
        }
    }
}

/// The number that decimal digits spell.
pub open spec fn decimal_value(digits: Seq<char>) -> int
    decreases digits.len(),
{
    if digits.len() == 0 {
        0
    } else {
        10 * decimal_value(digits.drop_last()) + (digits.last() as u32 - '0' as u32)
    }
}

/// Whether every character is a decimal digit.
pub open spec fn all_digits(digits: Seq<char>) -> bool {
    forall|i: int| 0 <= i < digits.len() ==> '0' <= #[trigger] digits[i] <= '9'
}

/// The unsigned 32-bit integer that a text spells: decimal digits, with a
/// `+` before them or without, and nothing where there is no digit, where
/// another character stands among them, or where the number does not fit.
pub open spec fn parsed_u32(text: Seq<char>) -> Option<u32> {
    let digits = if text.len() > 0 && text[0] == '+' {
        text.subrange(1, text.len() as int)
    } else {
        text
    };
    if digits.len() > 0 && all_digits(digits) && decimal_value(digits) <= 0xFFFF_FFFF {
        Some(decimal_value(digits) as u32)
    } else {
        None
    }
}

/// The first digits of a number spell no more than all of them.
pub proof fn lemma_decimal_grows(digits: Seq<char>, upto: int)
    requires
        0 <= upto <= digits.len(),
        all_digits(digits),
    ensures
        0 <= decimal_value(digits.subrange(0, upto)) <= decimal_value(digits),
    decreases digits.len(),
{
    if upto < digits.len() {
        lemma_decimal_grows(digits.drop_last(), upto);
        assert(digits.drop_last().subrange(0, upto) =~= digits.subrange(0, upto));
    } else {
        assert(digits.subrange(0, upto) =~= digits);
        if digits.len() > 0 {
            lemma_decimal_grows(digits.drop_last(), upto - 1);
        }
    }
}

fn parse_u32(text: &str) -> (r: Option<u32>)
    ensures
        r == parsed_u32(text@),
{
    let length = text.unicode_len();
    let start: usize = if length > 0 && text.get_char(0) == '+' {
        1
    } else {
        0
    };
    if start >= length {
        return None;
    }
    let ghost digits = text@.subrange(start as int, length as int);
    let mut value: u64 = 0;
    let mut i: usize = start;
    assert(digits.subrange(0, 0) =~= Seq::empty());
    assert(text@.subrange(0, length as int) =~= text@);
    while i < length
        invariant
            start <= i <= length,
            length == text@.len(),
            digits == text@.subrange(start as int, length as int),
            all_digits(digits.subrange(0, i - start)),
            value == decimal_value(digits.subrange(0, i - start)),
            value <= 0xFFFF_FFFF,
            parsed_u32(text@) == if all_digits(digits) && decimal_value(digits) <= 0xFFFF_FFFF {
                Some(decimal_value(digits) as u32)
            } else {
                None
            },
        decreases length - i,
    {
        let c = text.get_char(i);
        assert(c == digits[i - start]);
        if c < '0' || c > '9' {
            return None;
        }
        let digit: u32 = c as u32 - '0' as u32;
        value = value * 10 + digit as u64;
        proof {
            let longer = digits.subrange(0, i + 1 - start);
            assert(longer.drop_last() =~= digits.subrange(0, i - start));
            assert(longer.last() == c);
            if all_digits(digits) {
                lemma_decimal_grows(digits, i + 1 - start);
            }
        }
        if value > 0xFFFF_FFFF {
            return None;
        }
        i += 1;
    }
    assert(digits.subrange(0, i - start) =~= digits);
    Some(value as u32)
}

/// The value of a hexadecimal digit, capital letters only.
pub open spec fn hex_value(c: char) -> Option<u8> {
    if '0' <= c <= '9' {
        Some((c as u32 - '0' as u32) as u8)
    } else if 'A' <= c <= 'F' {
        Some((c as u32 - 'A' as u32 + 10) as u8)
    } else {
        None
    }
}

/// The colour that six hexadecimal digits spell, two for each of red, green
/// and blue.
pub open spec fn spec_color(text: Seq<char>) -> Option<Color24> {
    if text.len() == 6 && (forall|i: int| 0 <= i < 6 ==> hex_value(#[trigger] text[i]) is Some) {
        Some(
            Color24 {
                r: (hex_value(text[0])->Some_0 * 16 + hex_value(text[1])->Some_0) as u8,
                g: (hex_value(text[2])->Some_0 * 16 + hex_value(text[3])->Some_0) as u8,
                b: (hex_value(text[4])->Some_0 * 16 + hex_value(text[5])->Some_0) as u8,
            },
        )
    } else {
        None
    }
}

/// The bool that a text spells.
pub open spec fn spec_bool(text: Seq<char>) -> Option<bool> {
    if text == "true"@ || text == "on"@ || text == "yes"@ || text == "y"@ {
        Some(true)
    } else if text == "false"@ || text == "off"@ || text == "no"@ || text == "n"@ {
        Some(false)
    } else {
        None
    }
}

/// The component address that a text spells: `C-`, then the number.
pub open spec fn spec_component_address(text: Seq<char>) -> Option<u32> {
    if text.len() >= 2 && text[0] == 'C' && text[1] == '-' {
        parsed_u32(text.subrange(2, text.len() as int))
    } else {
        None
    }
}

fn hex_digit(c: char) -> (r: Option<u8>)
    ensures
        r == hex_value(c),
{
    if '0' <= c && c <= '9' {
        Some((c as u32 - '0' as u32) as u8)
    } else if 'A' <= c && c <= 'F' {
        Some((c as u32 - 'A' as u32 + 10) as u8)
    } else {
        None
    }
}

impl SuccType {
    /// The error, if any, with which a value of the kind `T` is taken from a text.
    pub open spec fn taken<T>(found: Option<T>) -> Result<T, SuccError> {
        match found {
            Some(value) => Ok(value),
            None => Err(SuccError::WrongValue),
        }
    }

    pub fn name(&self) -> (name: &'static str)
        ensures
            name@ == match self {
                SuccType::Any => "Any"@,
                SuccType::Value(_) => "Value"@,
                SuccType::Mapping(_) => "Map"@,
                SuccType::List(_) => "List"@,
            },
    {
        match self {
            SuccType::Any => "Any",
            SuccType::Value(_) => "Value",
            SuccType::Mapping(_) => "Map",
            SuccType::List(_) => "List",
        }
    }

    pub fn is_any(&self) -> (r: bool)
        ensures
            r == (self is Any),
    {
        match self {
            SuccType::Any => true,
            _ => false,
        }
    }

    pub fn is_value(&self) -> (r: bool)
        ensures
            r == (self is Value),
    {
        match self {
            SuccType::Value(_) => true,
            _ => false,
        }
    }

    pub fn get_value(&self) -> (r: Option<&str>)
        ensures
            r is Some <==> self is Value,
            r matches Some(text) ==> text@ == self->Value_0@,
    {
        match self {
            SuccType::Value(value) => Some(value.as_str()),
            _ => None,
        }
    }

    /// An empty node counts as a map.
    pub fn is_map(&self) -> (r: bool)
        ensures
            r == (self is Any || self is Mapping),
    {
        match self {
            SuccType::Any => true,
            SuccType::Mapping(_) => true,
            _ => false,
        }
    }

    pub fn get_map(&self) -> (r: Option<&Vec<(String, SuccType)>>)
        ensures
            r is Some <==> self is Mapping,
            r matches Some(entries) ==> *entries == self->Mapping_0,
    {
        match self {
            SuccType::Mapping(value) => Some(value),
            _ => None,
        }
    }

    /// An empty node counts as a list.
    pub fn is_list(&self) -> (r: bool)
        ensures
            r == (self is Any || self is List),
    {
        match self {
            SuccType::Any => true,
            SuccType::List(_) => true,
            _ => false,
        }
    }

    pub fn get_list(&self) -> (r: Option<&Vec<SuccType>>)
        ensures
            r is Some <==> self is List,
            r matches Some(entries) ==> *entries == self->List_0,
    {
        match self {
            SuccType::List(value) => Some(value),
            _ => None,
        }
    }

    /// The entries of a map. An empty node has none.
    pub fn expect_map(&self) -> (r: Result<&[(String, SuccType)], SuccError>)
        ensures
            r is Ok <==> (self is Any || self is Mapping),
            r is Err ==> r->Err_0 == SuccError::WrongKind,
            r matches Ok(entries) ==> entries@ == match self {
                SuccType::Mapping(list) => list@,
                _ => Seq::empty(),
            },
    {
        match self {
            SuccType::Mapping(value) => Ok(value.as_slice()),
            SuccType::Any => {
                let empty: &[(String, SuccType)] = &[];
                Ok(empty)
            },
            _ => Err(SuccError::WrongKind),
        }
    }

    /// The entries of a list. An empty node has none.
    pub fn expect_list(&self) -> (r: Result<&[SuccType], SuccError>)
        ensures
            r is Ok <==> (self is Any || self is List),
            r is Err ==> r->Err_0 == SuccError::WrongKind,
            r matches Ok(entries) ==> entries@ == match self {
                SuccType::List(list) => list@,
                _ => Seq::empty(),
            },
    {
        match self {
            SuccType::List(value) => Ok(value.as_slice()),
            SuccType::Any => {
                let empty: &[SuccType] = &[];
                Ok(empty)
            },
            _ => Err(SuccError::WrongKind),
        }
    }

    pub fn expect_string(&self) -> (r: Result<&str, SuccError>)
        ensures
            r is Ok <==> self is Value,
            r is Err ==> r->Err_0 == SuccError::WrongKind,
            r matches Ok(text) ==> text@ == self->Value_0@,
    {
        match self {
            SuccType::Value(value) => Ok(value.as_str()),
            _ => Err(SuccError::WrongKind),
        }
    }

    pub fn expect_bool(&self) -> (r: Result<bool, SuccError>)
        ensures
            r == match self {
                SuccType::Value(text) => SuccType::taken(spec_bool(text@)),
                _ => Err(SuccError::WrongKind),
            },
    {
        let value = self.expect_string()?;
        if is_text(value, "true") || is_text(value, "on") || is_text(value, "yes") || is_text(
            value,
            "y",
        ) {
            Ok(true)
        } else if is_text(value, "false") || is_text(value, "off") || is_text(value, "no")
            || is_text(value, "n") {
            Ok(false)
        } else {
            Err(SuccError::WrongValue)
        }
    }

    pub fn expect_color(&self) -> (r: Result<Color24, SuccError>)
        ensures
            r == match self {
                SuccType::Value(text) => SuccType::taken(spec_color(text@)),
                _ => Err(SuccError::WrongKind),
            },
    {
        let value = self.expect_string()?;
        if value.unicode_len() != 6 {
            return Err(SuccError::WrongValue);
        }
        let mut digits: Vec<u8> = Vec::new();
        let mut i: usize = 0;
        while i < 6
            invariant
                i <= 6,
                self is Value,
                value@ == self->Value_0@,
                value@.len() == 6,
                digits@.len() == i,
                forall|k: int|
                    0 <= k < i ==> hex_value(#[trigger] value@[k]) == Some(digits@[k]),
            decreases 6 - i,
        {
            match hex_digit(value.get_char(i)) {
                Some(digit) => digits.push(digit),
                None => {
                    return Err(SuccError::WrongValue);
                },
            }
            i += 1;
        }
        Ok(
            Color24 {
                r: digits[0] * 16 + digits[1],
                g: digits[2] * 16 + digits[3],
                b: digits[4] * 16 + digits[5],
            },
        )
    }

    pub fn expect_unsigned(&self) -> (r: Result<u32, SuccError>)
        ensures
            r == match self {
                SuccType::Value(text) => SuccType::taken(parsed_u32(text@)),
                _ => Err(SuccError::WrongKind),
            },
    {
        let value = self.expect_string()?;
        match parse_u32(value) {
            Some(number) => Ok(number),
            None => Err(SuccError::WrongValue),
        }
    }

    pub fn expect_component_address(&self) -> (r: Result<u32, SuccError>)
        ensures
            r == match self {
                SuccType::Value(text) => SuccType::taken(spec_component_address(text@)),
                _ => Err(SuccError::WrongKind),
            },
    {
        let value = self.expect_string()?;
        let length = value.unicode_len();
        if length < 2 || value.get_char(0) != 'C' || value.get_char(1) != '-' {
            return Err(SuccError::WrongValue);
        }
        match parse_u32(value.substring_char(2, length)) {
            Some(number) => Ok(number),
            None => Err(SuccError::WrongValue),
        }
    }
}

/// The place of the last entry with the key, where there is one.
pub open spec fn last_with_key(entries: Seq<(String, SuccType)>, key: Seq<char>) -> Option<int>
    decreases entries.len(),
{
    if entries.len() == 0 {
        None
    } else if entries.last().0@ == key {
        Some(entries.len() - 1)
    } else {
        last_with_key(entries.drop_last(), key)
    }
}

/// The entry of a map under `key`; of several, the last.
pub fn lookup<'a>(entries: &'a [(String, SuccType)], key: &str) -> (r: Option<&'a SuccType>)
    ensures
        match last_with_key(entries@, key@) {
            Some(index) => 0 <= index < entries@.len() && r == Some(&entries@[index].1),
            None => r is None,
        },
{
    let wanted = key.to_owned();
    let mut i: usize = entries.len();
    assert(entries@.subrange(0, i as int) =~= entries@);
    while i > 0
        invariant
            i <= entries@.len(),
            wanted@ == key@,
            last_with_key(entries@, key@) == last_with_key(entries@.subrange(0, i as int), key@),
        decreases i,
    {
        let ghost upto = entries@.subrange(0, i as int);
        assert(upto.last() == entries@[i - 1]);
        assert(upto.drop_last() =~= entries@.subrange(0, i - 1));
        i -= 1;
        if entries[i].0 == wanted {
            return Some(&entries[i].1);
        }
    }
    None
}

} // verus!
