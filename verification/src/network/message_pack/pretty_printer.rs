//! Lays out a MessagePack stream for diagnostics: one line for each value,
//! with a prefix that draws the tree of arrays and maps. The lines are
//! handed out as values; putting them on a screen is the caller's part.

use crate::network::message_pack::reader::{
    check_null, ext_read_as, read_array, read_bool, read_bytes, read_ext, read_f32, read_f64,
    read_i64, read_map, read_string, read_u32, read_u64, spec_check_null, spec_read_array,
    spec_read_bool, spec_read_bytes, spec_read_ext, spec_read_float_32, spec_read_float_64,
    spec_read_i64, spec_read_map, spec_read_string, spec_read_u32, spec_read_u64,
    string_read_as,
};
use crate::util::custom_iterator::{bytes_read_as, Cursor, CustomIterator};
use crate::util::error_handling::ReadError;
use vstd::prelude::*;
use vstd::string::*;

verus! {

/// What a line shows.
pub enum PrintedValue {
    Unsigned(u64),
    Signed(i64),
    /// The bit pattern of a 32-bit float.
    Float32(u32),
    /// The bit pattern of a 64-bit float.
    Float64(u64),
    Text(String),
    Bytes(Vec<u8>),
    /// The tag and the data of an ext value.
    Ext(u8, Vec<u8>),
    Null,
    /// The type byte that MessagePack never uses.
    NeverUsed,
    Bool(bool),
    /// The number of elements of an array, which follow.
    Array(u32),
    /// The number of entries of a map, which follow.
    Dictionary(u32),
    /// The id of a packet.
    PacketId(u32),
}

/// What a line shows, as a value.
pub enum PrintedData {
    Unsigned(u64),
    Signed(i64),
    Float32(u32),
    Float64(u64),
    Text(Seq<char>),
    Bytes(Seq<u8>),
    Ext(u8, Seq<u8>),
    Null,
    NeverUsed,
    Bool(bool),
    Array(u32),
    Dictionary(u32),
    PacketId(u32),
}

impl View for PrintedValue {
    type V = PrintedData;

    open spec fn view(&self) -> PrintedData {
        match self {
            PrintedValue::Unsigned(value) => PrintedData::Unsigned(*value),
            PrintedValue::Signed(value) => PrintedData::Signed(*value),
            PrintedValue::Float32(bits) => PrintedData::Float32(*bits),
            PrintedValue::Float64(bits) => PrintedData::Float64(*bits),
            PrintedValue::Text(text) => PrintedData::Text(text@),
            PrintedValue::Bytes(bytes) => PrintedData::Bytes(bytes@),
            PrintedValue::Ext(tag, bytes) => PrintedData::Ext(*tag, bytes@),
            PrintedValue::Null => PrintedData::Null,
            PrintedValue::NeverUsed => PrintedData::NeverUsed,
            PrintedValue::Bool(value) => PrintedData::Bool(*value),
            PrintedValue::Array(amount) => PrintedData::Array(*amount),
            PrintedValue::Dictionary(amount) => PrintedData::Dictionary(*amount),
            PrintedValue::PacketId(id) => PrintedData::PacketId(*id),
        }
    }
}

/// One line: the prefix that draws the tree, the value, and the name of the
/// form in which the value stands in the stream.
pub struct PrintedLine {
    pub prefix: String,
    pub value: PrintedValue,
    pub form: &'static str,
}

/// One line, as a value.
pub struct LineView {
    pub prefix: Seq<char>,
    pub value: PrintedData,
    pub form: Seq<char>,
}

impl View for PrintedLine {
    type V = LineView;

    open spec fn view(&self) -> LineView {
        LineView { prefix: self.prefix@, value: self.value@, form: self.form@ }
    }
}

/// The lines of a list as values.
pub open spec fn line_views(lines: Seq<PrintedLine>) -> Seq<LineView> {
    Seq::new(lines.len(), |i: int| lines[i]@)
}

/// The name of the form that the type byte introduces.
pub open spec fn form_name(t: u8) -> Seq<char> {
    if t <= 0x7F {
        "PosFixInt"@
    } else if t <= 0x8F {
        "FixMap"@
    } else if t <= 0x9F {
        "FixArray"@
    } else if t <= 0xBF {
        "FixString"@
    } else if t == 0xC0 {
        "Null"@
    } else if t == 0xC1 {
        "NeverUsed"@
    } else if t == 0xC2 || t == 0xC3 {
        "Bool"@
    } else if t == 0xC4 {
        "8BitByteArray"@
    } else if t == 0xC5 {
        "16BitByteArray"@
    } else if t == 0xC6 {
        "32BitByteArray"@
    } else if t == 0xC7 {
        "8Ext"@
    } else if t == 0xC8 {
        "16Ext"@
    } else if t == 0xC9 {
        "32Ext"@
    } else if t == 0xCA {
        "32BitFloat"@
    } else if t == 0xCB {
        "64BitFloat"@
    } else if t == 0xCC {
        "8UInt"@
    } else if t == 0xCD {
        "16UInt"@
    } else if t == 0xCE {
        "32UInt"@
    } else if t == 0xCF {
        "64UInt"@
    } else if t == 0xD0 {
        "8SInt"@
    } else if t == 0xD1 {
        "16SInt"@
    } else if t == 0xD2 {
        "32SInt"@
    } else if t == 0xD3 {
        "64SInt"@
    } else if t == 0xD4 {
        "FixExt1"@
    } else if t == 0xD5 {
        "FixExt2"@
    } else if t == 0xD6 {
        "FixExt4"@
    } else if t == 0xD7 {
        "FixExt8"@
    } else if t == 0xD8 {
        "FixExt16"@
    } else if t == 0xD9 {
        "8BitLengthString"@
    } else if t == 0xDA {
        "16BitLengthString"@
    } else if t == 0xDB {
        "32BitLengthString"@
    } else if t == 0xDC {
        "16BitLengthArray"@
    } else if t == 0xDD {
        "32BitLengthArray"@
    } else if t == 0xDE {
        "16BitLengthMap"@
    } else if t == 0xDF {
        "32BitLengthMap"@
    } else {
        "NegFixInt"@
    }
}

/// The prefixes of the child with the number `index` among the `count`
/// children of an array or a map, whose own second prefix is `other`: the
/// prefix of the line of the child, and the prefix that the lines below it
/// begin with. The children of a map are its keys and values in turn.
pub open spec fn child_prefixes(other: Seq<char>, is_map: bool, index: int, count: int) -> (
    Seq<char>,
    Seq<char>,
) {
    if !is_map {
        if index == count - 1 {
            (other + " └"@, other + "  "@)
        } else {
            (other + " ├"@, other + " │"@)
        }
    } else if index / 2 + 1 == count / 2 {
        if index % 2 == 0 {
            (other + " └"@, other + "   │"@)
        } else {
            (other + "   └"@, other + "    "@)
        }
    } else {
        if index % 2 == 0 {
            (other + " ├"@, other + " │ │"@)
        } else {
            (other + " │ └"@, other + " │  "@)
        }
    }
}

/// What laying out ended with, where it stood then, and the lines so far.
pub struct Printed {
    pub result: Result<(), ReadError>,
    pub cursor: Cursor,
    pub lines: Seq<LineView>,
}

/// The value that stands at the cursor, which is no array and no map, with
/// the cursor behind it.
pub open spec fn spec_plain_value(c: Cursor, t: u8) -> (Result<PrintedData, ReadError>, Cursor) {
    if t <= 0x7F || (0xCC <= t <= 0xCF) {
        match spec_read_u64(c) {
            (Ok(value), c1) => (Ok(PrintedData::Unsigned(value)), c1),
            (Err(e), c1) => (Err(e), c1),
        }
    } else if t >= 0xE0 || (0xD0 <= t <= 0xD3) {
        match spec_read_i64(c) {
            (Ok(value), c1) => (Ok(PrintedData::Signed(value)), c1),
            (Err(e), c1) => (Err(e), c1),
        }
    } else if (0xA0 <= t <= 0xBF) || (0xD9 <= t <= 0xDB) {
        match spec_read_string(c) {
            (Ok(text), c1) => (Ok(PrintedData::Text(text)), c1),
            (Err(e), c1) => (Err(e), c1),
        }
    } else if t == 0xC0 {
        (Ok(PrintedData::Null), c.skipped(1))
    } else if t == 0xC1 {
        (Ok(PrintedData::NeverUsed), c.skipped(1))
    } else if t == 0xC2 || t == 0xC3 {
        (Ok(PrintedData::Bool(t == 0xC3)), c.skipped(1))
    } else if 0xC4 <= t <= 0xC6 {
        match spec_read_bytes(c) {
            (Ok(bytes), c1) => (Ok(PrintedData::Bytes(bytes)), c1),
            (Err(e), c1) => (Err(e), c1),
        }
    } else if t == 0xCA {
        match spec_read_float_32(c) {
            (Ok(bits), c1) => (Ok(PrintedData::Float32(bits)), c1),
            (Err(e), c1) => (Err(e), c1),
        }
    } else if t == 0xCB {
        match spec_read_float_64(c) {
            (Ok(bits), c1) => (Ok(PrintedData::Float64(bits)), c1),
            (Err(e), c1) => (Err(e), c1),
        }
    } else {
        match spec_read_ext(c) {
            (Ok(ext), c1) => (Ok(PrintedData::Ext(ext.0, ext.1)), c1),
            (Err(e), c1) => (Err(e), c1),
        }
    }
}

/// Whether the type byte introduces an array.
pub open spec fn is_array_type(t: u8) -> bool {
    (0x90 <= t <= 0x9F) || t == 0xDC || t == 0xDD
}

/// Whether the type byte introduces a map.
pub open spec fn is_map_type(t: u8) -> bool {
    (0x80 <= t <= 0x8F) || t == 0xDE || t == 0xDF
}

/// Lays out the children of an array or a map from the number `index` on.
pub open spec fn spec_objects(
    c: Cursor,
    index: int,
    count: int,
    is_map: bool,
    other: Seq<char>,
    lines: Seq<LineView>,
) -> Printed
    decreases c.remaining(), count - index + 1,
{
    if index < 0 || index >= count {
        Printed { result: Ok(()), cursor: c, lines }
    } else {
        let child = spec_entry(
            c,
            child_prefixes(other, is_map, index, count).0,
            child_prefixes(other, is_map, index, count).1,
            lines,
        );
        if child.result is Ok && child.cursor.remaining() < c.remaining() {
            spec_objects(child.cursor, index + 1, count, is_map, other, child.lines)
        } else {
            child
        }
    }
}

/// Lays out the value at the cursor: its own line begins with `first`, the
/// lines of what it holds with `other`.
pub open spec fn spec_entry(c: Cursor, first: Seq<char>, other: Seq<char>, lines: Seq<LineView>)
    -> Printed
    decreases c.remaining(), 0int,
{
    match c.peek() {
        Err(e) => Printed { result: Err(e), cursor: c, lines },
        Ok(t) => if is_array_type(t) {
            match spec_read_array(c) {
                (Ok(amount), c1) => if c1.remaining() < c.remaining() {
                    spec_objects(
                        c1,
                        0,
                        amount as int,
                        false,
                        other,
                        lines.push(
                            LineView {
                                prefix: first,
                                value: PrintedData::Array(amount),
                                form: form_name(t),
                            },
                        ),
                    )
                } else {
                    Printed { result: Ok(()), cursor: c1, lines }
                },
                (Err(e), c1) => Printed { result: Err(e), cursor: c1, lines },
            }
        } else if is_map_type(t) {
            match spec_read_map(c) {
                (Ok(amount), c1) => if c1.remaining() < c.remaining() {
                    spec_objects(
                        c1,
                        0,
                        2 * amount,
                        true,
                        other,
                        lines.push(
                            LineView {
                                prefix: first,
                                value: PrintedData::Dictionary(amount),
                                form: form_name(t),
                            },
                        ),
                    )
                } else {
                    Printed { result: Ok(()), cursor: c1, lines }
                },
                (Err(e), c1) => Printed { result: Err(e), cursor: c1, lines },
            }
        } else {
            match spec_plain_value(c, t) {
                (Ok(value), c1) => Printed {
                    result: Ok(()),
                    cursor: c1,
                    lines: lines.push(LineView { prefix: first, value, form: form_name(t) }),
                },
                (Err(e), c1) => Printed { result: Err(e), cursor: c1, lines },
            }
        },
    }
}

/// What laying out a stream gives.
pub struct PrettyPrinted {
    pub lines: Vec<PrintedLine>,
    /// The error that ended the layout, if one did.
    pub error: Option<ReadError>,
    /// The number of bytes behind the value that was laid out.
    pub left_over: usize,
}

/// What laying out a stream gives, as a value.
pub struct PrettyPrintedData {
    pub lines: Seq<LineView>,
    pub error: Option<ReadError>,
    pub left_over: int,
}

impl View for PrettyPrinted {
    type V = PrettyPrintedData;

    open spec fn view(&self) -> PrettyPrintedData {
        PrettyPrintedData {
            lines: line_views(self.lines@),
            error: self.error,
            left_over: self.left_over as int,
        }
    }
}

/// What the layout of a value gives.
pub open spec fn spec_printed(printed: Printed) -> PrettyPrintedData {
    match printed.result {
        Ok(_) => PrettyPrintedData {
            lines: printed.lines,
            error: None,
            left_over: printed.cursor.remaining(),
        },
        Err(e) => PrettyPrintedData { lines: printed.lines, error: Some(e), left_over: 0 },
    }
}

/// The layout of the stream at the cursor, which begins with the id of a
/// packet if `packet` says so, and then holds one value.
pub open spec fn spec_pretty_print(c: Cursor, packet: bool) -> PrettyPrintedData {
    if packet {
        match spec_read_u32(c) {
            (Ok(id), c1) => spec_printed(
                spec_entry(
                    c1,
                    " └"@,
                    "  "@,
                    seq![
                        LineView {
                            prefix: Seq::empty(),
                            value: PrintedData::PacketId(id),
                            form: "PacketId"@,
                        },
                    ],
                ),
            ),
            (Err(e), _) => PrettyPrintedData { lines: Seq::empty(), error: Some(e), left_over: 0 },
        }
    } else {
        spec_printed(spec_entry(c, " └"@, "  "@, Seq::empty()))
    }
}

fn name_of_form(t: u8) -> (name: &'static str)
    ensures
        name@ == form_name(t),
{
    if t <= 0x7F {
        "PosFixInt"
    } else if t <= 0x8F {
        "FixMap"
    } else if t <= 0x9F {
        "FixArray"
    } else if t <= 0xBF {
        "FixString"
    } else if t == 0xC0 {
        "Null"
    } else if t == 0xC1 {
        "NeverUsed"
    } else if t == 0xC2 || t == 0xC3 {
        "Bool"
    } else if t == 0xC4 {
        "8BitByteArray"
    } else if t == 0xC5 {
        "16BitByteArray"
    } else if t == 0xC6 {
        "32BitByteArray"
    } else if t == 0xC7 {
        "8Ext"
    } else if t == 0xC8 {
        "16Ext"
    } else if t == 0xC9 {
        "32Ext"
    } else if t == 0xCA {
        "32BitFloat"
    } else if t == 0xCB {
        "64BitFloat"
    } else if t == 0xCC {
        "8UInt"
    } else if t == 0xCD {
        "16UInt"
    } else if t == 0xCE {
        "32UInt"
    } else if t == 0xCF {
        "64UInt"
    } else if t == 0xD0 {
        "8SInt"
    } else if t == 0xD1 {
        "16SInt"
    } else if t == 0xD2 {
        "32SInt"
    } else if t == 0xD3 {
        "64SInt"
    } else if t == 0xD4 {
        "FixExt1"
    } else if t == 0xD5 {
        "FixExt2"
    } else if t == 0xD6 {
        "FixExt4"
    } else if t == 0xD7 {
        "FixExt8"
    } else if t == 0xD8 {
        "FixExt16"
    } else if t == 0xD9 {
        "8BitLengthString"
    } else if t == 0xDA {
        "16BitLengthString"
    } else if t == 0xDB {
        "32BitLengthString"
    } else if t == 0xDC {
        "16BitLengthArray"
    } else if t == 0xDD {
        "32BitLengthArray"
    } else if t == 0xDE {
        "16BitLengthMap"
    } else if t == 0xDF {
        "32BitLengthMap"
    } else {
        "NegFixInt"
    }
}

fn joined(prefix: &str, suffix: &str) -> (text: String)
    ensures
        text@ == prefix@ + suffix@,
{
    let mut text = prefix.to_owned();
    text.append(suffix);
    text
}

fn prefixes_of_child(other: &str, is_map: bool, index: u64, count: u64) -> (r: (String, String))
    requires
        index < count,
    ensures
        (r.0@, r.1@) == child_prefixes(other@, is_map, index as int, count as int),
{
    if !is_map {
        if index == count - 1 {
            (joined(other, " └"), joined(other, "  "))
        } else {
            (joined(other, " ├"), joined(other, " │"))
        }
    } else if index / 2 + 1 == count / 2 {
        if index % 2 == 0 {
            (joined(other, " └"), joined(other, "   │"))
        } else {
            (joined(other, "   └"), joined(other, "    "))
        }
    } else {
        if index % 2 == 0 {
            (joined(other, " ├"), joined(other, " │ │"))
        } else {
            (joined(other, " │ └"), joined(other, " │  "))
        }
    }
}

fn push_line(lines: &mut Vec<PrintedLine>, prefix: &str, value: PrintedValue, form: &'static str)
    ensures
        line_views(final(lines)@) == line_views(old(lines)@).push(
            LineView { prefix: prefix@, value: value@, form: form@ },
        ),
{
    lines.push(PrintedLine { prefix: prefix.to_owned(), value, form });
    assert(line_views(lines@) =~= line_views(old(lines)@).push(
        LineView { prefix: prefix@, value: value@, form: form@ },
    ));
}

fn plain_value(iterator: &mut CustomIterator, t: u8) -> (r: Result<PrintedValue, ReadError>)
    requires
        old(iterator)@.peek() == Ok::<u8, ReadError>(t),
        old(iterator)@.position < usize::MAX,
    ensures
        final(iterator)@.bytes == old(iterator)@.bytes,
        final(iterator)@ == spec_plain_value(old(iterator)@, t).1,
        match spec_plain_value(old(iterator)@, t).0 {
            Ok(value) => r is Ok && r->Ok_0@ == value,
            Err(e) => r is Err && r->Err_0 == e,
        },
{
    if t <= 0x7F || (0xCC <= t && t <= 0xCF) {
        Ok(PrintedValue::Unsigned(read_u64(iterator)?))
    } else if t >= 0xE0 || (0xD0 <= t && t <= 0xD3) {
        Ok(PrintedValue::Signed(read_i64(iterator)?))
    } else if (0xA0 <= t && t <= 0xBF) || (0xD9 <= t && t <= 0xDB) {
        Ok(PrintedValue::Text(read_string(iterator)?))
    } else if t == 0xC0 {
        iterator.skip();
        Ok(PrintedValue::Null)
    } else if t == 0xC1 {
        iterator.skip();
        Ok(PrintedValue::NeverUsed)
    } else if t == 0xC2 || t == 0xC3 {
        iterator.skip();
        Ok(PrintedValue::Bool(t == 0xC3))
    } else if 0xC4 <= t && t <= 0xC6 {
        Ok(PrintedValue::Bytes(read_bytes(iterator)?))
    } else if t == 0xCA {
        Ok(PrintedValue::Float32(read_f32(iterator)?))
    } else if t == 0xCB {
        Ok(PrintedValue::Float64(read_f64(iterator)?))
    } else {
        let (tag, bytes) = read_ext(iterator)?;
        Ok(PrintedValue::Ext(tag, bytes))
    }
}

/// Lays out the children of an array or a map.
fn read_objects(
    iterator: &mut CustomIterator,
    count: u64,
    is_map: bool,
    previous_prefix: &str,
    lines: &mut Vec<PrintedLine>,
) -> (r: Result<(), ReadError>)
    ensures
        final(iterator)@.bytes == old(iterator)@.bytes,
        (Printed {
            result: r,
            cursor: final(iterator)@,
            lines: line_views(final(lines)@),
        }) == spec_objects(
            old(iterator)@,
            0,
            count as int,
            is_map,
            previous_prefix@,
            line_views(old(lines)@),
        ),
    decreases old(iterator)@.remaining(), count + 1,
{
    let mut index: u64 = 0;
    while index < count
        invariant
            index <= count,
            iterator@.bytes == old(iterator)@.bytes,
            iterator@.remaining() <= old(iterator)@.remaining(),
            spec_objects(
                iterator@,
                index as int,
                count as int,
                is_map,
                previous_prefix@,
                line_views(lines@),
            ) == spec_objects(
                old(iterator)@,
                0,
                count as int,
                is_map,
                previous_prefix@,
                line_views(old(lines)@),
            ),
        decreases count - index,
    {
        let before = iterator.remaining();
        let (first, other) = prefixes_of_child(previous_prefix, is_map, index, count);
        parse_entry(iterator, first.as_str(), other.as_str(), lines)?;
        if iterator.remaining() >= before {
            return Ok(());
        }
        index += 1;
    }
    Ok(())
}

/// Lays out the value at the cursor.
fn parse_entry(
    iterator: &mut CustomIterator,
    prefix_first: &str,
    prefix_other: &str,
    lines: &mut Vec<PrintedLine>,
) -> (r: Result<(), ReadError>)
    ensures
        final(iterator)@.bytes == old(iterator)@.bytes,
        (Printed {
            result: r,
            cursor: final(iterator)@,
            lines: line_views(final(lines)@),
        }) == spec_entry(
            old(iterator)@,
            prefix_first@,
            prefix_other@,
            line_views(old(lines)@),
        ),
    decreases old(iterator)@.remaining(), 0int,
{
    let before = iterator.remaining();
    let t = iterator.peek()?;
    let is_array = (0x90 <= t && t <= 0x9F) || t == 0xDC || t == 0xDD;
    let is_map = (0x80 <= t && t <= 0x8F) || t == 0xDE || t == 0xDF;
    if is_array {
        let amount = read_array(iterator)?;
        if iterator.remaining() >= before {
            return Ok(());
        }
        push_line(lines, prefix_first, PrintedValue::Array(amount), name_of_form(t));
        read_objects(iterator, amount as u64, false, prefix_other, lines)
    } else if is_map {
        let amount = read_map(iterator)?;
        if iterator.remaining() >= before {
            return Ok(());
        }
        push_line(lines, prefix_first, PrintedValue::Dictionary(amount), name_of_form(t));
        read_objects(iterator, 2 * (amount as u64), true, prefix_other, lines)
    } else {
        let value = plain_value(iterator, t)?;
        push_line(lines, prefix_first, value, name_of_form(t));
        Ok(())
    }
}

/// Lays out a stream that begins with the id of a packet.
pub fn pretty_print_packet(iterator: &mut CustomIterator) -> (printed: PrettyPrinted)
    ensures
        final(iterator)@ == old(iterator)@,
        printed@ == spec_pretty_print(old(iterator)@, true),
{
    pretty_print(iterator, true)
}

/// Lays out a stream that holds one value.
pub fn pretty_print_data(iterator: &mut CustomIterator) -> (printed: PrettyPrinted)
    ensures
        final(iterator)@ == old(iterator)@,
        printed@ == spec_pretty_print(old(iterator)@, false),
{
    pretty_print(iterator, false)
}

/// Lays out the stream at the cursor and leaves the cursor where it was.
pub fn pretty_print(iterator: &mut CustomIterator, packet: bool) -> (printed: PrettyPrinted)
    ensures
        final(iterator)@ == old(iterator)@,
        printed@ == spec_pretty_print(old(iterator)@, packet),
{
    let iterator_position = iterator.pointer_save();
    let printed = do_printing(iterator, packet);
    iterator.pointer_restore(iterator_position);
    printed
}

/// Lays out the stream at the cursor.
pub fn do_printing(iterator: &mut CustomIterator, packet: bool) -> (printed: PrettyPrinted)
    ensures
        final(iterator)@.bytes == old(iterator)@.bytes,
        printed@ == spec_pretty_print(old(iterator)@, packet),
{
    let mut lines: Vec<PrintedLine> = Vec::new();
    assert(line_views(lines@) =~= Seq::empty());
    if packet {
        match read_u32(iterator) {
            Err(err) => {
                return PrettyPrinted { lines, error: Some(err), left_over: 0 };
            },
            Ok(id) => {
                push_line(&mut lines, "", PrintedValue::PacketId(id), "PacketId");
                proof {
                    reveal_strlit("");
                    assert(""@ =~= Seq::<char>::empty());
                    assert(line_views(lines@) =~= seq![
                        LineView {
                            prefix: Seq::empty(),
                            value: PrintedData::PacketId(id),
                            form: "PacketId"@,
                        },
                    ]);
                }
            },
        }
    }
    match parse_entry(iterator, " └", "  ", &mut lines) {
        Ok(_) => PrettyPrinted { lines, error: None, left_over: iterator.remaining() },
        Err(err) => PrettyPrinted { lines, error: Some(err), left_over: 0 },
    }
}

} // verus!
