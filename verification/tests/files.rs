use rust_potato_server::error_handling::ExceptionDetails;
use rust_potato_server::files::world_data::world_file_parser::{
    convert, load_world, read_alignment, read_bool_unchecked, read_component_address,
    read_from_file, read_peg_address_unchecked, read_position, read_semi_unsigned_int,
    read_string, read_version, read_version_unchecked,
};
use rust_potato_server::files::world_data::world_structs::{ComponentAddress, PegAddress};
use rust_potato_server::files::world_files::key_of_file;
use rust_potato_server::lidgren_formatter::LidgrenFormatter;
use rust_potato_server::network::message_pack::pretty_printer::{
    pretty_print_data, pretty_print_packet, PrintedValue,
};
use rust_potato_server::util::custom_iterator::CustomIterator;
use rust_potato_server::util::error_handling::{
    ExceptionHandling, ExceptionWrappingOption, ExceptionWrappingResult, ReadError,
    ResultExceptionDetailsExt,
    Stacktrace, SuccError, WorldFileError,
};
use rust_potato_server::util::succ::succ_parser::{parse_line, parse_succ_file};
use rust_potato_server::util::succ::succ_printer::{debug_print, debug_succ_file};
use rust_potato_server::util::succ::succ_types::{lookup, SuccType};

fn string(text: &str) -> Vec<u8> {
    let mut bytes = (text.len() as u32).to_le_bytes().to_vec();
    bytes.extend_from_slice(text.as_bytes());
    bytes
}

fn save_file(version: u8, position: [[u8; 4]; 3]) -> Vec<u8> {
    let mut bytes = b"Logic World save".to_vec();
    bytes.push(version);
    for part in [0i32, 91, 0, 485] {
        bytes.extend(part.to_le_bytes());
    }
    bytes.push(1);
    bytes.extend(1u32.to_le_bytes());
    bytes.extend(1u32.to_le_bytes());
    bytes.push(1);
    bytes.extend(string("MHG"));
    for part in [0i32, 91, 0, 485] {
        bytes.extend(part.to_le_bytes());
    }
    bytes.push(3);
    bytes.extend(7u16.to_le_bytes());
    bytes.extend(string("MHG.Old"));
    bytes.extend(9u16.to_le_bytes());
    bytes.extend(string("MHG.Peg"));
    bytes.extend(7u16.to_le_bytes());
    bytes.extend(string("MHG.Inverter"));
    bytes.extend(5u32.to_le_bytes());
    bytes.extend(0u32.to_le_bytes());
    bytes.extend(7u16.to_le_bytes());
    for coordinate in position {
        bytes.extend(coordinate);
    }
    for part in [0.0f32, 0.0, 0.0, 1.0] {
        bytes.extend(part.to_le_bytes());
    }
    bytes.extend(2i32.to_le_bytes());
    bytes.extend(3i32.to_le_bytes());
    bytes.extend(4i32.to_le_bytes());
    bytes.extend(0i32.to_le_bytes());
    bytes.extend(2i32.to_le_bytes());
    bytes.extend([0xAA, 0xBB]);
    bytes.push(1);
    bytes.extend(5u32.to_le_bytes());
    bytes.extend(0i32.to_le_bytes());
    bytes.push(0);
    bytes.extend(5u32.to_le_bytes());
    bytes.extend(1i32.to_le_bytes());
    bytes.extend(3i32.to_le_bytes());
    bytes.extend(0.25f32.to_le_bytes());
    bytes.push(2);
    bytes.extend([0b1010_0001, 0b0000_0010]);
    bytes.extend(b"redstone sux lol");
    bytes
}

fn integers(x: i32, y: i32, z: i32) -> [[u8; 4]; 3] {
    [x.to_le_bytes(), y.to_le_bytes(), z.to_le_bytes()]
}

#[test]
fn world_is_read_from_a_save_file() {
    let world = load_world(save_file(6, integers(1500, -300, 0))).unwrap();
    assert_eq!(
        world.component_id_map,
        vec![(7, "MHG.Inverter".to_string()), (9, "MHG.Peg".to_string())]
    );
    assert_eq!(world.components.len(), 1);
    let component = &world.components[0];
    assert_eq!(component.address, ComponentAddress { id: 5 });
    assert_eq!(component.parent, ComponentAddress { id: 0 });
    assert_eq!(component.type_id, 7);
    assert_eq!(component.relative_position, (1500, -300, 0));
    assert_eq!(component.relative_alignment, (0, 0, 0, 1.0f32.to_bits()));
    assert_eq!(component.inputs, vec![3, 4]);
    assert_eq!(component.outputs, Vec::<u32>::new());
    assert_eq!(component.custom_data, vec![0xAA, 0xBB]);
    assert_eq!(world.wires.len(), 1);
    let wire = &world.wires[0];
    assert_eq!(
        wire.peg_a,
        PegAddress { is_input: true, component_address: ComponentAddress { id: 5 }, peg_index: 0 }
    );
    assert_eq!(
        wire.peg_b,
        PegAddress { is_input: false, component_address: ComponentAddress { id: 5 }, peg_index: 1 }
    );
    assert_eq!(wire.circuit_state_id, 3);
    assert_eq!(wire.rotation, 0.25f32.to_bits());
    assert_eq!(
        world.circuit_states,
        vec![
            true, false, true, false, false, false, false, true, false, false, false, false,
            false, false, true, false
        ]
    );
}

#[test]
fn older_save_files_hold_positions_in_metres() {
    let position = [1.5f32.to_le_bytes(), (-0.3f32).to_le_bytes(), 0.0004f32.to_le_bytes()];
    let world = load_world(save_file(5, position)).unwrap();
    assert_eq!(world.components[0].relative_position, (1500, -300, 0));
    let mut iterator = CustomIterator::own(save_file(5, position));
    assert!(read_from_file(&mut iterator).is_ok());
    let mut at = CustomIterator::own(vec![0, 0, 0xC0, 0x3F, 0, 0, 0x80, 0xBF, 0, 0, 0, 0]);
    assert_eq!(read_position(&mut at, true), Ok((1500, -1000, 0)));
}

#[test]
fn metres_become_millimetres() {
    let mut values: Vec<f32> = vec![
        0.0, -0.0, 1.0, -1.0, 1.5, 0.0005, -0.0005, 0.0004, 0.0015, 0.0025, 123.4567, -98765.43,
        2.0e6, 2147483.5, 2147483.7, -2147483.7, 3.0e6, -3.0e6, 1.0e30, -1.0e30,
        f32::INFINITY, f32::NEG_INFINITY, f32::NAN, f32::MIN_POSITIVE, 1.0e-40, f32::MAX,
        f32::EPSILON, 8388.608, 16777.216, 0.49999997, 4.9999997e-4,
    ];
    let mut seed = 0x1234_5678u32;
    for _ in 0..20000 {
        seed = seed.wrapping_mul(1664525).wrapping_add(1013904223);
        values.push(f32::from_bits(seed));
        values.push(((seed >> 8) as f32 - 8388608.0) / 997.0);
    }
    for value in values {
        let expected = (value as f64 * 1000.0).round() as i32;
        assert_eq!(convert(value.to_bits()), expected, "{}", value);
    }
}

#[test]
fn save_files_that_are_not_in_order_are_refused() {
    let good = save_file(6, integers(0, 0, 0));
    assert_eq!(load_world(good[..32].to_vec()).err(), Some(WorldFileError::TooSmall));
    let mut bad = good.clone();
    bad[0] = b'l';
    assert_eq!(load_world(bad).err(), Some(WorldFileError::WrongHeader));
    let mut bad = good.clone();
    let last = bad.len() - 1;
    bad[last] = b'L';
    assert_eq!(load_world(bad).err(), Some(WorldFileError::WrongFooter));
    let mut bad = good.clone();
    bad[16] = 4;
    assert_eq!(load_world(bad).err(), Some(WorldFileError::TooOld(4)));
    let mut bad = good.clone();
    bad[16] = 7;
    assert_eq!(load_world(bad).err(), Some(WorldFileError::TooNew(7)));
    let mut bad = good.clone();
    bad[33] = 2;
    assert_eq!(load_world(bad).err(), Some(WorldFileError::WrongSaveType(2)));
    let mut short = b"Logic World save".to_vec();
    short.push(6);
    short.extend([0; 8]);
    short.extend(b"redstone sux lol");
    assert_eq!(load_world(short).err(), Some(WorldFileError::MissingSaveInformation));
    let mut bad = good.clone();
    let at = bad.len() - 16;
    bad.insert(at, 0);
    assert_eq!(load_world(bad).err(), Some(WorldFileError::LeftoverBytes));
    let mut bad = good.clone();
    bad[34] = 2;
    assert!(load_world(bad).is_err());
    let mut bad = good.clone();
    bad[38] = 2;
    assert_eq!(load_world(bad).err(), Some(WorldFileError::IncompleteWire));
    let type_at = good.windows(2).rposition(|w| w == [7, 0]).unwrap();
    let mut bad = good.clone();
    bad[type_at] = 8;
    assert_eq!(load_world(bad).err(), Some(WorldFileError::UnknownComponentType(8)));
    let mut iterator = CustomIterator::own(good);
    assert!(read_from_file(&mut iterator).is_ok());
}

#[test]
fn parts_of_a_save_file() {
    let mut iterator = CustomIterator::own(vec![5, 0, 0, 0, 0xFF, 0xFF, 0xFF, 0xFF, 1]);
    assert_eq!(read_semi_unsigned_int(&mut iterator), Ok(5));
    assert_eq!(read_semi_unsigned_int(&mut iterator), Err(WorldFileError::NegativeNumber));
    assert_eq!(
        read_semi_unsigned_int(&mut iterator),
        Err(WorldFileError::Read(ReadError::EndOfData))
    );
    let mut iterator = CustomIterator::own(string("Grüße"));
    assert_eq!(read_string(&mut iterator), Ok("Grüße".to_string()));
    let mut iterator = CustomIterator::own(vec![2, 0, 0, 0, 0xC3, 0x28]);
    assert_eq!(read_string(&mut iterator), Err(WorldFileError::Read(ReadError::InvalidUtf8)));
    let mut version = Vec::new();
    for part in [1i32, -2, 3, 4] {
        version.extend(part.to_le_bytes());
    }
    assert_eq!(read_version(&mut CustomIterator::own(version.clone())), Ok((1, -2, 3, 4)));
    assert_eq!(read_version_unchecked(&mut CustomIterator::own(version.clone())), (1, -2, 3, 4));
    assert_eq!(
        read_version(&mut CustomIterator::own(version[..15].to_vec())),
        Err(WorldFileError::Read(ReadError::EndOfData))
    );
    assert_eq!(
        read_component_address(&mut CustomIterator::own(vec![1, 2, 0, 0])),
        Ok(ComponentAddress { id: 513 })
    );
    assert_eq!(read_bool_unchecked(&mut CustomIterator::own(vec![0])), Ok(false));
    assert_eq!(read_bool_unchecked(&mut CustomIterator::own(vec![1])), Ok(true));
    assert_eq!(
        read_bool_unchecked(&mut CustomIterator::own(vec![2])),
        Err(WorldFileError::WrongBool(2))
    );
    assert_eq!(
        read_peg_address_unchecked(&mut CustomIterator::own(vec![1, 9, 0, 0, 0, 2, 0, 0, 0])),
        Ok(PegAddress { is_input: true, component_address: ComponentAddress { id: 9 }, peg_index: 2 })
    );
    assert_eq!(
        read_peg_address_unchecked(&mut CustomIterator::own(vec![1, 9, 0, 0, 0, 2, 0, 0, 0x80])),
        Err(WorldFileError::NegativeNumber)
    );
    let mut position = Vec::new();
    for part in [7i32, -8, 9] {
        position.extend(part.to_le_bytes());
    }
    assert_eq!(read_position(&mut CustomIterator::own(position.clone()), false), Ok((7, -8, 9)));
    assert_eq!(
        read_position(&mut CustomIterator::own(position[..11].to_vec()), false),
        Err(WorldFileError::Read(ReadError::EndOfData))
    );
    let mut alignment = Vec::new();
    for part in [0.5f32, 0.5, -0.5, 0.5] {
        alignment.extend(part.to_le_bytes());
    }
    assert_eq!(
        read_alignment(&mut CustomIterator::own(alignment)),
        Ok((0.5f32.to_bits(), 0.5f32.to_bits(), (-0.5f32).to_bits(), 0.5f32.to_bits()))
    );
}

fn line(text: &str) -> Option<(usize, Option<String>, Option<String>)> {
    parse_line(text.as_bytes()).unwrap().map(|meta| (meta.indentation, meta.key, meta.value))
}

fn some(text: &str) -> Option<String> {
    Some(text.to_string())
}

#[test]
fn succ_lines() {
    assert_eq!(line(""), None);
    assert_eq!(line("     "), None);
    assert_eq!(line("  # comment"), None);
    assert_eq!(line("key: value"), Some((0, some("key"), some("value"))));
    assert_eq!(line("  key:value  "), Some((2, some("key"), some("value"))));
    assert_eq!(line("    my key  :  a  b  # c"), Some((4, some("my key"), some("a  b"))));
    assert_eq!(line("key:"), Some((0, some("key"), None)));
    assert_eq!(line("key:   # nothing"), Some((0, some("key"), None)));
    assert_eq!(line("- entry"), Some((0, None, some("entry"))));
    assert_eq!(line("   -entry"), Some((3, None, some("entry"))));
    assert_eq!(line("  -"), Some((2, None, None)));
    assert_eq!(line("k: a\\#b"), Some((0, some("k"), some("a#b"))));
    assert_eq!(line("k: a\\b"), Some((0, some("k"), some("a\\b"))));
    assert_eq!(line("k: \\ a \\"), Some((0, some("k"), some("\\ a \\"))));
    assert_eq!(line("k: a \\"), Some((0, some("k"), some("a \\"))));
    assert_eq!(line("k: a\\\\b"), Some((0, some("k"), some("a\\\\b"))));
    assert_eq!(line("k: a \\# b"), Some((0, some("k"), some("a # b"))));
    assert_eq!(line("k: ü: ß"), Some((0, some("k"), some("ü: ß"))));
    assert_eq!(line("k: - x"), Some((0, some("k"), some("- x"))));
    assert_eq!(parse_line(b": value").err(), Some(SuccError::CorruptedLine));
    assert_eq!(parse_line(b"  :").err(), Some(SuccError::CorruptedLine));
    assert_eq!(parse_line(b"key").err(), Some(SuccError::CorruptedLine));
    assert_eq!(parse_line(b"key # x: 1").err(), Some(SuccError::CorruptedLine));
    assert_eq!(parse_line(b"k: \xC3\x28").err(), Some(SuccError::InvalidUtf8));
}

fn text_at<'a>(tree: &'a SuccType, key: &str) -> Option<&'a str> {
    lookup(tree.expect_map().unwrap(), key).and_then(|entry| entry.get_value())
}

#[test]
fn succ_file_becomes_a_tree() {
    let file = "DataType: System.Boolean\r\nData: true\n# comment\n\nList:\n  - C-1\n  - C-2   # two\nNested:\n    A: 1\n    B:\n        - x\\#y\n        -\n    C: 3\nEmpty:\nLast: end";
    let tree = parse_succ_file(file.as_bytes()).unwrap();
    let root = tree.expect_map().unwrap();
    assert_eq!(root.len(), 6);
    assert_eq!(text_at(&tree, "DataType"), Some("System.Boolean"));
    assert_eq!(text_at(&tree, "Data"), Some("true"));
    assert_eq!(text_at(&tree, "Last"), Some("end"));
    assert!(lookup(root, "Empty").unwrap().is_any());
    let list = lookup(root, "List").unwrap().expect_list().unwrap();
    assert_eq!(list.len(), 2);
    assert_eq!(list[0].expect_component_address(), Ok(1));
    assert_eq!(list[1].get_value(), Some("C-2"));
    let nested = lookup(root, "Nested").unwrap();
    assert_eq!(text_at(nested, "A"), Some("1"));
    assert_eq!(text_at(nested, "C"), Some("3"));
    let inner = lookup(nested.expect_map().unwrap(), "B").unwrap().expect_list().unwrap();
    assert_eq!(inner.len(), 2);
    assert_eq!(inner[0].get_value(), Some("x#y"));
    assert!(inner[1].is_any());
    let empty = parse_succ_file(b"").unwrap();
    assert_eq!(empty.expect_map().map(|m| m.len()), Ok(0));
    assert!(empty.get_map().is_some());
}

#[test]
fn succ_files_that_are_not_in_order_are_refused() {
    let cases: Vec<(&str, SuccError)> = vec![
        ("  key: 1", SuccError::WrongIndentation),
        ("- entry", SuccError::MixedEntries),
        ("a: 1\n  b: 2", SuccError::WrongIndentation),
        ("a:\n  b: 2\n  - c", SuccError::MixedEntries),
        ("a:\n  - b\n  c: 2", SuccError::MixedEntries),
        ("a:\n    b: 2\n  c: 3", SuccError::WrongIndentation),
        ("a:\n  b:\n    c: 1\n d: 2", SuccError::WrongIndentation),
        ("a:\n  b: 2\n- c", SuccError::MixedEntries),
        ("a: 1\nb", SuccError::CorruptedLine),
    ];
    for (file, expected) in cases {
        assert_eq!(parse_succ_file(file.as_bytes()).err(), Some(expected), "{:?}", file);
    }
    assert_eq!(parse_succ_file(b"a: 1\n# \xFF").err(), Some(SuccError::InvalidUtf8));
    let mut deep = String::new();
    for level in 0..199 {
        deep.push_str(&" ".repeat(level));
        deep.push_str("k:\n");
    }
    deep.push_str(&" ".repeat(199));
    deep.push_str("k: v\n");
    assert!(parse_succ_file(deep.as_bytes()).is_ok());
    deep.push_str(&" ".repeat(200));
    deep.push_str("k: v");
    assert_eq!(parse_succ_file(deep.as_bytes()).err(), Some(SuccError::WrongIndentation));
    let mut deep = String::new();
    for level in 0..400 {
        deep.push_str(&" ".repeat(level));
        deep.push_str("k:\n");
    }
    deep.push_str(&" ".repeat(400));
    deep.push_str("k: v");
    let tree = parse_succ_file(deep.as_bytes()).unwrap();
    let mut node = &tree;
    let mut levels = 0;
    while let Some(entries) = node.get_map() {
        assert_eq!(entries.len(), 1);
        assert_eq!(entries[0].0, "k");
        node = &entries[0].1;
        levels += 1;
    }
    assert_eq!(levels, 401);
    assert_eq!(node.get_value(), Some("v"));
}

#[test]
fn stream_is_laid_out_line_by_line() {
    let bytes = vec![0x92, 0x01, 0x81, 0xA1, b'k', 0xC3, 0xFF];
    let mut iterator = CustomIterator::own(bytes);
    let printed = pretty_print_data(&mut iterator);
    assert_eq!(iterator.pointer_save(), 0);
    assert_eq!(printed.error, None);
    assert_eq!(printed.left_over, 1);
    let lines: Vec<(String, &str)> =
        printed.lines.iter().map(|l| (l.prefix.clone(), l.form)).collect();
    assert_eq!(
        lines,
        vec![
            (" └".to_string(), "FixArray"),
            ("   ├".to_string(), "PosFixInt"),
            ("   └".to_string(), "FixMap"),
            ("     └".to_string(), "FixString"),
            ("       └".to_string(), "Bool"),
        ]
    );
    assert!(matches!(printed.lines[0].value, PrintedValue::Array(2)));
    assert!(matches!(printed.lines[1].value, PrintedValue::Unsigned(1)));
    assert!(matches!(printed.lines[2].value, PrintedValue::Dictionary(1)));
    assert!(matches!(&printed.lines[3].value, PrintedValue::Text(text) if text == "k"));
    assert!(matches!(printed.lines[4].value, PrintedValue::Bool(true)));
}

#[test]
fn packet_is_laid_out_behind_its_id() {
    let bytes = vec![
        0x05, 0x82, 0x01, 0xE0, 0xCA, 0x3F, 0x80, 0, 0, 0x93, 0xC0, 0xC4, 1, 9, 0xD4, 7, 8,
    ];
    let mut iterator = CustomIterator::own(bytes);
    iterator.skip();
    iterator.pointer_restore(0);
    let printed = pretty_print_packet(&mut iterator);
    assert_eq!(iterator.pointer_save(), 0);
    assert_eq!(printed.error, None);
    assert_eq!(printed.left_over, 0);
    let lines: Vec<(String, &str)> =
        printed.lines.iter().map(|l| (l.prefix.clone(), l.form)).collect();
    assert_eq!(
        lines,
        vec![
            ("".to_string(), "PacketId"),
            (" └".to_string(), "FixMap"),
            ("   ├".to_string(), "PosFixInt"),
            ("   │ └".to_string(), "NegFixInt"),
            ("   └".to_string(), "32BitFloat"),
            ("     └".to_string(), "FixArray"),
            ("       ├".to_string(), "Null"),
            ("       ├".to_string(), "8BitByteArray"),
            ("       └".to_string(), "FixExt1"),
        ]
    );
    assert!(matches!(printed.lines[0].value, PrintedValue::PacketId(5)));
    assert!(matches!(printed.lines[3].value, PrintedValue::Signed(-32)));
    assert!(matches!(printed.lines[4].value, PrintedValue::Float32(0x3F80_0000)));
    assert!(matches!(&printed.lines[7].value, PrintedValue::Bytes(bytes) if bytes == &vec![9]));
    assert!(matches!(&printed.lines[8].value, PrintedValue::Ext(7, bytes) if bytes == &vec![8]));
    let mut broken = CustomIterator::own(vec![0x05, 0x92, 0x01]);
    let printed = pretty_print_packet(&mut broken);
    assert_eq!(printed.error, Some(ReadError::EndOfData));
    assert_eq!(printed.lines.len(), 3);
    assert_eq!(broken.pointer_save(), 0);
    let printed = pretty_print_packet(&mut CustomIterator::own(vec![0xC3]));
    assert_eq!(printed.error, Some(ReadError::UnexpectedType(0xC3)));
    assert!(printed.lines.is_empty());
    let printed = pretty_print_data(&mut CustomIterator::own(vec![0xC1]));
    assert!(matches!(printed.lines[0].value, PrintedValue::NeverUsed));
}

#[test]
fn stacktrace_collects_the_way_of_an_error() {
    let missing: Option<u8> = None;
    let failed = missing.map_ex((("reader.rs", 10, 4), Some("While reading".to_string())));
    let failed = failed.wrap((("packet.rs", 200, 17), None));
    let failed = failed.while_doing(("main.rs", 3, 1), Some("While handling".to_string()));
    let trace = failed.err().unwrap();
    assert_eq!(trace.message, None);
    assert_eq!(trace.frames.len(), 3);
    assert_eq!(trace.frames[1].file_location, "packet.rs");
    assert_eq!(trace.frames[1].file_line, 200);
    assert_eq!(
        trace.render(),
        "Error: While reading @ reader.rs | 10:4\n-> --- @ packet.rs | 200:17\n-> While handling @ main.rs | 3:1"
    );
    let mut trace = Stacktrace::new(("a.rs", 1, 2), None);
    trace.message = Some("broken pipe".to_string());
    assert_eq!(trace.render(), "Error: broken pipe\n-> --- @ a.rs | 1:2");
    let fine: Result<u8, Stacktrace> = Some(7u8).map_ex((("a.rs", 1, 2), None));
    assert_eq!(fine.wrap((("b.rs", 1, 2), None)).ok(), Some(7));
}

#[test]
fn keys_are_derived_from_file_names() {
    assert_eq!(
        key_of_file("data/World/ExtraData", "data/World/ExtraData/MHG.SimulationSpeed.succ", ".succ"),
        Some("MHG.SimulationSpeed".to_string())
    );
    assert_eq!(
        key_of_file("x", "x/MHG.DisplayConfigurations/2_pegs/_Order.succ", ".succ"),
        Some("MHG.DisplayConfigurations/2_pegs/_Order".to_string())
    );
    assert_eq!(key_of_file("x", "x/a.txt", ".succ"), None);
    assert_eq!(key_of_file("x", "x/.succ", ".succ"), Some(String::new()));
    assert_eq!(key_of_file("x", "x.succ", ".succ"), None);
    assert_eq!(key_of_file("ä", "ä/ö.succ", ".succ"), Some("ö".to_string()));
}

#[test]
fn readers_for_values_that_are_there() {
    let mut iterator = CustomIterator::own(vec![
        7, 1, 2, 3, 4, 1, 0, 0, 0, 0, 0, 0, 0x80, 0xAC, 0x02, 2, b'h', b'i', 9, 8, 0, 0, 0x80,
        0x3F,
    ]);
    assert_eq!(LidgrenFormatter::read_byte(&mut iterator), 7);
    assert_eq!(LidgrenFormatter::read_int_32(&mut iterator), 0x04030201);
    assert_eq!(LidgrenFormatter::read_int_64(&mut iterator), 0x8000_0000_0000_0001);
    assert_eq!(LidgrenFormatter::read_vint_32(&mut iterator), 300);
    assert_eq!(LidgrenFormatter::read_string(&mut iterator), "hi");
    assert_eq!(LidgrenFormatter::read_bytes(&mut iterator, 2), vec![9, 8]);
    assert_eq!(LidgrenFormatter::read_float(&mut iterator), 1.0f32.to_bits());
    assert!(!iterator.has_more());
}

#[test]
fn a_tree_is_laid_out_as_lines() {
    let tree = SuccType::Mapping(vec![
        (String::from("Name"), SuccType::Value(String::from("a b"))),
        (String::from("Nothing"), SuccType::Any),
        (
            String::from("List"),
            SuccType::List(vec![
                SuccType::Value(String::from("x")),
                SuccType::Mapping(vec![(String::from("k"), SuccType::Value(String::from("v")))]),
                SuccType::List(vec![]),
            ]),
        ),
    ]);
    let expected = "\
└ <map>
  ├ Name: 'a b'
  ├ Nothing: ---
  └ List: <list>
    ├ 'x'
    ├ <map>
    │ └ k: 'v'
    └ <list>
";
    assert_eq!(debug_print(&tree), expected);
    assert_eq!(debug_print(&SuccType::Any), "└ ---\n");
    assert_eq!(debug_print(&SuccType::Value(String::new())), "└ ''\n");
}

#[test]
fn a_succ_file_is_laid_out_as_lines() {
    let text = debug_succ_file(b"Data:\n    - 1\n    - 2\nDataType: T\n").unwrap();
    assert_eq!(text, "└ <map>\n  ├ Data: <list>\n  │ ├ '1'\n  │ └ '2'\n  └ DataType: 'T'\n");
    assert_eq!(debug_succ_file(&[0xFF]), Err(SuccError::InvalidUtf8));
    assert_eq!(debug_succ_file(b""), Ok(String::from("└ <map>\n")));
}

#[test]
fn messages_of_an_error_stand_one_to_a_line() {
    let mut details = ExceptionDetails::new(String::from("Error: ran out of bytes"));
    assert_eq!(details.render(), "Error: ran out of bytes");
    details.push(String::from("-> While reading header"));
    details.push(String::new());
    details.push(String::from("-> While loading world"));
    assert_eq!(
        details.render(),
        "Error: ran out of bytes\n-> While reading header\n\n-> While loading world"
    );
    assert_eq!(ExceptionDetails { messages: Vec::new() }.render(), "");
}

#[test]
fn floats_are_read_as_bit_patterns() {
    let bytes = vec![0x3F, 0x80, 0x00, 0x00, 0x00, 0x00, 0x80, 0x3F];
    let mut iterator = CustomIterator::own(bytes);
    assert_eq!(iterator.read_be_f32().map(f32::from_bits), Ok(1.0));
    assert_eq!(iterator.read_le_f32().map(f32::from_bits), Ok(1.0));
    assert_eq!(iterator.read_be_f32(), Err(ReadError::EndOfData));
    let bytes = vec![0xC0, 0x04, 0, 0, 0, 0, 0, 0, 0, 0, 0, 0, 0, 0, 0x04, 0xC0, 1, 2, 3];
    let mut iterator = CustomIterator::own(bytes);
    assert_eq!(iterator.read_be_f64().map(f64::from_bits), Ok(-2.5));
    assert_eq!(iterator.read_le_f64().map(f64::from_bits), Ok(-2.5));
    assert_eq!(iterator.read_le_f64(), Err(ReadError::EndOfData));
    assert_eq!(iterator.remaining(), 3);
}

#[test]
fn an_error_of_another_kind_becomes_the_message() {
    let failed: Result<u8, ReadError> = Err(ReadError::UnexpectedType(7));
    let trace = ExceptionWrappingResult::map_ex(
        failed,
        (("reader.rs", 3, 9), Some(String::from("While reading"))),
    )
    .unwrap_err();
    assert_eq!(trace.message.as_deref(), Some("UnexpectedType(7)"));
    assert_eq!(trace.frames.len(), 1);
    assert_eq!(trace.frames[0].file_location, "reader.rs");
    assert_eq!(trace.frames[0].file_line, 3);
    assert_eq!(trace.frames[0].file_column, 9);
    assert_eq!(trace.frames[0].message.as_deref(), Some("While reading"));
    assert_eq!(trace.render(), "Error: UnexpectedType(7)\n-> While reading @ reader.rs | 3:9");
    let fine: Result<u8, ReadError> = Ok(5);
    assert_eq!(ExceptionWrappingResult::map_ex(fine, (("reader.rs", 3, 9), None)).ok(), Some(5));
}

#[test]
fn save_files_with_counts_that_are_out_of_range_are_refused() {
    let good = save_file(6, integers(0, 0, 0));
    assert_eq!(good[66], 3);
    let mut bad = good[..66].to_vec();
    bad.extend([0xFF, 0xFF, 0x03]);
    bad.extend(&good[67..]);
    assert_eq!(load_world(bad).err(), Some(WorldFileError::TooManyComponentTypes));
    let at = good.windows(6).position(|part| part == [2, 0, 0, 0, 0xAA, 0xBB]).unwrap();
    let mut bad = good.clone();
    bad[at..at + 4].copy_from_slice(&(-2i32).to_le_bytes());
    assert_eq!(load_world(bad).err(), Some(WorldFileError::WrongCustomDataLength));
    let mut none = good[..at].to_vec();
    none.extend((-1i32).to_le_bytes());
    none.extend(&good[at + 6..]);
    assert_eq!(load_world(none).unwrap().components[0].custom_data, Vec::<u8>::new());
}

#[test]
fn tasks_are_added_to_the_messages_of_an_error() {
    let failed: Result<u8, ExceptionDetails> =
        Err(ExceptionDetails::new(String::from("Error: broken")));
    let failed =
        rust_potato_server::error_handling::ResultExceptionDetailsExt::while_doing(failed, "parsing");
    let failed = rust_potato_server::error_handling::ResultExceptionDetailsExt::while_doing_detailed(
        failed,
        "src/reader.rs",
        12,
        7,
        String::from("loading"),
    );
    let details = failed.unwrap_err();
    assert_eq!(
        details.messages,
        vec![
            "Error: broken".to_string(),
            " -> parsing".to_string(),
            "parsing".to_string(),
            " -> loading @ src/reader.rs | 12:7".to_string(),
        ]
    );
    let fine: Result<u8, ExceptionDetails> = Ok(3);
    let fine =
        rust_potato_server::error_handling::ResultExceptionDetailsExt::while_doing(fine, "parsing");
    assert_eq!(fine.ok(), Some(3));
}

#[test]
fn save_file_is_read_from_where_the_cursor_stands() {
    let file = save_file(6, integers(10, 20, 30));
    let mut bytes = vec![9, 9, 9];
    bytes.extend(&file);
    let mut iterator = CustomIterator::own(bytes.clone());
    assert_eq!(read_from_file(&mut iterator).err(), Some(WorldFileError::WrongHeader));
    assert_eq!(iterator.remaining(), 0);
    let mut iterator = CustomIterator::own(bytes);
    iterator.skip();
    iterator.skip();
    iterator.skip();
    let world = read_from_file(&mut iterator).unwrap();
    assert_eq!(world.components[0].relative_position, (10, 20, 30));
    assert_eq!(iterator.remaining(), 0);
    assert_eq!(iterator.pointer_save(), file.len() + 3);
    assert_eq!(read_from_file(&mut iterator).err(), Some(WorldFileError::TooSmall));
}
