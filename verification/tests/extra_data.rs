use rust_potato_server::files::extra_data::entries::display_configuration::{
    is_power_of_two, DisplayConfiguration,
};
use rust_potato_server::files::extra_data::entries::display_configurations_order::DisplayConfigurationsOrder;
use rust_potato_server::files::extra_data::entries::flag_list_order::FlagListOrder;
use rust_potato_server::files::extra_data::entries::simulation_paused::SimulationPaused;
use rust_potato_server::files::extra_data::entries::simulation_speed::SimulationSpeed;
use rust_potato_server::files::extra_data::entries::world_type_data::WorldTypeDataGridlands;
use rust_potato_server::files::extra_data::manager::{ExtraDataManager, GenericExtraData};
use rust_potato_server::files::world_data::world_structs::Color24;
use rust_potato_server::lidgren::data_types::RemoteAddress;
use rust_potato_server::lidgren::lidgren_server::ServerInstance;
use rust_potato_server::network::message_pack::reader;
use rust_potato_server::network::message_pack::writer;
use rust_potato_server::util::custom_iterator::CustomIterator;
use rust_potato_server::network::packets::c2s::extra_data_request::ExtraDataRequest;
use rust_potato_server::files::extra_data::entries::{display_configuration, display_configurations_order};
use rust_potato_server::util::error_handling::{ReadError, SuccError};
use rust_potato_server::util::succ::succ_types::{lookup, SuccType};

fn flags(list: &[i32]) -> Vec<u8> {
    let mut bytes = Vec::new();
    writer::write_array_auto(&mut bytes, list.len() as u32);
    for flag in list {
        writer::write_array_auto(&mut bytes, 1);
        writer::write_i32(&mut bytes, *flag);
    }
    bytes
}

fn colors(count: u32) -> Vec<u8> {
    let mut bytes = Vec::new();
    writer::write_array_auto(&mut bytes, count);
    for i in 0..count {
        writer::write_array_auto(&mut bytes, 3);
        writer::write_int_auto(&mut bytes, i);
        writer::write_int_auto(&mut bytes, 200);
        writer::write_int_auto(&mut bytes, 255);
    }
    bytes
}

fn double(value: f64) -> Vec<u8> {
    let mut bytes = Vec::new();
    writer::write_float_64(&mut bytes, value.to_bits());
    bytes
}

fn value(text: &str) -> SuccType {
    SuccType::Value(text.to_string())
}

#[test]
fn flag_list_order_takes_only_the_empty_default() {
    let mut entry = FlagListOrder::default();
    assert!(entry.validate_default_bytes(&flags(&[])));
    assert!(!entry.validate_default_bytes(&flags(&[5])));
    assert!(!entry.validate_default_bytes(&flags(&[5, 6])));
    assert!(!entry.validate_default_bytes(&[0xC0]));
    assert!(entry.update_bytes_if_valid(&flags(&[7, 300, 70000])));
    assert_eq!(entry.flags, vec![7, 300, 70000]);
    assert_eq!(
        entry.serialize_data(),
        vec![0x93, 0x91, 7, 0x91, 0xCD, 1, 0x2C, 0x91, 0xCE, 0, 1, 0x11, 0x70]
    );
    assert!(!entry.update_bytes_if_valid(&flags(&[7, -1])));
    assert_eq!(entry.flags, vec![7, 300, 70000]);
    assert!(!entry.update_bytes_if_valid(&[0x91, 7]));
    assert!(entry.update_bytes_if_valid(&flags(&[])));
    assert_eq!(entry.flags, Vec::<u32>::new());
    assert_eq!(entry.serialize_data(), vec![0x90]);
    assert!(entry.validate_default_bytes(&entry.serialize_data()));
    assert_eq!(entry.key(), "MHG.FlagListOrder");
    assert!(entry.data_type_network().starts_with("System.Collections.Generic.List`1[["));
    assert_eq!(
        entry.data_type_file(),
        "System.Collections.Generic.List<LogicAPI.Data.ComponentAddress>"
    );
}

#[test]
fn simulation_speed_takes_no_negative_speed() {
    let mut entry = SimulationSpeed::default();
    assert!(entry.validate_default_bytes(&double(0.0)));
    assert!(entry.validate_default_bytes(&double(3.0)));
    assert!(!entry.validate_default_bytes(&[0xCA, 0, 0, 0, 0]));
    assert!(!entry.update_bytes_if_valid(&double(-1.0)));
    assert_eq!(entry.speed, 0.0f64.to_bits());
    assert!(entry.update_bytes_if_valid(&double(5.0)));
    assert_eq!(f64::from_bits(entry.speed), 5.0);
    assert_eq!(entry.serialize_data(), double(5.0));
    assert!(!entry.update_bytes_if_valid(&double(f64::NEG_INFINITY)));
    assert!(!entry.update_bytes_if_valid(&double(-f64::MIN_POSITIVE)));
    assert!(!entry.update_bytes_if_valid(&double(-5e-324)));
    assert_eq!(f64::from_bits(entry.speed), 5.0);
    assert!(entry.update_bytes_if_valid(&double(-0.0)));
    assert!(entry.update_bytes_if_valid(&double(f64::NAN)));
    assert!(entry.update_bytes_if_valid(&double(-f64::NAN)));
    assert!(entry.update_bytes_if_valid(&double(f64::INFINITY)));
    assert!(entry.update_bytes_if_valid(&double(0.0)));
    assert!(!entry.load_value((-2.0f64).to_bits()));
    assert!(entry.load_value(20.0f64.to_bits()));
    assert_eq!(f64::from_bits(entry.speed), 20.0);
    assert_eq!(entry.key(), "MHG.SimulationSpeed");
    assert_eq!(entry.data_type_network(), "System.Double");
    assert_eq!(entry.data_type_file(), "System.Double");
}

#[test]
fn simulation_paused_takes_every_bool() {
    let mut entry = SimulationPaused::default();
    assert!(!entry.paused);
    assert!(entry.validate_default_bytes(&[0xC2]));
    assert!(entry.validate_default_bytes(&[0xC3]));
    assert!(!entry.validate_default_bytes(&[0x01]));
    assert!(!entry.validate_default_bytes(&[]));
    assert!(entry.update_bytes_if_valid(&[0xC3]));
    assert!(entry.paused);
    assert_eq!(entry.serialize_data(), vec![0xC3]);
    assert!(!entry.update_bytes_if_valid(&[0xC0]));
    assert!(entry.paused);
    assert_eq!(entry.load_from_file(&value("off")), Ok(()));
    assert!(!entry.paused);
    assert_eq!(entry.load_from_file(&value("maybe")), Err(SuccError::WrongValue));
    assert_eq!(entry.load_from_file(&SuccType::Any), Err(SuccError::WrongKind));
    assert_eq!(entry.key(), "MHG.SimulationPaused");
    assert_eq!(entry.data_type_network(), "System.Boolean");
}

#[test]
fn display_configuration_wants_a_colour_for_each_combination() {
    let mut entry = DisplayConfiguration::new(2, 5);
    assert!(entry.validate_default_bytes(&colors(4)));
    assert!(!entry.validate_default_bytes(&colors(3)));
    assert!(!entry.validate_default_bytes(&colors(5)));
    assert!(!entry.validate_default_bytes(&colors(0)));
    let mut trailing = colors(4);
    trailing.push(0);
    assert!(!entry.validate_default_bytes(&trailing));
    assert!(!entry.has_data());
    assert!(!entry.update_bytes_if_valid(&colors(8)));
    assert!(!entry.has_data());
    assert!(entry.update_bytes_if_valid(&colors(4)));
    assert!(entry.has_data());
    assert_eq!(entry.data.as_ref().unwrap().colors[3], Color24 { r: 3, g: 200, b: 255 });
    assert_eq!(entry.serialize_data(), colors(4));
    assert_eq!(entry.key(), "MHG.DisplayConfigurations/2_pegs/Configuration5");
    assert_eq!(entry.data_type_network(), "JimmysUnityUtilities.Color24[]");
    assert!(DisplayConfiguration::new(0, 0).validate_default_bytes(&colors(1)));
    assert!(!DisplayConfiguration::new(40, 0).validate_default_bytes(&colors(1)));
    assert!(!DisplayConfiguration::new(200, 0).validate_default_bytes(&colors(0)));
    assert!(is_power_of_two(1024, 10));
    assert!(!is_power_of_two(1024, 11));
    assert!(!is_power_of_two(0, 0));
    assert_eq!(
        DisplayConfiguration::new(4294967295, 1234567890).key(),
        "MHG.DisplayConfigurations/4294967295_pegs/Configuration1234567890"
    );
}

#[test]
fn display_configurations_order_wants_indices_that_are_not_negative() {
    let mut entry = DisplayConfigurationsOrder::new(3);
    assert!(entry.validate_default_bytes(&[0x93, 0, 1, 2]));
    assert!(entry.validate_default_bytes(&[0x90]));
    assert!(!entry.validate_default_bytes(&[0x92, 0, 0xFF]));
    assert!(!entry.validate_default_bytes(&[0x92, 0, 1, 2]));
    assert!(!entry.has_data());
    assert!(entry.update_bytes_if_valid(&[0x93, 2, 0, 0xCD, 1, 0]));
    assert_eq!(entry.data.as_ref().unwrap().list, vec![2, 0, 256]);
    assert_eq!(entry.serialize_data(), vec![0x93, 2, 0, 0xCD, 1, 0]);
    assert!(!entry.update_bytes_if_valid(&[0x91, 0xD0, 0x80]));
    assert_eq!(entry.data.as_ref().unwrap().list, vec![2, 0, 256]);
    assert_eq!(entry.key(), "MHG.DisplayConfigurations/3_pegs/_Order");
    assert_eq!(entry.data_type_network(), "System.Int32[]");
    assert_eq!(
        entry.load_from_file(&SuccType::List(vec![value("4"), value("0")])),
        Ok(())
    );
    assert_eq!(entry.data.as_ref().unwrap().list, vec![4, 0]);
    assert_eq!(
        entry.load_from_file(&SuccType::List(vec![value("4"), value("-1")])),
        Err(SuccError::WrongValue)
    );
    assert_eq!(entry.data.as_ref().unwrap().list, vec![4, 0]);
}

#[test]
fn world_type_data_wants_sides_of_at_least_one() {
    let mut entry = WorldTypeDataGridlands::default();
    assert_eq!(entry.side_x, 16);
    assert_eq!(entry.side_z, 32);
    assert_eq!(
        entry.serialize_data(),
        vec![0x94, 0x93, 80, 0, 0, 0x93, 0, 80, 0, 16, 32]
    );
    let good = vec![0x94, 0x93, 1, 2, 3, 0x93, 0xCC, 200, 5, 6, 1, 0xCD, 1, 0];
    assert!(entry.validate_default_bytes(&good));
    assert!(entry.update_bytes_if_valid(&good));
    assert_eq!(entry.color_a, Color24 { r: 1, g: 2, b: 3 });
    assert_eq!(entry.color_b, Color24 { r: 200, g: 5, b: 6 });
    assert_eq!((entry.side_x, entry.side_z), (1, 256));
    assert_eq!(entry.serialize_data(), good);
    let zero_side = vec![0x94, 0x93, 1, 2, 3, 0x93, 4, 5, 6, 0, 1];
    assert!(!entry.validate_default_bytes(&zero_side));
    assert!(!entry.update_bytes_if_valid(&zero_side));
    let negative_side = vec![0x94, 0x93, 1, 2, 3, 0x93, 4, 5, 6, 1, 0xFF];
    assert!(!entry.update_bytes_if_valid(&negative_side));
    let wide_color = vec![0x94, 0x93, 0xCD, 1, 0, 2, 3, 0x93, 4, 5, 6, 1, 1];
    assert!(!entry.update_bytes_if_valid(&wide_color));
    assert_eq!((entry.side_x, entry.side_z), (1, 256));
    assert_eq!(entry.key(), "MHG.WorldTypeData");
    assert_eq!(entry.data_type_network(), "LogicWorld.SharedCode.Data.GridlandsWorldData");
}

#[test]
fn entries_load_from_a_succ_tree() {
    let mut world_type = WorldTypeDataGridlands::default();
    let tree = SuccType::Mapping(vec![
        ("ColorA".to_string(), value("FF8000")),
        ("ColorB".to_string(), value("0A0B0C")),
        ("BigCellSizeX".to_string(), value("10")),
        ("BigCellSizeZ".to_string(), value("12")),
        ("BigCellSizeZ".to_string(), value("20")),
    ]);
    assert_eq!(world_type.load_from_file(&tree), Ok(()));
    assert_eq!(world_type.color_a, Color24 { r: 255, g: 128, b: 0 });
    assert_eq!(world_type.color_b, Color24 { r: 10, g: 11, b: 12 });
    assert_eq!((world_type.side_x, world_type.side_z), (10, 20));
    let missing = SuccType::Mapping(vec![("ColorA".to_string(), value("FF8000"))]);
    assert_eq!(world_type.load_from_file(&missing), Err(SuccError::MissingEntry));
    let zero = SuccType::Mapping(vec![
        ("ColorA".to_string(), value("FF8000")),
        ("ColorB".to_string(), value("0A0B0C")),
        ("BigCellSizeX".to_string(), value("0")),
        ("BigCellSizeZ".to_string(), value("12")),
    ]);
    assert_eq!(world_type.load_from_file(&zero), Err(SuccError::WrongValue));
    assert_eq!(world_type.load_from_file(&value("x")), Err(SuccError::WrongKind));
    assert_eq!((world_type.side_x, world_type.side_z), (10, 20));
    let mut flags = FlagListOrder::default();
    assert_eq!(
        flags.load_from_file(&SuccType::List(vec![value("C-12"), value("C-4000000000")])),
        Ok(())
    );
    assert_eq!(flags.flags, vec![12, 4000000000]);
    assert_eq!(
        flags.load_from_file(&SuccType::List(vec![value("C-12"), value("12")])),
        Err(SuccError::WrongValue)
    );
    assert_eq!(
        flags.load_from_file(&SuccType::List(vec![value("C-4294967296")])),
        Err(SuccError::WrongValue)
    );
    assert_eq!(flags.load_from_file(&SuccType::List(vec![SuccType::Any])), Err(SuccError::WrongKind));
    assert_eq!(flags.flags, vec![12, 4000000000]);
    assert_eq!(flags.load_from_file(&SuccType::Any), Ok(()));
    assert!(flags.flags.is_empty());
    let mut display = DisplayConfiguration::new(1, 0);
    assert_eq!(
        display.load_from_file(&SuccType::List(vec![value("000000"), value("FFFFFF")])),
        Ok(())
    );
    assert_eq!(display.data.as_ref().unwrap().colors[1], Color24 { r: 255, g: 255, b: 255 });
    assert_eq!(
        display.load_from_file(&SuccType::List(vec![value("000000")])),
        Err(SuccError::WrongValue)
    );
    assert_eq!(
        display.load_from_file(&SuccType::List(vec![value("00000g"), value("FFFFFF")])),
        Err(SuccError::WrongValue)
    );
}

#[test]
fn succ_values_are_taken_by_kind() {
    assert_eq!(value("yes").expect_bool(), Ok(true));
    assert_eq!(value("on").expect_bool(), Ok(true));
    assert_eq!(value("y").expect_bool(), Ok(true));
    assert_eq!(value("true").expect_bool(), Ok(true));
    assert_eq!(value("false").expect_bool(), Ok(false));
    assert_eq!(value("off").expect_bool(), Ok(false));
    assert_eq!(value("no").expect_bool(), Ok(false));
    assert_eq!(value("n").expect_bool(), Ok(false));
    assert_eq!(value("True").expect_bool(), Err(SuccError::WrongValue));
    assert_eq!(value("12AbFF").expect_color(), Err(SuccError::WrongValue));
    assert_eq!(value("12ABFF").expect_color(), Ok(Color24 { r: 0x12, g: 0xAB, b: 0xFF }));
    assert_eq!(value("12ABF").expect_color(), Err(SuccError::WrongValue));
    assert_eq!(value("12ABFF0").expect_color(), Err(SuccError::WrongValue));
    assert_eq!(value("éé").expect_color(), Err(SuccError::WrongValue));
    assert_eq!(value("42").expect_unsigned(), Ok(42));
    assert_eq!(value("4294967295").expect_unsigned(), Ok(u32::MAX));
    assert_eq!(value("4294967296").expect_unsigned(), Err(SuccError::WrongValue));
    assert_eq!(value("-1").expect_unsigned(), Err(SuccError::WrongValue));
    assert_eq!(value("").expect_unsigned(), Err(SuccError::WrongValue));
    assert_eq!(value("+5").expect_unsigned(), Ok(5));
    assert_eq!(value("+").expect_unsigned(), Err(SuccError::WrongValue));
    assert_eq!(value("++5").expect_unsigned(), Err(SuccError::WrongValue));
    assert_eq!(value("0007").expect_unsigned(), Ok(7));
    assert_eq!(value("00000000000000000000000000012").expect_unsigned(), Ok(12));
    assert_eq!(value("99999999999999999999999").expect_unsigned(), Err(SuccError::WrongValue));
    assert_eq!(value("1a").expect_unsigned(), Err(SuccError::WrongValue));
    assert_eq!(value(" 1").expect_unsigned(), Err(SuccError::WrongValue));
    assert_eq!(value("٣").expect_unsigned(), Err(SuccError::WrongValue));
    assert_eq!(value("C-+7").expect_component_address(), Ok(7));
    assert_eq!(value("C-7").expect_component_address(), Ok(7));
    assert_eq!(value("C-").expect_component_address(), Err(SuccError::WrongValue));
    assert_eq!(value("c-7").expect_component_address(), Err(SuccError::WrongValue));
    assert_eq!(value("C").expect_component_address(), Err(SuccError::WrongValue));
    assert_eq!(value("é-7").expect_component_address(), Err(SuccError::WrongValue));
    assert_eq!(SuccType::Any.expect_unsigned(), Err(SuccError::WrongKind));
    assert_eq!(value("x").expect_string(), Ok("x"));
    assert_eq!(SuccType::List(vec![]).expect_string(), Err(SuccError::WrongKind));
    let list = SuccType::List(vec![value("a")]);
    let map = SuccType::Mapping(vec![("k".to_string(), value("v"))]);
    assert_eq!(list.name(), "List");
    assert_eq!(map.name(), "Map");
    assert_eq!(SuccType::Any.name(), "Any");
    assert_eq!(value("").name(), "Value");
    assert!(SuccType::Any.is_any() && SuccType::Any.is_map() && SuccType::Any.is_list());
    assert!(!SuccType::Any.is_value());
    assert!(list.is_list() && !list.is_map() && !list.is_any() && !list.is_value());
    assert!(map.is_map() && !map.is_list());
    assert!(value("x").is_value() && !value("x").is_map());
    assert_eq!(value("x").get_value(), Some("x"));
    assert_eq!(list.get_value(), None);
    assert_eq!(list.get_list().map(|l| l.len()), Some(1));
    assert!(list.get_map().is_none());
    assert_eq!(map.get_map().map(|l| l.len()), Some(1));
    assert!(SuccType::Any.get_map().is_none());
    assert_eq!(list.expect_list().map(|l| l.len()), Ok(1));
    assert_eq!(SuccType::Any.expect_list().map(|l| l.len()), Ok(0));
    assert_eq!(map.expect_list().err(), Some(SuccError::WrongKind));
    assert_eq!(map.expect_map().map(|l| l.len()), Ok(1));
    assert_eq!(SuccType::Any.expect_map().map(|l| l.len()), Ok(0));
    assert_eq!(list.expect_map().err(), Some(SuccError::WrongKind));
    let entries = vec![
        ("a".to_string(), value("1")),
        ("b".to_string(), value("2")),
        ("a".to_string(), value("3")),
    ];
    assert_eq!(lookup(&entries, "a").and_then(|e| e.get_value()), Some("3"));
    assert_eq!(lookup(&entries, "b").and_then(|e| e.get_value()), Some("2"));
    assert!(lookup(&entries, "c").is_none());
}

#[test]
fn keys_resolve_to_entries() {
    let mut manager = ExtraDataManager::initialize(&[], None).unwrap();
    for key in [
        "MHG.SimulationPaused",
        "MHG.SimulationSpeed",
        "MHG.FlagListOrder",
        "MHG.WorldTypeData",
        "MHG.DisplayConfigurations/2_pegs/_Order",
        "MHG.DisplayConfigurations/2_pegs/Configuration0",
        "MHG.DisplayConfigurations/007_pegs/Configuration0012",
        "MHG.DisplayConfigurations/4294967295_pegs/Configuration4294967295",
    ] {
        assert!(manager.resolve_key(key), "{}", key);
        assert!(manager.resolve_key(key), "{}", key);
    }
    for key in [
        "",
        "MHG.SimulationPause",
        "MHG.SimulationPaused ",
        "mhg.SimulationPaused",
        "MHG.DisplayConfigurations/",
        "MHG.DisplayConfigurations/_pegs/_Order",
        "MHG.DisplayConfigurations/x_pegs/_Order",
        "MHG.DisplayConfigurations/2_pegs/_Order2",
        "MHG.DisplayConfigurations/2_pegs/_order",
        "MHG.DisplayConfigurations/2_pegs/Configuration",
        "MHG.DisplayConfigurations/2_pegs/Configuration1x",
        "MHG.DisplayConfigurations/2_pegs/Configurationx1",
        "MHG.DisplayConfigurations/2_pegs/Condiguration1",
        "MHG.DisplayConfigurations/2_pegs",
        "MHG.DisplayConfigurations/4294967296_pegs/_Order",
        "MHG.DisplayConfigurations/2_pegs/Configuration4294967296",
        "MHG.DisplayConfigurations/２_pegs/_Order",
    ] {
        assert!(!manager.resolve_key(key), "{}", key);
    }
    let long = format!("MHG.DisplayConfigurations/{}7_pegs/_Order", "0".repeat(1000));
    assert!(!manager.resolve_key(&long));
    let long = format!("MHG.DisplayConfigurations/{}7_pegs/_Order", "0".repeat(999));
    assert!(manager.resolve_key(&long));
}

#[test]
fn requests_are_validated_against_the_entry() {
    let entry = GenericExtraData::FlagListOrder(FlagListOrder::default());
    let request = |data_type: &str, default: Vec<u8>| ExtraDataRequest {
        key: "MHG.FlagListOrder".to_string(),
        data_type: data_type.to_string(),
        default,
    };
    let flag_type = FlagListOrder::default().data_type_network();
    assert!(ExtraDataManager::validate_request_data(&request(flag_type, flags(&[])), &entry));
    assert!(!ExtraDataManager::validate_request_data(&request(flag_type, flags(&[1])), &entry));
    assert!(!ExtraDataManager::validate_request_data(&request("System.Int32[]", flags(&[])), &entry));
    let packed = ExtraDataManager::pack(&entry);
    assert_eq!(packed.key, "MHG.FlagListOrder");
    assert_eq!(packed.data_type, flag_type);
    assert_eq!(packed.data, vec![0x90]);
    let mut buffer = Vec::new();
    packed.write(&mut buffer);
    assert_eq!(buffer[0], 23);
    assert_eq!(buffer[1], 0x93);
    assert_eq!(buffer[2], 0xA0 + 17);
    let display = GenericExtraData::DisplayConfiguration(DisplayConfiguration::new(1, 1));
    assert!(!display.has_value());
    assert!(!display.can_serialize());
    assert_eq!(display.key(), "MHG.DisplayConfigurations/1_pegs/Configuration1");
    assert_eq!(display.data_type_file(), "JimmysUnityUtilities.Color24[]");
    assert!(display.validate_default_bytes(&colors(2)));
    let mut speed = GenericExtraData::SimulationSpeed(SimulationSpeed::default());
    assert!(speed.update_bytes_if_valid(&double(2.0)));
    assert_eq!(speed.serialize_data(), double(2.0));
    assert_eq!(speed.load_from_file(&value("2.0")), Err(SuccError::WrongKind));
}

#[test]
fn defaults_are_loaded_from_succ_files() {
    let mut manager = ExtraDataManager::initialize(&[], None).unwrap();
    let file = |data_type: &str, data: SuccType| SuccType::Mapping(vec![
        ("DataType".to_string(), value(data_type)),
        ("Data".to_string(), data),
    ]);
    assert_eq!(
        manager.load_entry("MHG.SimulationPaused", &file("System.Boolean", value("true"))),
        Ok(true)
    );
    assert_eq!(
        manager.load_entry("MHG.SimulationPaused", &file("System.Double", value("true"))),
        Ok(false)
    );
    assert_eq!(manager.load_entry("MHG.Nothing", &file("System.Boolean", value("true"))), Ok(false));
    assert_eq!(manager.load_entry("MHG.SimulationPaused", &SuccType::Any), Ok(false));
    assert_eq!(
        manager.load_entry("MHG.SimulationPaused", &value("x")),
        Err(SuccError::WrongKind)
    );
    assert_eq!(
        manager.load_entry("MHG.SimulationPaused", &file("System.Boolean", value("perhaps"))),
        Err(SuccError::WrongValue)
    );
    assert_eq!(
        manager.load_entry(
            "MHG.FlagListOrder",
            &file(
                "System.Collections.Generic.List<LogicAPI.Data.ComponentAddress>",
                SuccType::List(vec![value("C-3")])
            )
        ),
        Ok(true)
    );
    assert_eq!(
        manager.load_entry(
            "MHG.SimulationPaused",
            &SuccType::Mapping(vec![("DataType".to_string(), value("System.Boolean"))])
        ),
        Ok(false)
    );
    assert!(manager.load_simulation_speed(3.0f64.to_bits()));
    assert!(!manager.load_simulation_speed((-3.0f64).to_bits()));
}

#[test]
fn text_of_the_speed_is_found_in_its_file() {
    let file = |data_type: &str, data: SuccType| SuccType::Mapping(vec![
        ("DataType".to_string(), value(data_type)),
        ("Data".to_string(), data),
    ]);
    let tree = file("System.Double", value("2.5"));
    assert_eq!(ExtraDataManager::simulation_speed_text(&tree), Ok(Some("2.5")));
    let tree = file("System.Boolean", value("2.5"));
    assert_eq!(ExtraDataManager::simulation_speed_text(&tree), Ok(None));
    assert_eq!(ExtraDataManager::simulation_speed_text(&SuccType::Any), Ok(None));
    let tree = SuccType::Mapping(vec![("DataType".to_string(), value("System.Double"))]);
    assert_eq!(ExtraDataManager::simulation_speed_text(&tree), Ok(None));
    let tree = file("System.Double", SuccType::List(vec![]));
    assert_eq!(ExtraDataManager::simulation_speed_text(&tree), Err(SuccError::WrongKind));
    assert_eq!(ExtraDataManager::simulation_speed_text(&value("2.5")), Err(SuccError::WrongKind));
    let tree = SuccType::Mapping(vec![
        ("Data".to_string(), value("1")),
        ("DataType".to_string(), value("System.Double")),
        ("Data".to_string(), value("7")),
    ]);
    assert_eq!(ExtraDataManager::simulation_speed_text(&tree), Ok(Some("7")));
}

#[test]
fn bytes_behind_a_list_are_an_error() {
    let mut four = colors(4);
    assert!(display_configuration::parse_data(&four).is_ok());
    four.push(0xC0);
    assert_eq!(display_configuration::parse_data(&four).err(), Some(ReadError::TrailingBytes));
    assert!(!DisplayConfiguration::new(2, 0).validate_default_bytes(&four));
    let mut order = Vec::new();
    writer::write_array_auto(&mut order, 2);
    writer::write_int_auto(&mut order, 1);
    writer::write_int_auto(&mut order, 0);
    assert!(display_configurations_order::parse_data(&order).is_ok());
    order.push(0);
    assert_eq!(
        display_configurations_order::parse_data(&order).err(),
        Some(ReadError::TrailingBytes)
    );
    assert!(!DisplayConfigurationsOrder::new(2).update_bytes_if_valid(&order));
}

fn data_file(data_type: &str, data: SuccType) -> SuccType {
    SuccType::Mapping(vec![
        ("DataType".to_string(), value(data_type)),
        ("Data".to_string(), data),
    ])
}

#[test]
fn manager_takes_the_files_at_startup() {
    let files = vec![
        ("MHG.SimulationPaused".to_string(), data_file("System.Boolean", value("true"))),
        ("MHG.Nothing".to_string(), data_file("System.Boolean", value("perhaps"))),
        ("MHG.SimulationSpeed".to_string(), data_file("System.Double", value("2.5"))),
        (
            "MHG.FlagListOrder".to_string(),
            data_file(
                "System.Collections.Generic.List<LogicAPI.Data.ComponentAddress>",
                SuccType::List(vec![value("C-4"), value("C-9")]),
            ),
        ),
        ("MHG.WorldTypeData".to_string(), data_file("System.Boolean", value("true"))),
    ];
    let mut manager = ExtraDataManager::initialize(&files, Some(2.5f64.to_bits())).unwrap();
    let mut server = ServerInstance::start("Logic World".to_string(), 1, 0);
    let address = RemoteAddress { ip_high: 0, ip_low: 1, port: 9 };
    server.process_packet(&[133, 0, 0, 32, 0, 0, 0, 0, 0], address, 0, 0);
    let answer = |manager: &mut ExtraDataManager,
                  server: &mut ServerInstance,
                  key: &str,
                  data_type: &str,
                  default: Vec<u8>,
                  acknowledged: u8| {
        let request = ExtraDataRequest {
            key: key.to_string(),
            data_type: data_type.to_string(),
            default,
        };
        manager.handle_request(request, server, address);
        let wire = server.heartbeat(1);
        assert_eq!(wire.len(), 1);
        server.process_packet(&[134, 0, 0, 24, 0, 67, acknowledged, 0], address, 2, 0);
        let mut iterator = CustomIterator::own(wire[0].1[5..].to_vec());
        assert_eq!(reader::read_u32(&mut iterator), Ok(23));
        assert_eq!(reader::read_array(&mut iterator), Ok(3));
        assert_eq!(reader::read_string(&mut iterator).unwrap(), key);
        assert_eq!(reader::read_string(&mut iterator).unwrap(), data_type);
        reader::read_bytes(&mut iterator).unwrap()
    };
    assert_eq!(
        answer(&mut manager, &mut server, "MHG.SimulationPaused", "System.Boolean", vec![0xC2], 0),
        vec![0xC3]
    );
    assert_eq!(
        answer(&mut manager, &mut server, "MHG.SimulationSpeed", "System.Double", double(0.0), 1),
        double(2.5)
    );
    assert_eq!(
        answer(
            &mut manager,
            &mut server,
            "MHG.FlagListOrder",
            "System.Collections.Generic.List`1[[LogicAPI.Data.ComponentAddress, LogicAPI, Version=1.0.0.0, Culture=neutral, PublicKeyToken=null]]",
            flags(&[]),
            2
        ),
        flags(&[4, 9])
    );
}

#[test]
fn manager_refuses_files_that_are_not_in_order() {
    let paused = |text: &str| {
        vec![("MHG.SimulationPaused".to_string(), data_file("System.Boolean", value(text)))]
    };
    assert!(ExtraDataManager::initialize(&paused("off"), None).is_ok());
    assert_eq!(
        ExtraDataManager::initialize(&paused("perhaps"), None).err(),
        Some(SuccError::WrongValue)
    );
    let not_a_map = vec![("MHG.SimulationPaused".to_string(), value("true"))];
    assert_eq!(ExtraDataManager::initialize(&not_a_map, None).err(), Some(SuccError::WrongKind));
    let speed = |data: SuccType| vec![("MHG.SimulationSpeed".to_string(), data_file("System.Double", data))];
    assert!(ExtraDataManager::initialize(&speed(value("1")), Some(1.0f64.to_bits())).is_ok());
    assert_eq!(
        ExtraDataManager::initialize(&speed(value("-1")), Some((-1.0f64).to_bits())).err(),
        Some(SuccError::WrongValue)
    );
    assert_eq!(
        ExtraDataManager::initialize(&speed(value("fast")), None).err(),
        Some(SuccError::WrongValue)
    );
    assert_eq!(
        ExtraDataManager::initialize(&speed(SuccType::List(vec![])), Some(0)).err(),
        Some(SuccError::WrongKind)
    );
    let undeclared = vec![(
        "MHG.SimulationSpeed".to_string(),
        SuccType::Mapping(vec![("Data".to_string(), value("fast"))]),
    )];
    assert!(ExtraDataManager::initialize(&undeclared, None).is_ok());
    let mut later = paused("on");
    later.extend(paused("perhaps"));
    assert_eq!(ExtraDataManager::initialize(&later, None).err(), Some(SuccError::WrongValue));
}

#[test]
fn keys_that_name_an_entry() {
    for key in [
        "MHG.SimulationPaused",
        "MHG.SimulationSpeed",
        "MHG.FlagListOrder",
        "MHG.WorldTypeData",
        "MHG.DisplayConfigurations/2_pegs/_Order",
        "MHG.DisplayConfigurations/3_pegs/Configuration10",
    ] {
        assert!(ExtraDataManager::names_entry(key), "{}", key);
    }
    for key in ["", "MHG.Nothing", "mhg.simulationpaused", "MHG.DisplayConfigurations/_pegs/_Order"] {
        assert!(!ExtraDataManager::names_entry(key), "{}", key);
    }
}

#[test]
fn one_file_is_taken_at_a_time() {
    let mut manager = ExtraDataManager::initialize(&[], None).unwrap();
    let paused = data_file("System.Boolean", value("yes"));
    assert_eq!(manager.load_file("MHG.SimulationPaused", &paused, None), Ok(true));
    assert_eq!(manager.load_file("MHG.Nothing", &paused, None), Ok(false));
    let speed = data_file("System.Double", value("3"));
    assert_eq!(manager.load_file("MHG.SimulationSpeed", &speed, Some(3.0f64.to_bits())), Ok(true));
    assert_eq!(
        manager.load_file("MHG.SimulationSpeed", &speed, None),
        Err(SuccError::WrongValue)
    );
    assert_eq!(manager.load_file("MHG.SimulationSpeed", &paused, Some(0)), Ok(false));
    assert_eq!(manager.load_entry("MHG.SimulationSpeed", &speed), Err(SuccError::WrongKind));
}
