use rust_potato_server::dispatcher::{
    get_packet_content_iterator, handle_connect, handle_discovery, handle_user_packet,
    Handled, PacketError,
};
use rust_potato_server::files::extra_data::manager::ExtraDataManager;
use rust_potato_server::files::world_data::world_structs::{
    Component, ComponentAddress, World,
};
use rust_potato_server::lidgren::data_types::RemoteAddress;
use rust_potato_server::lidgren::lidgren_server::ServerInstance;
use rust_potato_server::lidgren::util::formatter;
use rust_potato_server::network::message_pack::pretty_printer::PrintedValue;
use rust_potato_server::network::message_pack::reader;
use rust_potato_server::network::message_pack::writer;
use rust_potato_server::network::packets::s2c::world_initialization_packet::{
    can_be_written, WorldInitializationPacket,
};
use rust_potato_server::util::custom_iterator::CustomIterator;
use rust_potato_server::util::error_handling::{DecompressError, ReadError};

fn client(port: u16) -> RemoteAddress {
    RemoteAddress { ip_high: 0, ip_low: 0x0000_FFFF_7F00_0001, port }
}

fn new_server() -> ServerInstance {
    ServerInstance::start("Logic World".to_string(), 77, 0)
}

fn server_with(address: RemoteAddress) -> ServerInstance {
    let mut server = new_server();
    server.process_packet(&[133, 0, 0, 32, 0, 0, 0, 0, 0], address, 0, 0);
    server
}

fn small_world() -> World {
    World {
        component_id_map: vec![(0, "MHG.CircuitBoard".to_string())],
        components: vec![Component {
            address: ComponentAddress { id: 1 },
            parent: ComponentAddress { id: 0 },
            type_id: 0,
            relative_position: (0, 0, 0),
            relative_alignment: (0, 0, 0, 1.0f32.to_bits()),
            inputs: vec![],
            outputs: vec![],
            custom_data: vec![1, 2, 3],
        }],
        wires: vec![],
        circuit_states: vec![false, true],
    }
}

fn message(id: u32, key: &str, data_type: &str, data: &[u8]) -> Vec<u8> {
    let mut bytes = Vec::new();
    writer::write_int_auto(&mut bytes, id);
    writer::write_array_auto(&mut bytes, 3);
    writer::write_string_auto(&mut bytes, Some(key));
    writer::write_string_auto(&mut bytes, Some(data_type));
    writer::write_binary(&mut bytes, data);
    bytes
}

fn update_on_the_wire(server: &mut ServerInstance, now: u64) -> Option<(String, String, Vec<u8>)> {
    let wire = server.heartbeat(now);
    if wire.is_empty() {
        return None;
    }
    assert_eq!(wire.len(), 1);
    let mut iterator = CustomIterator::own(wire[0].1[5..].to_vec());
    assert_eq!(reader::read_u32(&mut iterator), Ok(23));
    assert_eq!(reader::read_array(&mut iterator), Ok(3));
    let key = reader::read_string(&mut iterator).unwrap();
    let data_type = reader::read_string(&mut iterator).unwrap();
    let data = reader::read_bytes(&mut iterator).unwrap();
    Some((key, data_type, data))
}

#[test]
fn id_and_content_of_a_plain_packet() {
    let (id, mut content) = get_packet_content_iterator(vec![8, 0x93, 1, 2, 3]).unwrap();
    assert_eq!(id, 8);
    assert_eq!(content.pointer_save(), 1);
    assert_eq!(content.remaining(), 4);
    assert_eq!(reader::read_array(&mut content), Ok(3));
    let (id, content) = get_packet_content_iterator(vec![0xCD, 0x01, 0x00, 0xC0]).unwrap();
    assert_eq!(id, 256);
    assert_eq!(content.remaining(), 1);
    assert_eq!(
        get_packet_content_iterator(vec![0xCD, 0x01, 0x00]).err(),
        Some(PacketError::Compression(DecompressError::Read(ReadError::EndOfData)))
    );
    assert_eq!(
        get_packet_content_iterator(vec![]).err(),
        Some(PacketError::PacketId(ReadError::EndOfData))
    );
    assert_eq!(
        get_packet_content_iterator(vec![0xC3, 1]).err(),
        Some(PacketError::PacketId(ReadError::UnexpectedType(0xC3)))
    );
    assert_eq!(
        get_packet_content_iterator(vec![0xFF]).err(),
        Some(PacketError::PacketId(ReadError::UnexpectedType(0xFF)))
    );
}

#[test]
fn content_of_a_compressed_packet_is_unpacked() {
    let content: Vec<u8> = (0..500u32).map(|i| (i % 7) as u8).collect();
    let block = lz4::block::compress(&content, None, false).unwrap();
    let mut packet = vec![21];
    writer::write_array_auto(&mut packet, 2);
    packet.extend_from_slice(&[0xC7, 8, 98]);
    packet.extend_from_slice(&500u64.to_be_bytes());
    writer::write_binary(&mut packet, &block);
    let (id, mut unpacked) = get_packet_content_iterator(packet.clone()).unwrap();
    assert_eq!(id, 21);
    assert_eq!(unpacked.pointer_save(), 0);
    assert_eq!(unpacked.consume(), content);
    let declared_at = packet.len() - block.len() - 3;
    packet[declared_at] = 0xF3;
    assert_eq!(
        get_packet_content_iterator(packet).err(),
        Some(PacketError::Compression(DecompressError::Malformed))
    );
}

#[test]
fn discovery_request_gets_its_frame() {
    let server = new_server();
    let mut request = Vec::new();
    writer::write_int_auto(&mut request, 10);
    writer::write_map_auto(&mut request, 2);
    writer::write_string_auto(&mut request, Some("ForConnection"));
    writer::write_bool(&mut request, true);
    writer::write_string_auto(&mut request, Some("RequestGUID"));
    writer::write_string_auto(&mut request, Some("abc"));
    let frame = handle_discovery(&server, request).unwrap();
    assert_eq!(frame[0], 137);
    assert_eq!(&frame[1..3], &[0, 0]);
    let bits = frame[3] as usize + frame[4] as usize * 256;
    assert_eq!(bits, (frame.len() - 5) * 8);
    let mut iterator = CustomIterator::own(frame[5..].to_vec());
    assert_eq!(reader::read_u32(&mut iterator), Ok(13));
    assert_eq!(reader::read_map(&mut iterator), Ok(9));
    assert_eq!(reader::read_string(&mut iterator).unwrap(), "ServerVersion");
    assert_eq!(reader::read_string(&mut iterator).unwrap(), "0.91.0.485");
    assert_eq!(reader::read_string(&mut iterator).unwrap(), "RequestGuid");
    assert_eq!(reader::read_string(&mut iterator).unwrap(), "abc");
    assert_eq!(reader::read_string(&mut iterator).unwrap(), "HasDiscoveryInfo");
    assert_eq!(reader::read_bool(&mut iterator), Ok(true));
    assert_eq!(reader::read_string(&mut iterator).unwrap(), "Challenge");
    assert_eq!(reader::check_null(&mut iterator), Ok(true));
    assert_eq!(reader::read_string(&mut iterator).unwrap(), "MOTD");
    assert_eq!(reader::read_string(&mut iterator).unwrap(), "Rust server does NOT welcome you :)");
    assert_eq!(reader::read_string(&mut iterator).unwrap(), "PlayersConnectedCount");
    assert_eq!(reader::read_u32(&mut iterator), Ok(0));
    assert_eq!(reader::read_string(&mut iterator).unwrap(), "MaxPlayerCapacity");
    assert_eq!(reader::read_u32(&mut iterator), Ok(420));
    assert_eq!(reader::read_string(&mut iterator).unwrap(), "ConnectionRequiresPassword");
    assert_eq!(reader::read_bool(&mut iterator), Ok(false));
    assert_eq!(reader::read_string(&mut iterator).unwrap(), "ServerRunningInVerifiedMode");
    assert_eq!(reader::read_bool(&mut iterator), Ok(false));
    assert!(!iterator.has_more());
}

#[test]
fn discovery_requests_that_cannot_be_read_get_no_frame() {
    let server = new_server();
    assert_eq!(
        handle_discovery(&server, vec![11, 0x80]),
        Err(ReadError::WrongPacketId)
    );
    assert_eq!(handle_discovery(&server, vec![]), Err(ReadError::EndOfData));
    assert_eq!(
        handle_discovery(&server, vec![10, 0x81]),
        Err(ReadError::WrongElementAmount)
    );
}

#[test]
fn connection_request_gets_its_frame() {
    let server = new_server();
    let mut approval = Vec::new();
    writer::write_int_auto(&mut approval, 16);
    writer::write_array_auto(&mut approval, 6);
    writer::write_array_auto(&mut approval, 0);
    writer::write_array_auto(&mut approval, 1);
    writer::write_string_auto(&mut approval, Some("player1"));
    writer::write_string_auto(&mut approval, Some("0.91.0.485"));
    writer::write_null(&mut approval);
    writer::write_null(&mut approval);
    writer::write_null(&mut approval);
    let frame = handle_connect(&server, approval.clone(), 1.5f32.to_bits()).unwrap();
    let mut payload = Vec::new();
    formatter::write_string(&mut payload, "Logic World");
    formatter::write_int_64(&mut payload, 77);
    formatter::write_float(&mut payload, 1.5f32.to_bits());
    let mut expected = vec![132, 0, 0, (payload.len() * 8) as u8, ((payload.len() * 8) >> 8) as u8];
    expected.extend_from_slice(&payload);
    assert_eq!(frame, expected);
    approval[0] = 17;
    assert_eq!(handle_connect(&server, approval.clone(), 0), Err(ReadError::WrongPacketId));
    approval[0] = 16;
    approval.truncate(approval.len() - 1);
    assert_eq!(handle_connect(&server, approval, 0), Err(ReadError::EndOfData));
}

#[test]
fn established_connection_gets_the_world() {
    let address = client(1);
    let mut server = server_with(address);
    let mut extra_data = ExtraDataManager::initialize(&[], None).unwrap();
    let world = small_world();
    assert!(can_be_written(&world));
    let mut expected = Vec::new();
    WorldInitializationPacket::simple(&world).write(&mut expected);
    let outcome =
        handle_user_packet(&mut server, address, vec![17, 0x91, 0x91, 0], &world, &mut extra_data);
    match outcome {
        Handled::WorldSent(length) => assert_eq!(length, expected.len()),
        _ => panic!("the world was not sent"),
    }
    let wire = server.heartbeat(1);
    assert_eq!(wire.len(), 1);
    assert_eq!(wire[0].0, address);
    assert_eq!(wire[0].1[0], 67);
    assert_eq!(&wire[0].1[5..], &expected[..]);
}

#[test]
fn world_is_not_sent_to_a_stranger_nor_on_a_packet_that_is_malformed() {
    let address = client(2);
    let mut server = server_with(address);
    let mut extra_data = ExtraDataManager::initialize(&[], None).unwrap();
    let world = small_world();
    let outcome = handle_user_packet(
        &mut server,
        client(3),
        vec![17, 0x91, 0x91, 0],
        &world,
        &mut extra_data,
    );
    assert!(matches!(outcome, Handled::NotConnected));
    let outcome =
        handle_user_packet(&mut server, address, vec![17, 0x91, 0x91, 1], &world, &mut extra_data);
    assert!(matches!(outcome, Handled::Malformed(ReadError::WrongValue)));
    let outcome = handle_user_packet(&mut server, address, vec![17, 0x91], &world, &mut extra_data);
    assert!(matches!(outcome, Handled::Malformed(ReadError::EndOfData)));
    let outcome = handle_user_packet(&mut server, address, vec![17], &world, &mut extra_data);
    assert!(matches!(
        outcome,
        Handled::Unreadable(PacketError::Compression(DecompressError::Read(ReadError::EndOfData)))
    ));
    let outcome = handle_user_packet(&mut server, address, vec![], &world, &mut extra_data);
    assert!(matches!(
        outcome,
        Handled::Unreadable(PacketError::PacketId(ReadError::EndOfData))
    ));
    assert!(server.heartbeat(1).is_empty());
}

#[test]
fn world_with_a_long_name_is_sent() {
    let address = client(4);
    let mut server = server_with(address);
    let mut extra_data = ExtraDataManager::initialize(&[], None).unwrap();
    let mut world = small_world();
    world.component_id_map.push((1, "x".repeat(0x10000)));
    assert!(can_be_written(&world));
    let mut expected = Vec::new();
    WorldInitializationPacket::simple(&world).write(&mut expected);
    let name_at = expected.windows(5).position(|part| part == [0xDB, 0, 1, 0, 0]).unwrap();
    assert!(expected[name_at + 5..name_at + 5 + 0x10000].iter().all(|byte| *byte == b'x'));
    let outcome =
        handle_user_packet(&mut server, address, vec![17, 0x91, 0x91, 0], &world, &mut extra_data);
    match outcome {
        Handled::WorldSent(length) => assert_eq!(length, expected.len()),
        _ => panic!("the world was not sent"),
    }
    assert!(server.heartbeat(1).len() > 40);
}

#[test]
fn requests_and_changes_reach_the_extra_data() {
    let address = client(5);
    let mut server = server_with(address);
    let mut extra_data = ExtraDataManager::initialize(&[], None).unwrap();
    let world = small_world();
    let mut zero = Vec::new();
    writer::write_float_64(&mut zero, 0.0f64.to_bits());
    let mut five = Vec::new();
    writer::write_float_64(&mut five, 5.0f64.to_bits());
    let request = message(5, "MHG.SimulationSpeed", "System.Double", &zero);
    let outcome = handle_user_packet(&mut server, address, request, &world, &mut extra_data);
    assert!(matches!(outcome, Handled::Requested));
    assert_eq!(
        update_on_the_wire(&mut server, 1),
        Some(("MHG.SimulationSpeed".to_string(), "System.Double".to_string(), zero.clone()))
    );
    server.process_packet(&[134, 0, 0, 24, 0, 67, 0, 0], address, 2, 0);
    let change = message(4, "MHG.SimulationSpeed", "System.Double", &five);
    let outcome = handle_user_packet(&mut server, address, change, &world, &mut extra_data);
    assert!(matches!(outcome, Handled::Changed));
    assert_eq!(
        update_on_the_wire(&mut server, 3),
        Some(("MHG.SimulationSpeed".to_string(), "System.Double".to_string(), five))
    );
    let mut broken = message(4, "MHG.SimulationSpeed", "System.Double", &zero);
    broken[1] = 0x92;
    let outcome = handle_user_packet(&mut server, address, broken, &world, &mut extra_data);
    assert!(matches!(outcome, Handled::Malformed(ReadError::WrongElementAmount)));
}

#[test]
fn position_is_read_and_dropped() {
    let address = client(6);
    let mut server = server_with(address);
    let mut extra_data = ExtraDataManager::initialize(&[], None).unwrap();
    let world = small_world();
    let mut position = Vec::new();
    writer::write_int_auto(&mut position, 8);
    writer::write_array_auto(&mut position, 1);
    writer::write_array_auto(&mut position, 7);
    writer::write_array_auto(&mut position, 4);
    for value in [0.0f32, 0.0, 0.0, 1.0] {
        writer::write_float_auto(&mut position, value.to_bits());
    }
    writer::write_array_auto(&mut position, 3);
    for value in [1.0f32, 2.0, 3.0] {
        writer::write_float_auto(&mut position, value.to_bits());
    }
    for _ in 0..3 {
        writer::write_float_auto(&mut position, 0.5f32.to_bits());
    }
    writer::write_bool(&mut position, false);
    writer::write_bool(&mut position, true);
    let mut cut = position.clone();
    cut.pop();
    let outcome = handle_user_packet(&mut server, address, cut, &world, &mut extra_data);
    assert!(matches!(outcome, Handled::Malformed(ReadError::EndOfData)));
    let outcome = handle_user_packet(&mut server, address, position, &world, &mut extra_data);
    assert!(matches!(outcome, Handled::PositionTaken));
    assert!(server.heartbeat(1).is_empty());
}

#[test]
fn packet_with_an_id_that_is_not_handled_is_laid_out() {
    let address = client(7);
    let mut server = server_with(address);
    let mut extra_data = ExtraDataManager::initialize(&[], None).unwrap();
    let world = small_world();
    let outcome =
        handle_user_packet(&mut server, address, vec![21, 0x92, 7, 0xC3], &world, &mut extra_data);
    match outcome {
        Handled::Unknown(id, printed) => {
            assert_eq!(id, 21);
            assert_eq!(printed.error, None);
            assert_eq!(printed.left_over, 0);
            assert_eq!(printed.lines.len(), 3);
            assert!(matches!(printed.lines[0].value, PrintedValue::Array(2)));
            assert!(matches!(printed.lines[1].value, PrintedValue::Unsigned(7)));
            assert!(matches!(printed.lines[2].value, PrintedValue::Bool(true)));
        }
        _ => panic!("the packet was handled"),
    }
    let outcome = handle_user_packet(&mut server, address, vec![1, 0xC0], &world, &mut extra_data);
    assert!(matches!(outcome, Handled::Unknown(1, _)));
    assert!(server.heartbeat(1).is_empty());
}

#[test]
fn discovery_request_with_other_keys_gets_no_frame_and_a_long_id_is_answered() {
    let server = new_server();
    let request = |first: &str, second: &str, uid: &str| {
        let mut request = Vec::new();
        writer::write_int_auto(&mut request, 10);
        writer::write_map_auto(&mut request, 2);
        writer::write_string_auto(&mut request, Some(first));
        writer::write_bool(&mut request, false);
        writer::write_string_auto(&mut request, Some(second));
        request.push(0xDB);
        request.extend((uid.len() as u32).to_be_bytes());
        request.extend(uid.as_bytes());
        request
    };
    assert_eq!(
        handle_discovery(&server, request("ForConnection", "RequestGuid", "abc")),
        Err(ReadError::WrongKey)
    );
    assert_eq!(
        handle_discovery(&server, request("Forconnection", "RequestGUID", "abc")),
        Err(ReadError::WrongKey)
    );
    assert!(handle_discovery(&server, request("ForConnection", "RequestGUID", "abc")).is_ok());
    let short = "u".repeat(0xFFFF);
    let frame = handle_discovery(&server, request("ForConnection", "RequestGUID", &short)).unwrap();
    let at = frame.windows(11).position(|part| part == b"RequestGuid").unwrap() + 11;
    assert_eq!(&frame[at..at + 3], &[0xDA, 0xFF, 0xFF]);
    let long = "u".repeat(0x10000);
    let frame = handle_discovery(&server, request("ForConnection", "RequestGUID", &long)).unwrap();
    let at = frame.windows(11).position(|part| part == b"RequestGuid").unwrap() + 11;
    assert_eq!(&frame[at..at + 5], &[0xDB, 0, 1, 0, 0]);
    assert_eq!(&frame[at + 5..at + 5 + 0x10000], long.as_bytes());
}

#[test]
fn world_that_is_too_large_for_a_payload_is_not_sent() {
    let address = client(8);
    let mut server = server_with(address);
    let mut extra_data = ExtraDataManager::initialize(&[], None).unwrap();
    let mut world = small_world();
    world.components[0].custom_data = vec![0u8; 0x2000_0000];
    assert!(can_be_written(&world));
    let outcome =
        handle_user_packet(&mut server, address, vec![17, 0x91, 0x91, 0], &world, &mut extra_data);
    assert!(matches!(outcome, Handled::WorldTooLarge));
    assert!(server.heartbeat(1).is_empty());
}
