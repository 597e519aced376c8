use rust_potato_server::files::extra_data::manager::ExtraDataManager;
use rust_potato_server::files::world_data::world_structs::{
    Component, ComponentAddress, PegAddress, Wire, World,
};
use rust_potato_server::lidgren::connected_client::ConnectedClient;
use rust_potato_server::lidgren::data_structures::MessageHeader;
use rust_potato_server::lidgren::data_types::{DataType, RemoteAddress};
use rust_potato_server::lidgren::lidgren_server::{DataPacket, SendError, ServerInstance};
use rust_potato_server::lidgren::util::formatter;
use rust_potato_server::network::message_pack::reader;
use rust_potato_server::network::message_pack::writer;
use rust_potato_server::network::packets::c2s::connection_approval::ConnectionApproval;
use rust_potato_server::network::packets::c2s::connection_established::ConnectionEstablished;
use rust_potato_server::network::packets::c2s::discovery_request::DiscoveryRequest;
use rust_potato_server::network::packets::c2s::extra_data_change::ExtraDataChange;
use rust_potato_server::network::packets::c2s::extra_data_request::ExtraDataRequest;
use rust_potato_server::network::packets::s2c::discovery_response::DiscoveryResponse;
use rust_potato_server::network::packets::s2c::world_initialization_packet::WorldInitializationPacket;
use rust_potato_server::util::custom_iterator::CustomIterator;

fn peer(port: u16) -> RemoteAddress {
    RemoteAddress { ip_high: 0xFE80_0000_0000_0000, ip_low: 7, port }
}

fn frame(type_id: u8, sequence: u16, fragment: bool, payload: &[u8]) -> Vec<u8> {
    let bits = payload.len() * 8;
    let mut bytes = vec![
        type_id,
        ((sequence << 1) as u8) | fragment as u8,
        (sequence >> 7) as u8,
        bits as u8,
        (bits >> 8) as u8,
    ];
    bytes.extend_from_slice(payload);
    bytes
}

fn server() -> ServerInstance {
    ServerInstance::start("Logic World".to_string(), 0x1122334455667788, 0)
}

fn connected(address: RemoteAddress) -> ServerInstance {
    let mut server = server();
    let replies = server.process_packet(&frame(133, 0, false, &[0, 0, 0, 0]), address, 0, 0);
    assert!(replies.is_empty());
    server
}

#[test]
fn discovery_is_answered() {
    let mut server = server();
    let mut request = Vec::new();
    writer::write_int_auto(&mut request, 10);
    writer::write_map_auto(&mut request, 2);
    writer::write_string_auto(&mut request, Some("ForConnection"));
    writer::write_bool(&mut request, true);
    writer::write_string_auto(&mut request, Some("RequestGUID"));
    writer::write_string_auto(&mut request, Some("abc"));
    let replies = server.process_packet(&frame(136, 0, false, &request), peer(1), 5, 0);
    assert!(replies.is_empty());
    assert_eq!(server.new_data_packets.len(), 1);
    let packet = server.new_data_packets.remove(0);
    assert_eq!(packet.data_type, DataType::Discovery);
    assert_eq!(packet.remote_address, peer(1));
    assert_eq!(packet.data, request);
    let mut iterator = CustomIterator::own(packet.data);
    assert_eq!(DiscoveryRequest::validate_packet_id(&mut iterator), Ok(()));
    let parsed = DiscoveryRequest::parse(iterator).unwrap();
    assert!(parsed.intention_to_connect);
    assert_eq!(parsed.request_uid, "abc");
    let response = DiscoveryResponse::simple(parsed.request_uid, 420, false, false);
    let mut payload = Vec::new();
    response.write(&mut payload);
    let answer = server.answer_discovery(&payload);
    assert_eq!(answer[0], 137);
    assert_eq!(&answer[1..3], &[0, 0]);
    assert_eq!(answer[3] as usize + answer[4] as usize * 256, payload.len() * 8);
    assert_eq!(&answer[5..], &payload[..]);
    let mut iterator = CustomIterator::own(payload);
    assert_eq!(reader::read_u32(&mut iterator), Ok(13));
    assert_eq!(reader::read_map(&mut iterator), Ok(9));
    let mut request_guid = None;
    let mut capacity = None;
    let mut keys = Vec::new();
    for _ in 0..9 {
        let key = reader::read_string(&mut iterator).unwrap();
        match key.as_str() {
            "ServerVersion" => assert_eq!(reader::read_string(&mut iterator).unwrap(), "0.91.0.485"),
            "RequestGuid" => request_guid = Some(reader::read_string(&mut iterator).unwrap()),
            "HasDiscoveryInfo" => assert_eq!(reader::read_bool(&mut iterator), Ok(true)),
            "Challenge" => assert_eq!(reader::check_null(&mut iterator), Ok(true)),
            "MOTD" => assert_eq!(
                reader::read_string(&mut iterator).unwrap(),
                "Rust server does NOT welcome you :)"
            ),
            "PlayersConnectedCount" => assert_eq!(reader::read_u32(&mut iterator), Ok(0)),
            "MaxPlayerCapacity" => capacity = Some(reader::read_u32(&mut iterator).unwrap()),
            "ConnectionRequiresPassword" => assert_eq!(reader::read_bool(&mut iterator), Ok(false)),
            "ServerRunningInVerifiedMode" => assert_eq!(reader::read_bool(&mut iterator), Ok(false)),
            other => panic!("unexpected key {}", other),
        }
        keys.push(key);
    }
    assert!(!iterator.has_more());
    assert_eq!(request_guid, Some("abc".to_string()));
    assert_eq!(capacity, Some(420));
    assert_eq!(keys.len(), 9);
}

#[test]
fn connect_is_answered() {
    let mut server = server();
    let mut approval = Vec::new();
    writer::write_int_auto(&mut approval, 16);
    writer::write_array_auto(&mut approval, 6);
    writer::write_array_auto(&mut approval, 0);
    writer::write_array_auto(&mut approval, 1);
    writer::write_string_auto(&mut approval, Some("player1"));
    writer::write_string_auto(&mut approval, Some("0.91.0.485"));
    writer::write_null(&mut approval);
    writer::write_null(&mut approval);
    writer::write_null(&mut approval);
    let mut payload = Vec::new();
    formatter::write_string(&mut payload, "Logic World");
    formatter::write_int_64(&mut payload, 0xDEADBEEF);
    formatter::write_float(&mut payload, 0.0f32.to_bits());
    payload.extend_from_slice(&approval);
    let replies = server.process_packet(&frame(131, 0, false, &payload), peer(2), 0, 0);
    assert!(replies.is_empty());
    assert_eq!(server.new_data_packets.len(), 1);
    let packet = server.new_data_packets.remove(0);
    assert_eq!(packet.data_type, DataType::Connect);
    assert_eq!(packet.data, approval);
    let mut iterator = CustomIterator::own(packet.data);
    assert_eq!(ConnectionApproval::validate_packet_id(&mut iterator), Ok(()));
    let parsed = ConnectionApproval::parse(iterator).unwrap();
    assert_eq!(parsed.username, "player1");
    assert_eq!(parsed.version, "0.91.0.485");
    assert!(parsed.mods.is_empty());
    assert_eq!(parsed.password_hash, None);
    assert_eq!(parsed.hail_payload, None);
    assert_eq!(parsed.hail_signature, None);
    let answer = server.answer_connect(2.5f32.to_bits());
    let mut iterator = CustomIterator::own(answer.clone());
    let header = MessageHeader::from_stream(&mut iterator).unwrap();
    assert_eq!(header.message_type.to_index(), 132);
    assert_eq!(header.sequence_number, 0);
    assert_eq!(header.bytes as usize, answer.len() - 5);
    assert_eq!(formatter::read_string(&mut iterator), Ok("Logic World".to_string()));
    assert_eq!(formatter::read_int_64(&mut iterator), Ok(0x1122334455667788));
    assert_eq!(formatter::read_float(&mut iterator), Ok(2.5f32.to_bits()));
    assert!(!iterator.has_more());
}

#[test]
fn connect_with_another_application_name_is_dropped() {
    let mut server = server();
    let mut payload = Vec::new();
    formatter::write_string(&mut payload, "Other Game");
    formatter::write_int_64(&mut payload, 1);
    formatter::write_float(&mut payload, 0);
    let replies = server.process_packet(&frame(131, 0, false, &payload), peer(2), 0, 0);
    assert!(replies.is_empty());
    assert!(server.new_data_packets.is_empty());
    let mut payload = Vec::new();
    formatter::write_string(&mut payload, "Logic World");
    server.process_packet(&frame(131, 0, false, &payload), peer(2), 0, 0);
    assert!(server.new_data_packets.is_empty());
}

#[test]
fn ping_is_answered_with_pong() {
    let mut server = server();
    let replies = server.process_packet(&frame(129, 0, false, &[77]), peer(3), 0, 1.0f32.to_bits());
    assert_eq!(replies, vec![vec![130, 0, 0, 40, 0, 77, 0x00, 0x00, 0x80, 0x3F]]);
    let replies = server.process_packet(&frame(129, 0, false, &[77, 78]), peer(3), 0, 0);
    assert!(replies.is_empty());
}

#[test]
fn reliable_frames_are_acknowledged_and_handed_on_in_order() {
    let address = peer(4);
    let mut server = connected(address);
    let mut datagram = Vec::new();
    for sequence in [0u16, 1, 3, 2, 2, 4] {
        datagram.extend(frame(67, sequence, false, &[sequence as u8, 0x55]));
    }
    let replies = server.process_packet(&datagram, address, 10, 0);
    assert_eq!(replies.len(), 6);
    assert_eq!(replies[0], vec![134, 0, 0, 24, 0, 67, 0, 0]);
    assert_eq!(replies[2], vec![134, 0, 0, 24, 0, 67, 3, 0]);
    let seen: Vec<Vec<u8>> = server.new_data_packets.iter().map(|p| p.data.clone()).collect();
    assert_eq!(
        seen,
        vec![vec![0, 0x55], vec![1, 0x55], vec![2, 0x55], vec![3, 0x55], vec![4, 0x55]]
    );
    assert!(server.new_data_packets.iter().all(|p| p.data_type == DataType::Data
        && p.remote_address == address));
}

#[test]
fn frame_that_is_too_early_is_not_acknowledged() {
    let address = peer(4);
    let mut server = connected(address);
    let mut datagram = frame(67, 65, false, &[1]);
    datagram.extend(frame(67, 64, false, &[2]));
    let replies = server.process_packet(&datagram, address, 10, 0);
    assert_eq!(replies, vec![vec![134, 0, 0, 24, 0, 67, 64, 0]]);
    assert!(server.new_data_packets.is_empty());
}

#[test]
fn frames_of_other_channels_and_of_strangers_end_the_datagram() {
    let address = peer(5);
    let mut server = connected(address);
    let mut datagram = frame(68, 0, false, &[1]);
    datagram.extend(frame(67, 0, false, &[2]));
    assert!(server.process_packet(&datagram, address, 10, 0).is_empty());
    assert!(server.new_data_packets.is_empty());
    let mut datagram = frame(67, 0, false, &[2]);
    datagram.extend(frame(129, 0, false, &[9]));
    let replies = server.process_packet(&datagram, peer(6), 10, 0);
    assert_eq!(replies, vec![vec![134, 0, 0, 24, 0, 67, 0, 0]]);
    assert!(server.new_data_packets.is_empty());
    let mut datagram = frame(100, 0, false, &[]);
    datagram.extend(frame(129, 0, false, &[9]));
    assert!(server.process_packet(&datagram, address, 10, 0).is_empty());
    let mut datagram = frame(1, 0, false, &[]);
    datagram.extend(frame(129, 0, false, &[9]));
    assert!(server.process_packet(&datagram, address, 10, 0).is_empty());
    let mut datagram = frame(130, 0, false, &[]);
    datagram.extend(frame(129, 0, false, &[9]));
    assert!(server.process_packet(&datagram, address, 10, 0).is_empty());
}

#[test]
fn malformed_datagrams_are_dropped() {
    let mut server = server();
    assert!(server.process_packet(&[129, 0, 0], peer(1), 0, 0).is_empty());
    assert!(server.process_packet(&[129, 0, 0, 16, 0, 1], peer(1), 0, 0).is_empty());
    assert!(server.process_packet(&[250, 0, 0, 8, 0, 1], peer(1), 0, 0).is_empty());
    let mut datagram = frame(129, 0, false, &[5]);
    datagram.extend([129, 0, 0]);
    assert_eq!(server.process_packet(&datagram, peer(1), 0, 0).len(), 1);
}

#[test]
fn disconnect_purges_queued_data() {
    let a = peer(7);
    let b = peer(8);
    let mut server = connected(a);
    server.process_packet(&frame(133, 0, false, &[0, 0, 0, 0]), b, 0, 0);
    server.process_packet(&frame(67, 0, false, &[0xB0]), b, 1, 0);
    server.process_packet(&frame(136, 0, false, &[0xD1]), a, 1, 0);
    let mut reason = Vec::new();
    formatter::write_string(&mut reason, "bye");
    let mut datagram = frame(67, 0, false, &[0xA0]);
    datagram.extend(frame(135, 0, false, &reason));
    let replies = server.process_packet(&datagram, a, 2, 0);
    assert_eq!(replies.len(), 1);
    let left: Vec<(DataType, RemoteAddress, Vec<u8>)> = server
        .new_data_packets
        .iter()
        .map(|p| (p.data_type, p.remote_address, p.data.clone()))
        .collect();
    assert_eq!(
        left,
        vec![(DataType::Data, b, vec![0xB0]), (DataType::Discovery, a, vec![0xD1])]
    );
    assert_eq!(server.send_to(a, vec![1]), Err(SendError::NotConnected));
    assert_eq!(server.send_to(b, vec![1]), Ok(()));
}

#[test]
fn acknowledgements_move_the_window() {
    let address = peer(9);
    let mut server = connected(address);
    for i in 0..3u8 {
        assert_eq!(server.send_to(address, vec![i]), Ok(()));
    }
    let wire = server.heartbeat(100);
    assert_eq!(wire.len(), 3);
    assert!(wire.iter().all(|(to, _)| *to == address));
    assert_eq!(wire[2].1, vec![67, 4, 0, 8, 0, 2]);
    assert!(server.heartbeat(200).is_empty());
    assert_eq!(server.heartbeat(501).len(), 3);
    let replies = server.process_packet(&frame(134, 0, false, &[67, 1, 0, 68, 0, 0, 67, 0, 0]), address, 502, 0);
    assert!(replies.is_empty());
    let wire = server.heartbeat(902);
    assert_eq!(wire, vec![(address, vec![67, 4, 0, 8, 0, 2])]);
    server.process_packet(&frame(134, 0, false, &[67, 2, 0, 0]), address, 903, 0);
    assert_eq!(server.heartbeat(1400).len(), 1);
    server.process_packet(&frame(134, 0, false, &[200, 2, 0, 67, 2, 0]), address, 1401, 0);
    assert_eq!(server.heartbeat(1900).len(), 1);
    server.process_packet(&frame(134, 0, false, &[67, 2, 0]), peer(10), 1901, 0);
    assert_eq!(server.heartbeat(2400).len(), 1);
    server.process_packet(&frame(134, 0, false, &[67, 2, 0]), address, 2401, 0);
    assert!(server.heartbeat(2900).is_empty());
}

fn big_world() -> World {
    let mut components = Vec::new();
    for i in 0..200u32 {
        components.push(Component {
            address: ComponentAddress { id: i + 1 },
            parent: ComponentAddress { id: i / 2 },
            type_id: (i % 3) as u16,
            relative_position: (i as i32 * 300, -(i as i32), 70000),
            relative_alignment: (0, 0, 0, 1.0f32.to_bits()),
            inputs: vec![i, i + 1],
            outputs: vec![i * 2],
            custom_data: vec![i as u8; (i % 5) as usize],
        });
    }
    let peg = |id: u32, input: bool| PegAddress {
        is_input: input,
        component_address: ComponentAddress { id },
        peg_index: id % 4,
    };
    World {
        component_id_map: vec![
            (0, "MHG.CircuitBoard".to_string()),
            (1, "MHG.Inverter".to_string()),
            (2, "MHG.Peg".to_string()),
        ],
        components,
        wires: vec![
            Wire { peg_a: peg(1, true), peg_b: peg(2, false), circuit_state_id: 5, rotation: 0 },
            Wire { peg_a: peg(3, false), peg_b: peg(4, true), circuit_state_id: 6, rotation: 0.5f32.to_bits() },
        ],
        circuit_states: vec![true, false, false, true, true],
    }
}

#[test]
fn world_initialization_has_the_shape_of_the_packet() {
    let world = World {
        component_id_map: vec![(7, "MHG.Peg".to_string())],
        components: vec![Component {
            address: ComponentAddress { id: 1 },
            parent: ComponentAddress { id: 0 },
            type_id: 7,
            relative_position: (1000, -300, 0),
            relative_alignment: (0, 0, 0, 1.0f32.to_bits()),
            inputs: vec![3],
            outputs: vec![],
            custom_data: vec![0xAB],
        }],
        wires: vec![Wire {
            peg_a: PegAddress { is_input: true, component_address: ComponentAddress { id: 1 }, peg_index: 0 },
            peg_b: PegAddress { is_input: false, component_address: ComponentAddress { id: 1 }, peg_index: 2 },
            circuit_state_id: 3,
            rotation: 0,
        }],
        circuit_states: vec![true, false],
    };
    let mut buffer = Vec::new();
    WorldInitializationPacket::simple(&world).write(&mut buffer);
    let expected: Vec<u8> = vec![
        18, 0x98, 0x92, 0xC3, 0xC2, 0x81, 0xCD, 0, 7, 0xA7, b'M', b'H', b'G', b'.', b'P', b'e',
        b'g', 0xAD, b'M', b'H', b'G', b'.', b'G', b'r', b'i', b'd', b'l', b'a', b'n', b'd', b's',
        0x91, 0x92, 0x91, 1, 0x97, 0x91, 0xCD, 0, 7, 0x91, 0x91, 3, 0x90, 0xC4, 1, 0xAB, 0x91, 0,
        0x93, 0xCD, 0x03, 0xE8, 0xD1, 0xFE, 0xD4, 0, 0x94, 0xCA, 0, 0, 0, 0, 0xCA, 0, 0, 0, 0,
        0xCA, 0, 0, 0, 0, 0xCA, 0x3F, 0x80, 0, 0, 0x81, 0x91, 1, 0x94, 0x92, 0, 0x92, 0x91, 1, 0,
        0x92, 1, 0x92, 0x91, 1, 2, 3, 0xCA, 0, 0, 0, 0,
    ];
    assert_eq!(&buffer[..expected.len()], &expected[..]);
    let mut iterator = CustomIterator::own(buffer[expected.len()..].to_vec());
    assert_eq!(reader::read_array(&mut iterator), Ok(7));
    assert_eq!(reader::read_array(&mut iterator), Ok(4));
    for expected in [0.0f32, 0.0, 0.0, 1.0] {
        assert_eq!(reader::read_f32(&mut iterator), Ok(expected.to_bits()));
    }
    assert_eq!(reader::read_array(&mut iterator), Ok(3));
    for expected in [0.0f32, 1.0, 0.0] {
        assert_eq!(reader::read_f32(&mut iterator), Ok(expected.to_bits()));
    }
    for expected in [0.0f32, 0.0, 1.0] {
        assert_eq!(reader::read_f32(&mut iterator), Ok(expected.to_bits()));
    }
    assert_eq!(reader::read_bool(&mut iterator), Ok(true));
    assert_eq!(reader::read_bool(&mut iterator), Ok(false));
    assert_eq!(reader::check_null(&mut iterator), Ok(true));
    assert_eq!(reader::read_string(&mut iterator), Ok("EpicUsername".to_string()));
    assert!(!iterator.has_more());
}

#[test]
fn fragmented_world_initialization() {
    let address = peer(11);
    let mut server = connected(address);
    let mut established = Vec::new();
    writer::write_int_auto(&mut established, 17);
    writer::write_array_auto(&mut established, 1);
    writer::write_array_auto(&mut established, 1);
    writer::write_int_auto(&mut established, 0);
    let replies = server.process_packet(&frame(67, 0, false, &established), address, 1, 0);
    assert_eq!(replies.len(), 1);
    let packet = server.new_data_packets.remove(0);
    let mut iterator = CustomIterator::own(packet.data);
    assert_eq!(reader::read_u32(&mut iterator), Ok(17));
    assert!(ConnectionEstablished::parse(iterator).is_ok());
    let world = big_world();
    let mut payload = Vec::new();
    WorldInitializationPacket::simple(&world).write(&mut payload);
    assert!(payload.len() > 1403);
    assert_eq!(server.send_to(address, payload.clone()), Ok(()));
    let wire = server.heartbeat(2);
    assert!(wire.len() > 1);
    let mut client = ConnectedClient::new(address);
    let mut packets: Vec<DataPacket> = Vec::new();
    for (to, datagram) in wire.iter().rev() {
        assert_eq!(*to, address);
        assert!(datagram.len() <= 1408);
        let mut iterator = CustomIterator::own(datagram.clone());
        let header = MessageHeader::from_stream(&mut iterator).unwrap();
        assert!(header.fragment);
        client.handle_new_message(&mut packets, address, header, iterator, 3);
    }
    assert_eq!(packets.len(), 1);
    assert_eq!(packets[0].data, payload);
}

#[test]
fn connection_established_is_an_array_with_a_zero() {
    assert!(ConnectionEstablished::parse(CustomIterator::own(vec![0x91, 0x91, 0])).is_ok());
    assert!(ConnectionEstablished::parse(CustomIterator::own(vec![0x91, 0x91, 1])).is_err());
    assert!(ConnectionEstablished::parse(CustomIterator::own(vec![0x91, 0])).is_err());
    assert!(ConnectionEstablished::parse(CustomIterator::own(vec![0x92, 0x91, 0, 0])).is_err());
    let mut iterator = CustomIterator::own(vec![17, 0x91, 0x91, 0]);
    assert_eq!(ConnectionEstablished::validate_packet_id(&mut iterator), Ok(()));
    let mut iterator = CustomIterator::own(vec![16, 0x91, 0]);
    assert!(ConnectionEstablished::validate_packet_id(&mut iterator).is_err());
}

fn extra_data_message(key: &str, data_type: &str, data: &[u8]) -> Vec<u8> {
    let mut bytes = Vec::new();
    writer::write_array_auto(&mut bytes, 3);
    writer::write_string_auto(&mut bytes, Some(key));
    writer::write_string_auto(&mut bytes, Some(data_type));
    writer::write_binary(&mut bytes, data);
    bytes
}

fn sent_update(server: &mut ServerInstance, now: u64) -> Option<(String, String, Vec<u8>)> {
    let wire = server.heartbeat(now);
    if wire.is_empty() {
        return None;
    }
    assert_eq!(wire.len(), 1);
    let mut iterator = CustomIterator::own(wire[0].1[5..].to_vec());
    assert_eq!(reader::read_u32(&mut iterator), Ok(23));
    assert_eq!(reader::read_array(&mut iterator), Ok(3));
    let key = reader::read_string(&mut iterator).unwrap();
    let data_type = reader::read_string(&mut iterator).unwrap();
    let data = reader::read_bytes(&mut iterator).unwrap();
    assert!(!iterator.has_more());
    Some((key, data_type, data))
}

#[test]
fn extra_data_echo() {
    let address = peer(12);
    let mut server = connected(address);
    let mut manager = ExtraDataManager::initialize(&[], None).unwrap();
    let mut zero = Vec::new();
    writer::write_float_64(&mut zero, 0.0f64.to_bits());
    let request = extra_data_message("MHG.SimulationSpeed", "System.Double", &zero);
    let request = ExtraDataRequest::parse(CustomIterator::own(request)).unwrap();
    assert_eq!(request.key, "MHG.SimulationSpeed");
    manager.handle_request(request, &mut server, address);
    let (key, data_type, data) = sent_update(&mut server, 1).unwrap();
    assert_eq!(key, "MHG.SimulationSpeed");
    assert_eq!(data_type, "System.Double");
    assert_eq!(reader::read_f64(&mut CustomIterator::own(data)), Ok(0.0f64.to_bits()));
    let mut five = Vec::new();
    writer::write_float_64(&mut five, 5.0f64.to_bits());
    let change = extra_data_message("MHG.SimulationSpeed", "System.Double", &five);
    let change = ExtraDataChange::parse(CustomIterator::own(change)).unwrap();
    manager.handle_change(change, &mut server, address);
    server.process_packet(&frame(134, 0, false, &[67, 0, 0]), address, 2, 0);
    let (_, _, data) = sent_update(&mut server, 3).unwrap();
    assert_eq!(reader::read_f64(&mut CustomIterator::own(data)), Ok(5.0f64.to_bits()));
    server.process_packet(&frame(134, 0, false, &[67, 1, 0]), address, 4, 0);
    let mut minus = Vec::new();
    writer::write_float_64(&mut minus, (-1.0f64).to_bits());
    let change = extra_data_message("MHG.SimulationSpeed", "System.Double", &minus);
    let change = ExtraDataChange::parse(CustomIterator::own(change)).unwrap();
    manager.handle_change(change, &mut server, address);
    assert_eq!(sent_update(&mut server, 5), None);
    let request = extra_data_message("MHG.SimulationSpeed", "System.Double", &zero);
    let request = ExtraDataRequest::parse(CustomIterator::own(request)).unwrap();
    manager.handle_request(request, &mut server, address);
    let (_, _, data) = sent_update(&mut server, 6).unwrap();
    assert_eq!(reader::read_f64(&mut CustomIterator::own(data)), Ok(5.0f64.to_bits()));
}

#[test]
fn extra_data_requests_that_are_not_in_order_get_no_answer() {
    let address = peer(13);
    let mut server = connected(address);
    let mut manager = ExtraDataManager::initialize(&[], None).unwrap();
    let mut zero = Vec::new();
    writer::write_float_64(&mut zero, 0.0f64.to_bits());
    for (key, data_type, data) in [
        ("MHG.Unknown", "System.Double", zero.clone()),
        ("MHG.SimulationSpeed", "System.Boolean", zero.clone()),
        ("MHG.SimulationSpeed", "System.Double", vec![0xC3]),
        ("MHG.SimulationPaused", "System.Boolean", zero.clone()),
    ] {
        let request = extra_data_message(key, data_type, &data);
        let request = ExtraDataRequest::parse(CustomIterator::own(request)).unwrap();
        manager.handle_request(request, &mut server, address);
        assert_eq!(sent_update(&mut server, 1), None);
        let change = extra_data_message(key, data_type, &data);
        let change = ExtraDataChange::parse(CustomIterator::own(change)).unwrap();
        manager.handle_change(change, &mut server, address);
        assert_eq!(sent_update(&mut server, 1), None);
    }
    let request = extra_data_message("MHG.SimulationPaused", "System.Boolean", &[0xC3]);
    let request = ExtraDataRequest::parse(CustomIterator::own(request)).unwrap();
    manager.handle_request(request, &mut server, peer(99));
    assert_eq!(sent_update(&mut server, 1), None);
    let request = extra_data_message("MHG.SimulationPaused", "System.Boolean", &[0xC3]);
    let request = ExtraDataRequest::parse(CustomIterator::own(request)).unwrap();
    manager.handle_request(request, &mut server, address);
    assert_eq!(
        sent_update(&mut server, 1),
        Some(("MHG.SimulationPaused".to_string(), "System.Boolean".to_string(), vec![0xC2]))
    );
}

#[test]
fn disconnect_removes_the_connection_and_its_queued_payloads_only() {
    let leaving = peer(21);
    let staying = peer(22);
    let mut server = connected(leaving);
    server.process_packet(&frame(133, 0, false, &[0, 0, 0, 0]), staying, 0, 0);
    let packet = |data_type: DataType, remote_address: RemoteAddress, tag: u8| DataPacket {
        data_type,
        remote_address,
        data: vec![tag],
    };
    server.new_data_packets = vec![
        packet(DataType::Data, leaving, 1),
        packet(DataType::Discovery, leaving, 2),
        packet(DataType::Data, staying, 3),
        packet(DataType::Data, leaving, 4),
        packet(DataType::Connect, leaving, 5),
        packet(DataType::Data, staying, 6),
        packet(DataType::Data, leaving, 7),
    ];
    server.handle_packet_disconnect(leaving);
    let left: Vec<u8> = server.new_data_packets.iter().map(|packet| packet.data[0]).collect();
    assert_eq!(left, vec![2, 3, 5, 6]);
    assert_eq!(server.send_to(leaving, vec![1]), Err(SendError::NotConnected));
    assert_eq!(server.send_to(staying, vec![1]), Ok(()));
    server.handle_packet_disconnect(leaving);
    assert_eq!(server.new_data_packets.len(), 4);
    server.handle_packet_disconnect(peer(23));
    assert_eq!(server.new_data_packets.len(), 4);
    assert_eq!(server.send_to(staying, vec![1]), Ok(()));
}
