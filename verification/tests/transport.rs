use rust_potato_server::lidgren::channel_handler::reliable_ordered::ReliableOrderedHandler;
use rust_potato_server::lidgren::channel_sender::reliable_ordered::ReliablyOrderedSender;
use rust_potato_server::lidgren::connected_client::ConnectedClient;
use rust_potato_server::lidgren::data_structures::MessageHeader;
use rust_potato_server::lidgren::data_types::{DataType, RemoteAddress};
use rust_potato_server::lidgren::fragment::{
    figure_out_chunk_stuff, fragment_payload, ChunkHeader, FragmentData,
};
use rust_potato_server::lidgren::lidgren_server::DataPacket;
use rust_potato_server::lidgren::message_type::MessageType;
use rust_potato_server::lidgren::util::formatter;
use rust_potato_server::util::custom_iterator::CustomIterator;
use rust_potato_server::util::error_handling::ReadError;

fn address(port: u16) -> RemoteAddress {
    RemoteAddress { ip_high: 0, ip_low: 1, port }
}

fn header(sequence_number: u16, fragment: bool) -> MessageHeader {
    MessageHeader {
        message_type: MessageType::UserReliableOrdered(0),
        fragment,
        sequence_number,
        bits: 8,
        bytes: 1,
    }
}

fn feed(handler: &mut ReliableOrderedHandler, sequence_number: u16) -> Vec<u8> {
    let mut output = Vec::new();
    let payload = vec![(sequence_number % 256) as u8, (sequence_number / 256) as u8];
    handler.handle(header(sequence_number, false), CustomIterator::own(payload), &mut output);
    output.iter().map(|(h, data)| {
        assert_eq!(data, &vec![(h.sequence_number % 256) as u8, (h.sequence_number / 256) as u8]);
        h.sequence_number as u8
    }).collect()
}

#[test]
fn vint_round_trips() {
    let cases: Vec<(u32, Vec<u8>)> = vec![
        (0, vec![0]),
        (1, vec![1]),
        (127, vec![127]),
        (128, vec![0x80, 1]),
        (300, vec![0xAC, 0x02]),
        (16383, vec![0xFF, 0x7F]),
        (16384, vec![0x80, 0x80, 1]),
        (0x1F_FFFF, vec![0xFF, 0xFF, 0x7F]),
        (0x20_0000, vec![0x80, 0x80, 0x80, 1]),
        (0x0FFF_FFFF, vec![0xFF, 0xFF, 0xFF, 0x7F]),
        (0x1000_0000, vec![0x80, 0x80, 0x80, 0x80, 1]),
        (u32::MAX, vec![0xFF, 0xFF, 0xFF, 0xFF, 0x0F]),
    ];
    for (value, expected) in cases {
        let mut buffer = Vec::new();
        formatter::write_vint_32(&mut buffer, value);
        assert_eq!(buffer, expected);
        assert_eq!(formatter::vint_length(value) as usize, expected.len());
        let mut iterator = CustomIterator::own(buffer);
        assert_eq!(formatter::read_vint_32(&mut iterator), Ok(value));
        assert!(!iterator.has_more());
    }
}

#[test]
fn vint_of_more_than_five_bytes_is_refused() {
    let mut iterator = CustomIterator::own(vec![0x80, 0x80, 0x80, 0x80, 0x80, 0x01]);
    assert_eq!(formatter::read_vint_32(&mut iterator), Err(ReadError::OutOfRange));
    let mut iterator = CustomIterator::own(vec![0x80, 0x80]);
    assert_eq!(formatter::read_vint_32(&mut iterator), Err(ReadError::EndOfData));
    let mut iterator = CustomIterator::own(vec![0xFF, 0xFF, 0xFF, 0xFF, 0x7F]);
    assert_eq!(formatter::read_vint_32(&mut iterator), Ok(u32::MAX));
}

#[test]
fn lidgren_integers_are_little_endian() {
    let mut buffer = Vec::new();
    formatter::write_int_32(&mut buffer, 0x01020304);
    formatter::write_int_64(&mut buffer, 0x0102030405060708);
    formatter::write_float(&mut buffer, 1.0f32.to_bits());
    assert_eq!(
        buffer,
        vec![4, 3, 2, 1, 8, 7, 6, 5, 4, 3, 2, 1, 0x00, 0x00, 0x80, 0x3F]
    );
    let mut iterator = CustomIterator::own(buffer);
    assert_eq!(formatter::read_int_32(&mut iterator), Ok(0x01020304));
    assert_eq!(formatter::read_int_64(&mut iterator), Ok(0x0102030405060708));
    assert_eq!(formatter::read_float(&mut iterator), Ok(1.0f32.to_bits()));
    assert_eq!(formatter::read_int_32(&mut iterator), Err(ReadError::EndOfData));
}

#[test]
fn lidgren_strings_round_trip() {
    for text in ["", "Logic World", "Grüße 🚀"] {
        let mut buffer = Vec::new();
        formatter::write_string(&mut buffer, text);
        assert_eq!(buffer[0] as usize, text.len());
        let mut iterator = CustomIterator::own(buffer);
        assert_eq!(formatter::read_string(&mut iterator), Ok(text.to_string()));
    }
    let mut iterator = CustomIterator::own(vec![2, 0xC3, 0x28]);
    assert_eq!(formatter::read_string(&mut iterator), Err(ReadError::InvalidUtf8));
}

#[test]
fn message_types_and_ids_correspond() {
    for id in 0..=255u8 {
        match MessageType::from_id(id) {
            Some(message_type) => {
                assert!(id <= 143);
                assert_eq!(message_type.to_index(), id);
                let user_or_unused = id <= 127;
                assert_eq!(MessageType::is_system(&message_type), !user_or_unused);
            }
            None => assert!(id > 143),
        }
    }
    assert_eq!(MessageType::from_id(67), Some(MessageType::UserReliableOrdered(0)));
    assert_eq!(MessageType::from_id(98), Some(MessageType::UserReliableOrdered(31)));
    assert_eq!(MessageType::from_id(99), Some(MessageType::Unused(0)));
    assert_eq!(MessageType::from_id(127), Some(MessageType::Unused(28)));
    assert_eq!(MessageType::from_id(136), Some(MessageType::Discovery));
    assert_eq!(MessageType::from_id(142), Some(MessageType::NatIntroductionConfirmRequest));
    assert_eq!(MessageType::ExpandMTURequest.to_index(), 140);
}

#[test]
fn header_is_read_from_five_bytes() {
    let mut iterator = CustomIterator::own(vec![67, 0x07, 0x01, 0x10, 0x00, 0xAA, 0xBB]);
    let header = MessageHeader::from_stream(&mut iterator).unwrap();
    assert_eq!(header.message_type, MessageType::UserReliableOrdered(0));
    assert!(header.fragment);
    assert_eq!(header.sequence_number, 3 + 128);
    assert_eq!(header.bits, 16);
    assert_eq!(header.bytes, 2);
    assert_eq!(iterator.remaining(), 2);
    let mut iterator = CustomIterator::own(vec![129, 0, 0, 9, 0]);
    let header = MessageHeader::from_stream(&mut iterator).unwrap();
    assert_eq!(header.message_type, MessageType::Ping);
    assert!(!header.fragment);
    assert_eq!(header.bytes, 2);
    let mut iterator = CustomIterator::own(vec![129, 0, 0, 0xFF, 0xFF]);
    assert_eq!(MessageHeader::from_stream(&mut iterator).unwrap().bytes, 8191);
    let mut iterator = CustomIterator::own(vec![129, 0, 0, 0xF7, 0xFF]);
    assert_eq!(MessageHeader::from_stream(&mut iterator).unwrap().bytes, 8191);
    let mut iterator = CustomIterator::own(vec![129, 0, 0, 0xF6, 0xFF]);
    assert_eq!(MessageHeader::from_stream(&mut iterator).unwrap().bytes, 8191);
    let mut iterator = CustomIterator::own(vec![129, 0, 0, 0xF0, 0xFF]);
    assert_eq!(MessageHeader::from_stream(&mut iterator).unwrap().bytes, 8190);
    let mut iterator = CustomIterator::own(vec![1, 2, 3, 4]);
    assert_eq!(MessageHeader::from_stream(&mut iterator).err(), Some(ReadError::EndOfData));
    assert_eq!(iterator.remaining(), 4);
    let mut iterator = CustomIterator::own(vec![200, 0, 0, 0, 0]);
    assert_eq!(
        MessageHeader::from_stream(&mut iterator).err(),
        Some(ReadError::UnexpectedType(200))
    );
}

#[test]
fn receiver_hands_frames_on_in_order() {
    let mut handler = ReliableOrderedHandler::default();
    assert_eq!(feed(&mut handler, 0), vec![0]);
    assert_eq!(feed(&mut handler, 1), vec![1]);
    assert_eq!(feed(&mut handler, 3), Vec::<u8>::new());
    assert_eq!(feed(&mut handler, 2), vec![2, 3]);
    assert_eq!(feed(&mut handler, 2), Vec::<u8>::new());
    assert_eq!(feed(&mut handler, 4), vec![4]);
    assert_eq!(handler.latest_sequence_index(), 5);
}

#[test]
fn reliable_ordered_reorder() {
    let mut handler = ReliableOrderedHandler::default();
    assert_eq!(feed(&mut handler, 0), vec![0]);
    let mut seen = Vec::new();
    for sequence in [1u16, 3, 2, 2, 4] {
        seen.extend(feed(&mut handler, sequence));
    }
    assert_eq!(seen, vec![1, 2, 3, 4]);
}

#[test]
fn receiver_drops_duplicates_and_old_frames() {
    let mut handler = ReliableOrderedHandler::default();
    assert_eq!(feed(&mut handler, 0), vec![0]);
    assert_eq!(feed(&mut handler, 0), Vec::<u8>::new());
    assert_eq!(feed(&mut handler, 5), Vec::<u8>::new());
    assert_eq!(feed(&mut handler, 5), Vec::<u8>::new());
    assert_eq!(feed(&mut handler, 1023), Vec::<u8>::new());
    assert_eq!(handler.latest_sequence_index(), 1);
    for sequence in 1..5u16 {
        let out = feed(&mut handler, sequence);
        if sequence < 4 {
            assert_eq!(out, vec![sequence as u8]);
        } else {
            assert_eq!(out, vec![4, 5]);
        }
    }
    assert_eq!(handler.latest_sequence_index(), 6);
}

#[test]
fn receiver_has_room_for_64_frames_ahead() {
    let mut handler = ReliableOrderedHandler::default();
    assert!(!handler.is_too_early(64));
    assert!(handler.is_too_early(65));
    assert!(!handler.is_too_early(1023));
    assert_eq!(feed(&mut handler, 65), Vec::<u8>::new());
    for sequence in 1..=64u16 {
        assert_eq!(feed(&mut handler, sequence), Vec::<u8>::new());
    }
    let out = feed(&mut handler, 0);
    assert_eq!(out.len(), 65);
    assert_eq!(out, (0..=64u8).collect::<Vec<u8>>());
    assert_eq!(handler.latest_sequence_index(), 65);
    assert_eq!(feed(&mut handler, 65), vec![65]);
}

#[test]
fn receiver_wraps_at_1024() {
    let mut handler = ReliableOrderedHandler::default();
    for sequence in 0..1024u16 {
        assert_eq!(feed(&mut handler, sequence).len(), 1);
    }
    assert_eq!(handler.latest_sequence_index(), 0);
    assert_eq!(feed(&mut handler, 1), Vec::<u8>::new());
    assert_eq!(feed(&mut handler, 0), vec![0, 1]);
    assert_eq!(feed(&mut handler, 1024 + 2), vec![2]);
}

#[test]
fn sender_frames_and_window() {
    let mut sender = ReliablyOrderedSender::new();
    assert_eq!(sender.get_free_buffer_slots(), 64);
    for i in 0..70u8 {
        sender.enqueue_packet(vec![i, 0xAA], i % 2 == 1);
    }
    let wire = sender.send_messages(1000);
    assert_eq!(wire.len(), 64);
    assert_eq!(sender.get_free_buffer_slots(), 0);
    assert_eq!(wire[0], vec![67, 0, 0, 16, 0, 0, 0xAA]);
    assert_eq!(wire[1], vec![67, 3, 0, 16, 0, 1, 0xAA]);
    assert_eq!(wire[63], vec![67, 127, 0, 16, 0, 63, 0xAA]);
    assert_eq!(sender.send_messages(1100).len(), 0);
    sender.received_acknowledge(0);
    assert_eq!(sender.get_free_buffer_slots(), 1);
    let wire = sender.send_messages(1200);
    assert_eq!(wire, vec![vec![67, 128, 0, 16, 0, 64, 0xAA]]);
    assert_eq!(sender.get_free_buffer_slots(), 0);
}

#[test]
fn sender_sends_again_until_acknowledged() {
    let mut sender = ReliablyOrderedSender::new();
    sender.enqueue_packet(vec![1], false);
    sender.enqueue_packet(vec![2], false);
    sender.enqueue_packet(vec![3], false);
    assert_eq!(sender.send_messages(0).len(), 3);
    assert_eq!(sender.send_messages(400).len(), 0);
    let again = sender.send_messages(401);
    assert_eq!(again.len(), 3);
    assert_eq!(again[0], vec![67, 0, 0, 8, 0, 1]);
    assert_eq!(sender.send_messages(500).len(), 0);
    sender.received_acknowledge(1);
    let again = sender.send_messages(802);
    assert_eq!(again, vec![vec![67, 0, 0, 8, 0, 1], vec![67, 4, 0, 8, 0, 3]]);
    assert_eq!(sender.get_free_buffer_slots(), 61);
    sender.received_acknowledge(0);
    assert_eq!(sender.get_free_buffer_slots(), 63);
    let again = sender.send_messages(1300);
    assert_eq!(again, vec![vec![67, 4, 0, 8, 0, 3]]);
    sender.received_acknowledge(2);
    assert_eq!(sender.get_free_buffer_slots(), 64);
    assert_eq!(sender.send_messages(5000).len(), 0);
}

#[test]
fn sender_ignores_acknowledgements_outside_the_window() {
    let mut sender = ReliablyOrderedSender::new();
    sender.received_acknowledge(0);
    sender.received_acknowledge(5);
    sender.received_acknowledge(1000);
    assert_eq!(sender.get_free_buffer_slots(), 64);
    sender.enqueue_packet(vec![9], false);
    assert_eq!(sender.send_messages(0).len(), 1);
    sender.received_acknowledge(1000);
    sender.received_acknowledge(3);
    assert_eq!(sender.get_free_buffer_slots(), 63);
    assert_eq!(sender.send_messages(1000).len(), 1);
    sender.received_acknowledge(0);
    assert_eq!(sender.get_free_buffer_slots(), 64);
    assert_eq!(ReliablyOrderedSender::create_relative_index(3, 1020), 7);
    assert_eq!(ReliablyOrderedSender::create_relative_index(1020, 3), -7);
    assert_eq!(ReliablyOrderedSender::create_relative_index(512, 0), -512);
    assert_eq!(ReliablyOrderedSender::create_relative_index(511, 0), 511);
}

#[test]
fn sender_numbers_wrap_at_1024() {
    let mut sender = ReliablyOrderedSender::default();
    for round in 0..1030u32 {
        sender.enqueue_packet(vec![1], false);
        let wire = sender.send_messages(round as u64);
        assert_eq!(wire.len(), 1);
        let sequence = (round % 1024) as u16;
        assert_eq!(wire[0][1], ((sequence << 1) & 0xFF) as u8);
        assert_eq!(wire[0][2], (sequence >> 7) as u8);
        sender.received_acknowledge(sequence);
        assert_eq!(sender.get_free_buffer_slots(), 64);
    }
}

#[test]
fn chunk_sizes_fit_the_frame() {
    let (size, count) = figure_out_chunk_stuff(1400, 5000);
    assert_eq!(size, 1397);
    assert_eq!(count, 4);
    let (size, count) = figure_out_chunk_stuff(1400, 1398);
    assert_eq!((size, count), (1397, 2));
    let (size, count) = figure_out_chunk_stuff(1400, 1397 * 128);
    assert_eq!((size, count), (1396, 129));
    let (size, count) = figure_out_chunk_stuff(9, 100);
    assert_eq!((size, count), (7, 15));
}

#[test]
fn payload_is_cut_into_chunks() {
    let data: Vec<u8> = (0..5000u32).map(|i| (i % 253) as u8).collect();
    let frames = fragment_payload(7, &data);
    assert_eq!(frames.len(), 4);
    let mut offset = 0;
    for (index, frame) in frames.iter().enumerate() {
        assert!(frame.len() + 5 <= 1408);
        let mut iterator = CustomIterator::own(frame.clone());
        let header = ChunkHeader::read(&mut iterator).unwrap();
        assert_eq!(header.group_id, 7);
        assert_eq!(header.total_bits, 40000);
        assert_eq!(header.index as usize, index);
        assert_eq!(header.count(), 4);
        assert_eq!(header.byte_count(), 5000);
        let payload = iterator.consume();
        assert_eq!(&data[offset..offset + payload.len()], &payload[..]);
        if index < 3 {
            assert_eq!(payload.len() as u32, header.chunk_size);
        }
        offset += payload.len();
    }
    assert_eq!(offset, 5000);
}

#[test]
fn fragmented_payload_comes_together_in_any_order() {
    let data: Vec<u8> = (0..20000u32).map(|i| (i * 7 % 251) as u8).collect();
    let frames = fragment_payload(3, &data);
    assert!(frames.len() > 10);
    let mut order: Vec<usize> = (0..frames.len()).rev().collect();
    order.swap(0, 5);
    order.insert(3, 2);
    order.insert(7, 2);
    order.insert(1, frames.len() - 1);
    let mut client = ConnectedClient::new(address(1));
    let mut packets: Vec<DataPacket> = Vec::new();
    let mut time = 10;
    for (step, index) in order.iter().enumerate() {
        client.handle(&mut packets, address(1), header(0, true), frames[*index].clone(), time);
        time += 3;
        if step + 1 < order.len() {
            assert!(packets.is_empty());
        }
    }
    assert_eq!(packets.len(), 1);
    assert_eq!(packets[0].data_type, DataType::Data);
    assert_eq!(packets[0].remote_address, address(1));
    assert_eq!(packets[0].data, data);
    client.handle(&mut packets, address(1), header(0, true), frames[0].clone(), time);
    assert_eq!(packets.len(), 1);
}

#[test]
fn chunk_with_an_index_out_of_range_changes_nothing() {
    let chunk = ChunkHeader { group_id: 9, total_bits: 80, chunk_size: 4, index: 3 };
    assert_eq!(chunk.count(), 3);
    let mut frame = Vec::new();
    chunk.write(&mut frame);
    frame.extend([1, 2]);
    let mut client = ConnectedClient::new(address(1));
    let mut packets: Vec<DataPacket> = Vec::new();
    client.handle(&mut packets, address(1), header(0, true), frame, 0);
    assert!(packets.is_empty());
    let mut completed = Vec::new();
    for (index, bytes) in [(2u32, vec![9u8, 10]), (0, vec![1, 2, 3, 4]), (1, vec![5, 6, 7, 8])] {
        let chunk = ChunkHeader { group_id: 9, total_bits: 80, chunk_size: 4, index };
        let mut frame = Vec::new();
        chunk.write(&mut frame);
        frame.extend(bytes);
        client.handle(&mut completed, address(1), header(0, true), frame, 1);
    }
    assert_eq!(completed.len(), 1);
    assert_eq!(completed[0].data, vec![1, 2, 3, 4, 5, 6, 7, 8, 9, 10]);
}

#[test]
fn chunk_that_is_too_long_is_dropped() {
    let first = ChunkHeader { group_id: 1, total_bits: 48, chunk_size: 4, index: 0 };
    let last = ChunkHeader { group_id: 1, total_bits: 48, chunk_size: 4, index: 1 };
    let mut group = FragmentData::new(&first, 5);
    assert_eq!(group.accept(&first, &vec![1, 2, 3, 4, 5], 6), None);
    assert_eq!(group.accept(&last, &vec![5, 6, 7], 7), None);
    assert!(!group.is_complete());
    assert_eq!(group.accept(&last, &vec![5, 6], 8), None);
    assert_eq!(group.accept(&last, &vec![9, 9], 9), None);
    assert_eq!(group.last_accessed_time(), 9);
    let other = ChunkHeader { group_id: 1, total_bits: 56, chunk_size: 4, index: 0 };
    assert_eq!(group.accept(&other, &vec![0, 0, 0, 0], 10), None);
    assert_eq!(group.accept(&first, &vec![1, 2, 3, 4], 11), Some(vec![1, 2, 3, 4, 5, 6]));
    assert!(group.is_complete());
    assert_eq!(group.accept(&first, &vec![7, 7, 7, 7], 12), None);
}

#[test]
fn stale_fragment_groups_are_forgotten() {
    let mut client = ConnectedClient::new(address(1));
    let mut packets: Vec<DataPacket> = Vec::new();
    let send = |client: &mut ConnectedClient, packets: &mut Vec<DataPacket>, index: u32, bytes: Vec<u8>, now: u64| {
        let chunk = ChunkHeader { group_id: 4, total_bits: 64, chunk_size: 4, index };
        let mut frame = Vec::new();
        chunk.write(&mut frame);
        frame.extend(bytes);
        client.handle(packets, address(1), header(0, true), frame, now);
    };
    send(&mut client, &mut packets, 0, vec![1, 2, 3, 4], 100);
    client.cleanup(10099);
    send(&mut client, &mut packets, 1, vec![5, 6, 7, 8], 10099);
    assert_eq!(packets.len(), 1);
    assert_eq!(packets[0].data, vec![1, 2, 3, 4, 5, 6, 7, 8]);
    packets.clear();
    client.heartbeat(20098);
    send(&mut client, &mut packets, 0, vec![1, 2, 3, 4], 20098);
    assert!(packets.is_empty());
    client.cleanup(30097);
    send(&mut client, &mut packets, 0, vec![8, 8, 8, 8], 30097);
    assert!(packets.is_empty());
    client.cleanup(40097);
    send(&mut client, &mut packets, 0, vec![9, 9, 9, 9], 40097);
    client.cleanup(50096);
    send(&mut client, &mut packets, 1, vec![5, 6, 7, 8], 50096);
    assert_eq!(packets.len(), 1);
    assert_eq!(packets[0].data, vec![9, 9, 9, 9, 5, 6, 7, 8]);
    packets.clear();
    client.cleanup(60096);
    send(&mut client, &mut packets, 1, vec![5, 6, 7, 8], 60100);
    assert!(packets.is_empty());
}

#[test]
fn client_fragments_long_payloads_and_numbers_the_groups() {
    let mut client = ConnectedClient::new(address(2));
    client.send_to(vec![1, 2, 3]);
    let wire = client.send_messages(0);
    assert_eq!(wire, vec![vec![67, 0, 0, 24, 0, 1, 2, 3]]);
    client.send_to(vec![5; 1403]);
    let second = client.send_messages(1);
    assert_eq!(second.len(), 1);
    assert_eq!(second[0].len(), 1408);
    assert_eq!(second[0][1] & 1, 0);
    let data: Vec<u8> = (0..3000u32).map(|i| (i % 200) as u8).collect();
    client.send_to(data.clone());
    client.send_to(data.clone());
    let wire = client.send_messages(2);
    assert_eq!(wire.len(), 6);
    let mut receiver = ConnectedClient::new(address(3));
    let mut packets: Vec<DataPacket> = Vec::new();
    let mut groups = Vec::new();
    for frame in &wire {
        assert!(frame.len() <= 1408);
        assert_eq!(frame[1] & 1, 1);
        let mut iterator = CustomIterator::own(frame.clone());
        let frame_header = MessageHeader::from_stream(&mut iterator).unwrap();
        assert_eq!(frame_header.bytes as usize, frame.len() - 5);
        let mut peek = CustomIterator::own(frame[5..].to_vec());
        groups.push(ChunkHeader::read(&mut peek).unwrap().group_id);
        receiver.handle_new_message(&mut packets, address(3), frame_header, iterator, 50);
    }
    assert_eq!(groups, vec![1, 1, 1, 2, 2, 2]);
    assert_eq!(packets.len(), 0);
    let mut first = CustomIterator::own(vec![67, 0, 0, 8, 0, 42]);
    let first_header = MessageHeader::from_stream(&mut first).unwrap();
    receiver.handle_new_message(&mut packets, address(3), first_header, first, 51);
    assert_eq!(packets.len(), 1);
    assert_eq!(packets[0].data, vec![42]);
    let mut long = CustomIterator::own(second[0].clone());
    let long_header = MessageHeader::from_stream(&mut long).unwrap();
    assert_eq!(long_header.bytes, 1403);
    receiver.handle_new_message(&mut packets, address(3), long_header, long, 52);
    assert_eq!(packets.len(), 4);
    assert_eq!(packets[1].data, vec![5; 1403]);
    assert_eq!(packets[2].data, data);
    assert_eq!(packets[3].data, data);
    let mut third = CustomIterator::own(wire[2].clone());
    let third_header = MessageHeader::from_stream(&mut third).unwrap();
    assert!(client.is_too_early(65));
    assert!(!receiver.is_too_early(third_header.sequence_number));
}
