use rust_potato_server::network::message_pack::writer;
use rust_potato_server::network::packets::compression::{accept_block, try_decompress};
use rust_potato_server::network::packets::packet_ids::PacketIDs;
use rust_potato_server::util::custom_iterator::CustomIterator;
use rust_potato_server::util::error_handling::{DecompressError, ReadError};

fn ext_8(tag: u8, data: &[u8]) -> Vec<u8> {
    let mut bytes = vec![0xC7, data.len() as u8, tag];
    bytes.extend_from_slice(data);
    bytes
}

fn compressed(chunks: &[Vec<u8>], declared: &[u64]) -> Vec<u8> {
    let mut bytes = Vec::new();
    writer::write_array_auto(&mut bytes, chunks.len() as u32 + 1);
    let mut sizes = Vec::new();
    for size in declared {
        sizes.extend_from_slice(&size.to_be_bytes());
    }
    bytes.extend(ext_8(98, &sizes));
    for chunk in chunks {
        let block = lz4::block::compress(chunk, None, false).unwrap();
        writer::write_binary(&mut bytes, &block);
    }
    bytes
}

#[test]
fn compressed_payload_is_unpacked() {
    let first: Vec<u8> = (0..3000u32).map(|i| (i / 100) as u8).collect();
    let second: Vec<u8> = b"hello hello hello hello hello world".to_vec();
    let mut bytes = vec![0x05];
    bytes.extend(compressed(&[first.clone(), second.clone()], &[3000, second.len() as u64]));
    let mut iterator = CustomIterator::own(bytes);
    iterator.skip();
    let unpacked = try_decompress(&mut iterator).unwrap().unwrap();
    let mut expected = first;
    expected.extend(second);
    assert_eq!(unpacked, expected);
    assert_eq!(iterator.pointer_save(), 1);
}

#[test]
fn payload_of_another_shape_is_left_alone() {
    for bytes in [
        vec![0xC3],
        vec![0x91, 0xC7, 0, 98],
        vec![0x92, 0xC3, 0xC3],
        vec![0x92, 0xC7, 8, 97, 0, 0, 0, 0, 0, 0, 0, 4, 0xC4, 0],
        vec![0x90],
    ] {
        let mut iterator = CustomIterator::own(bytes);
        assert_eq!(try_decompress(&mut iterator), Ok(None));
        assert_eq!(iterator.pointer_save(), 0);
    }
    assert_eq!(
        try_decompress(&mut CustomIterator::own(vec![])),
        Err(DecompressError::Read(ReadError::EndOfData))
    );
}

#[test]
fn compressed_payload_that_is_malformed_is_an_error() {
    let chunk = b"abcabcabcabcabcabcabcabc".to_vec();
    let bytes = compressed(&[chunk.clone()], &[chunk.len() as u64 + 1]);
    assert_eq!(try_decompress(&mut CustomIterator::own(bytes)), Err(DecompressError::Malformed));
    let bytes = compressed(&[chunk.clone()], &[chunk.len() as u64 - 1]);
    assert_eq!(try_decompress(&mut CustomIterator::own(bytes)), Err(DecompressError::Malformed));
    let bytes = compressed(&[chunk.clone()], &[0x1_0000_0000]);
    assert_eq!(
        try_decompress(&mut CustomIterator::own(bytes)),
        Err(DecompressError::ChunkTooLarge)
    );
    let bytes = compressed(&[chunk.clone()], &[chunk.len() as u64, 3]);
    assert_eq!(
        try_decompress(&mut CustomIterator::own(bytes)),
        Err(DecompressError::TrailingSizes)
    );
    let mut bytes = vec![0x92];
    bytes.extend(ext_8(98, &[0, 0, 0, 0]));
    assert_eq!(
        try_decompress(&mut CustomIterator::own(bytes)),
        Err(DecompressError::Read(ReadError::EndOfData))
    );
    let mut bytes = vec![0x92];
    bytes.extend(ext_8(98, &[0, 0, 0, 0, 0, 0, 0, 5]));
    bytes.extend([0xC4, 3, 0xFF, 0xFF, 0xFF]);
    assert_eq!(try_decompress(&mut CustomIterator::own(bytes)), Err(DecompressError::Malformed));
    let mut bytes = vec![0x92];
    bytes.extend(ext_8(98, &[0, 0, 0, 0, 0, 0, 0, 5]));
    bytes.push(0xC3);
    assert_eq!(
        try_decompress(&mut CustomIterator::own(bytes)),
        Err(DecompressError::Read(ReadError::UnexpectedType(0xC3)))
    );
}

#[test]
fn unpacked_block_must_have_the_declared_size() {
    assert_eq!(accept_block(Some(vec![1, 2, 3]), 3), Ok(vec![1, 2, 3]));
    assert_eq!(accept_block(Some(vec![1, 2, 3]), 4), Err(DecompressError::Malformed));
    assert_eq!(accept_block(Some(vec![]), 0), Ok(vec![]));
    assert_eq!(accept_block(None, 0), Err(DecompressError::Malformed));
}

#[test]
fn packet_ids_and_numbers_correspond() {
    let mut known = 0;
    for number in 0..300u32 {
        match PacketIDs::from_u32(number) {
            Some(packet) => {
                assert_eq!(packet.id(), number);
                known += 1;
            }
            None => assert!(number < 2 || number > 32),
        }
    }
    assert_eq!(known, 31);
    assert_eq!(PacketIDs::ConnectionEstablished.id(), 17);
    assert_eq!(PacketIDs::PlayerPosition.id(), 8);
    assert_eq!(PacketIDs::ExtraDataRequest.id(), 5);
    assert_eq!(PacketIDs::ExtraDataChange.id(), 4);
    assert_eq!(PacketIDs::ExtraDataUpdate.id(), 23);
    assert_eq!(PacketIDs::DiscoveryRequest.id(), 10);
    assert_eq!(PacketIDs::WorldInitialization.id(), 18);
    assert_eq!(PacketIDs::from_u32(16), Some(PacketIDs::ConnectionApproval));
}
