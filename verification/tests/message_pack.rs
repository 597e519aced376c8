use rust_potato_server::network::message_pack::reader;
use rust_potato_server::network::message_pack::writer;
use rust_potato_server::util::custom_iterator::CustomIterator;
use rust_potato_server::util::error_handling::ReadError;

fn cursor(bytes: &[u8]) -> CustomIterator {
    CustomIterator::borrow(bytes)
}

fn written_u64(value: u64) -> Vec<u8> {
    let mut buffer = Vec::new();
    writer::write_u64_auto(&mut buffer, value);
    buffer
}

fn written_i64(value: i64) -> Vec<u8> {
    let mut buffer = Vec::new();
    writer::write_i64(&mut buffer, value);
    buffer
}

#[test]
fn int_auto_picks_the_smallest_encoding() {
    let cases: Vec<(u32, Vec<u8>)> = vec![
        (0, vec![0x00]),
        (0x7F, vec![0x7F]),
        (0x80, vec![0xCC, 0x80]),
        (0xFF, vec![0xCC, 0xFF]),
        (0x100, vec![0xCD, 0x01, 0x00]),
        (0xFFFF, vec![0xCD, 0xFF, 0xFF]),
        (0x10000, vec![0xCE, 0x00, 0x01, 0x00, 0x00]),
        (0xFFFF_FFFF, vec![0xCE, 0xFF, 0xFF, 0xFF, 0xFF]),
    ];
    for (value, expected) in cases {
        let mut buffer = Vec::new();
        writer::write_int_auto(&mut buffer, value);
        assert_eq!(buffer, expected);
    }
}

#[test]
fn signed_writer_picks_the_smallest_encoding() {
    let cases: Vec<(i32, Vec<u8>)> = vec![
        (0, vec![0x00]),
        (5, vec![0x05]),
        (200, vec![0xCC, 200]),
        (-1, vec![0xFF]),
        (-32, vec![0xE0]),
        (-33, vec![0xD0, 0xDF]),
        (-128, vec![0xD0, 0x80]),
        (-129, vec![0xD1, 0xFF, 0x7F]),
        (-32768, vec![0xD1, 0x80, 0x00]),
        (-32769, vec![0xD2, 0xFF, 0xFF, 0x7F, 0xFF]),
        (i32::MIN, vec![0xD2, 0x80, 0x00, 0x00, 0x00]),
    ];
    for (value, expected) in cases {
        let mut buffer = Vec::new();
        writer::write_i32(&mut buffer, value);
        assert_eq!(buffer, expected);
    }
}

#[test]
fn wide_writers_reach_64_bits() {
    assert_eq!(
        written_u64(u64::MAX),
        vec![0xCF, 0xFF, 0xFF, 0xFF, 0xFF, 0xFF, 0xFF, 0xFF, 0xFF]
    );
    assert_eq!(written_u64(0x1_0000_0000), vec![0xCF, 0, 0, 0, 1, 0, 0, 0, 0]);
    assert_eq!(written_i64(i64::MIN), vec![0xD3, 0x80, 0, 0, 0, 0, 0, 0, 0]);
    assert_eq!(
        written_i64(-0x8000_0001),
        vec![0xD3, 0xFF, 0xFF, 0xFF, 0xFF, 0x7F, 0xFF, 0xFF, 0xFF]
    );
    assert_eq!(written_i64(-5), vec![0xFB]);
    assert_eq!(written_i64(300), vec![0xCD, 0x01, 0x2C]);
}

#[test]
fn unsigned_integers_round_trip_at_every_width() {
    let values: Vec<u64> = vec![
        0,
        1,
        0x7F,
        0x80,
        0xFF,
        0x100,
        0x7FFF,
        0x8000,
        0xFFFF,
        0x1_0000,
        0x7FFF_FFFF,
        0x8000_0000,
        0xFFFF_FFFF,
        0x1_0000_0000,
        0x7FFF_FFFF_FFFF_FFFF,
        0x8000_0000_0000_0000,
        u64::MAX,
    ];
    for value in values {
        let bytes = written_u64(value);
        assert_eq!(reader::read_u64(&mut cursor(&bytes)), Ok(value));
        if value <= u32::MAX as u64 {
            assert_eq!(reader::read_u32(&mut cursor(&bytes)), Ok(value as u32));
        } else {
            assert!(reader::read_u32(&mut cursor(&bytes)).is_err());
        }
        if value <= u16::MAX as u64 {
            assert_eq!(reader::read_u16(&mut cursor(&bytes)), Ok(value as u16));
        } else {
            assert!(reader::read_u16(&mut cursor(&bytes)).is_err());
        }
        if value <= u8::MAX as u64 {
            assert_eq!(reader::read_u8(&mut cursor(&bytes)), Ok(value as u8));
        } else {
            assert!(reader::read_u8(&mut cursor(&bytes)).is_err());
        }
        if value <= i64::MAX as u64 {
            assert_eq!(reader::read_i64(&mut cursor(&bytes)), Ok(value as i64));
        } else {
            assert_eq!(reader::read_i64(&mut cursor(&bytes)), Err(ReadError::OutOfRange));
        }
        if value <= i32::MAX as u64 {
            assert_eq!(reader::read_i32(&mut cursor(&bytes)), Ok(value as i32));
        }
        if value <= i16::MAX as u64 {
            assert_eq!(reader::read_i16(&mut cursor(&bytes)), Ok(value as i16));
        }
        if value <= i8::MAX as u64 {
            assert_eq!(reader::read_i8(&mut cursor(&bytes)), Ok(value as i8));
        }
    }
}

#[test]
fn signed_integers_round_trip_at_every_width() {
    let values: Vec<i64> = vec![
        -1,
        -32,
        -33,
        -128,
        -129,
        -32768,
        -32769,
        i32::MIN as i64,
        i32::MIN as i64 - 1,
        i64::MIN,
    ];
    for value in values {
        let bytes = written_i64(value);
        assert_eq!(reader::read_i64(&mut cursor(&bytes)), Ok(value));
        if value >= i32::MIN as i64 {
            assert_eq!(reader::read_i32(&mut cursor(&bytes)), Ok(value as i32));
        } else {
            assert!(reader::read_i32(&mut cursor(&bytes)).is_err());
        }
        if value >= i16::MIN as i64 {
            assert_eq!(reader::read_i16(&mut cursor(&bytes)), Ok(value as i16));
        } else {
            assert!(reader::read_i16(&mut cursor(&bytes)).is_err());
        }
        if value >= i8::MIN as i64 {
            assert_eq!(reader::read_i8(&mut cursor(&bytes)), Ok(value as i8));
        } else {
            assert!(reader::read_i8(&mut cursor(&bytes)).is_err());
        }
        assert!(reader::read_u64(&mut cursor(&bytes)).is_err());
    }
}

#[test]
fn widening_readers_promote_narrower_forms() {
    assert_eq!(reader::read_i32(&mut cursor(&[0xCD, 0x9C, 0x40])), Ok(40000));
    assert_eq!(reader::read_i16(&mut cursor(&[0xD0, 0xFF])), Ok(-1));
    assert_eq!(reader::read_i16(&mut cursor(&[0xE0])), Ok(-32));
    assert_eq!(reader::read_i64(&mut cursor(&[0xD1, 0xFF, 0x7F])), Ok(-129));
    assert_eq!(reader::read_i64(&mut cursor(&[0xCE, 0xFF, 0xFF, 0xFF, 0xFF])), Ok(0xFFFF_FFFF));
    assert_eq!(reader::read_u64(&mut cursor(&[0xCC, 0xC8])), Ok(200));
}

#[test]
fn signed_readers_reject_unsigned_values_with_the_high_bit() {
    assert_eq!(reader::read_i8(&mut cursor(&[0xCC, 0x80])), Err(ReadError::OutOfRange));
    assert_eq!(reader::read_i16(&mut cursor(&[0xCD, 0x80, 0x00])), Err(ReadError::OutOfRange));
    assert_eq!(
        reader::read_i32(&mut cursor(&[0xCE, 0x80, 0, 0, 0])),
        Err(ReadError::OutOfRange)
    );
    assert_eq!(reader::read_i16(&mut cursor(&[0xCD, 0x7F, 0xFF])), Ok(0x7FFF));
    assert_eq!(reader::read_i16(&mut cursor(&[0xCC, 0xFF])), Ok(255));
}

#[test]
fn readers_report_the_type_byte_that_does_not_fit() {
    assert_eq!(reader::read_u8(&mut cursor(&[0xCD, 0, 1])), Err(ReadError::UnexpectedType(0xCD)));
    assert_eq!(reader::read_u32(&mut cursor(&[0xD0, 1])), Err(ReadError::UnexpectedType(0xD0)));
    assert_eq!(reader::read_bool(&mut cursor(&[0xC0])), Err(ReadError::UnexpectedType(0xC0)));
    assert_eq!(reader::read_string(&mut cursor(&[0x01])).err(), Some(ReadError::UnexpectedType(1)));
    assert_eq!(reader::read_u32(&mut cursor(&[])), Err(ReadError::EndOfData));
    assert_eq!(reader::read_u32(&mut cursor(&[0xCE, 1, 2])), Err(ReadError::EndOfData));
}

#[test]
fn strict_readers_ask_for_their_type_byte() {
    assert_eq!(reader::read_int_8(&mut cursor(&[0xCC, 7])), Ok(7));
    assert_eq!(reader::read_int_8(&mut cursor(&[0x07])), Err(ReadError::UnexpectedType(7)));
    assert_eq!(reader::read_int_16(&mut cursor(&[0xCD, 1, 2])), Ok(0x0102));
    assert_eq!(reader::read_int_32(&mut cursor(&[0xCE, 1, 2, 3, 4])), Ok(0x01020304));
    assert_eq!(
        reader::read_int_64(&mut cursor(&[0xCF, 1, 2, 3, 4, 5, 6, 7, 8])),
        Ok(0x0102030405060708)
    );
    assert_eq!(reader::read_s_int_8(&mut cursor(&[0xD0, 0x80])), Ok(-128));
    assert_eq!(reader::read_s_int_16(&mut cursor(&[0xD1, 0xFF, 0xFE])), Ok(-2));
    assert_eq!(reader::read_s_int_32(&mut cursor(&[0xD2, 0xFF, 0xFF, 0xFF, 0xFD])), Ok(-3));
    assert_eq!(
        reader::read_s_int_64(&mut cursor(&[0xD3, 0xFF, 0xFF, 0xFF, 0xFF, 0xFF, 0xFF, 0xFF, 0xFC])),
        Ok(-4)
    );
    assert_eq!(reader::read_pos_int_fix(&mut cursor(&[0x7F])), Ok(0x7F));
    assert_eq!(reader::read_pos_int_fix(&mut cursor(&[0x80])), Err(ReadError::UnexpectedType(0x80)));
    assert_eq!(reader::read_neg_int_fix(&mut cursor(&[0xFF])), Ok(-1));
    assert_eq!(reader::read_neg_int_fix(&mut cursor(&[0xE0])), Ok(-32));
    assert_eq!(reader::read_neg_int_fix(&mut cursor(&[0xDF])), Err(ReadError::UnexpectedType(0xDF)));
    assert_eq!(reader::read_map_fix(&mut cursor(&[0x8F])), Ok(15));
    assert_eq!(reader::read_map_16(&mut cursor(&[0xDE, 0, 16])), Ok(16));
    assert_eq!(reader::read_map_32(&mut cursor(&[0xDF, 0, 1, 0, 0])), Ok(0x10000));
    assert_eq!(reader::read_array_fix(&mut cursor(&[0x93])), Ok(3));
    assert_eq!(reader::read_array_fix(&mut cursor(&[0xA0])), Err(ReadError::UnexpectedType(0xA0)));
    assert_eq!(reader::read_array_16(&mut cursor(&[0xDC, 1, 0])), Ok(256));
    assert_eq!(reader::read_array_32(&mut cursor(&[0xDD, 0, 0, 0, 9])), Ok(9));
    assert_eq!(reader::read_string_fix(&mut cursor(&[0xA2, b'h', b'i'])), Ok("hi".to_string()));
    assert_eq!(reader::read_string_8(&mut cursor(&[0xD9, 1, b'x'])), Ok("x".to_string()));
    assert_eq!(reader::read_string_16(&mut cursor(&[0xDA, 0, 1, b'y'])), Ok("y".to_string()));
    assert_eq!(reader::read_string_32(&mut cursor(&[0xDB, 0, 0, 0, 1, b'z'])), Ok("z".to_string()));
    assert_eq!(reader::read_binary_8(&mut cursor(&[0xC4, 2, 9, 8])), Ok(vec![9, 8]));
    assert_eq!(reader::read_binary_16(&mut cursor(&[0xC5, 0, 1, 7])), Ok(vec![7]));
    assert_eq!(reader::read_binary_32(&mut cursor(&[0xC6, 0, 0, 0, 1, 6])), Ok(vec![6]));
}

#[test]
fn floats_travel_as_their_bit_patterns() {
    let mut buffer = Vec::new();
    writer::write_float_auto(&mut buffer, 1.5f32.to_bits());
    assert_eq!(buffer, vec![0xCA, 0x3F, 0xC0, 0x00, 0x00]);
    assert_eq!(reader::read_float_32(&mut cursor(&buffer)), Ok(1.5f32.to_bits()));
    assert_eq!(reader::read_f32(&mut cursor(&buffer)), Ok(1.5f32.to_bits()));
    let mut buffer = Vec::new();
    writer::write_float_64(&mut buffer, (-2.25f64).to_bits());
    assert_eq!(buffer[0], 0xCB);
    assert_eq!(buffer.len(), 9);
    assert_eq!(reader::read_float_64(&mut cursor(&buffer)), Ok((-2.25f64).to_bits()));
    assert_eq!(reader::read_f64(&mut cursor(&buffer)), Ok((-2.25f64).to_bits()));
    assert_eq!(reader::read_f64(&mut cursor(&[0xCA, 0, 0, 0, 0])), Err(ReadError::UnexpectedType(0xCA)));
}

#[test]
fn strings_round_trip_byte_for_byte() {
    let long = "x".repeat(300);
    let longer = "é".repeat(0x8000);
    let longest = "世界".repeat(70000);
    let texts = vec!["", "abc", "Grüße, 世界 🚀", &long, &longer, &longest];
    for text in texts {
        let mut buffer = Vec::new();
        writer::write_string_auto(&mut buffer, Some(text));
        let mut iterator = cursor(&buffer);
        let read = reader::read_string(&mut iterator).unwrap();
        assert_eq!(read.as_bytes(), text.as_bytes());
        assert!(!iterator.has_more());
    }
}

#[test]
fn string_writer_picks_the_smallest_encoding() {
    let mut buffer = Vec::new();
    writer::write_string_auto(&mut buffer, Some(&"a".repeat(31)));
    assert_eq!(buffer[0], 0xA0 + 31);
    assert_eq!(buffer.len(), 32);
    let mut buffer = Vec::new();
    writer::write_string_auto(&mut buffer, Some(&"a".repeat(32)));
    assert_eq!(&buffer[..2], &[0xD9, 32]);
    let mut buffer = Vec::new();
    writer::write_string_auto(&mut buffer, Some(&"a".repeat(255)));
    assert_eq!(&buffer[..2], &[0xD9, 255]);
    let mut buffer = Vec::new();
    writer::write_string_auto(&mut buffer, Some(&"a".repeat(256)));
    assert_eq!(&buffer[..3], &[0xDA, 1, 0]);
    assert_eq!(buffer.len(), 259);
    let mut buffer = Vec::new();
    writer::write_string_auto(&mut buffer, Some(&"a".repeat(0xFFFF)));
    assert_eq!(&buffer[..3], &[0xDA, 0xFF, 0xFF]);
    assert_eq!(buffer.len(), 0xFFFF + 3);
    let mut buffer = Vec::new();
    writer::write_string_auto(&mut buffer, Some(&"a".repeat(0x10000)));
    assert_eq!(&buffer[..5], &[0xDB, 0, 1, 0, 0]);
    assert_eq!(buffer.len(), 0x10000 + 5);
    assert_eq!(reader::read_string_32(&mut cursor(&buffer)).unwrap(), "a".repeat(0x10000));
    let mut buffer = Vec::new();
    writer::write_string_auto(&mut buffer, None);
    assert_eq!(buffer, vec![0xC0]);
    let mut buffer = Vec::new();
    writer::write_string_flex(&mut buffer, "hey");
    assert_eq!(buffer, vec![0xA3, b'h', b'e', b'y']);
    let mut buffer = Vec::new();
    writer::write_string_8(&mut buffer, "hey");
    assert_eq!(buffer, vec![0xD9, 3, b'h', b'e', b'y']);
    let mut buffer = Vec::new();
    writer::write_string_16(&mut buffer, "hey");
    assert_eq!(buffer, vec![0xDA, 0, 3, b'h', b'e', b'y']);
    let mut buffer = Vec::new();
    writer::write_string_32(&mut buffer, "hey");
    assert_eq!(buffer, vec![0xDB, 0, 0, 0, 3, b'h', b'e', b'y']);
}

#[test]
fn bytes_that_are_not_utf8_are_no_string() {
    assert_eq!(
        reader::read_string(&mut cursor(&[0xA2, 0xC3, 0x28])),
        Err(ReadError::InvalidUtf8)
    );
    assert_eq!(reader::read_string(&mut cursor(&[0xA2, 0xC3, 0xA9])), Ok("é".to_string()));
    assert_eq!(reader::read_string(&mut cursor(&[0xA3, b'a'])), Err(ReadError::EndOfData));
}

#[test]
fn headers_and_simple_values() {
    let mut buffer = Vec::new();
    writer::write_null(&mut buffer);
    writer::write_bool(&mut buffer, true);
    writer::write_bool_auto(&mut buffer, false);
    writer::write_map_auto(&mut buffer, 2);
    writer::write_map_auto(&mut buffer, 16);
    writer::write_map_auto(&mut buffer, 0x10000);
    writer::write_array_auto(&mut buffer, 15);
    writer::write_array_auto(&mut buffer, 0xFFFF);
    writer::write_array_auto(&mut buffer, 0x10000);
    writer::write_map_flex(&mut buffer, 3);
    writer::write_array_flex(&mut buffer, 4);
    assert_eq!(
        buffer,
        vec![
            0xC0, 0xC3, 0xC2, 0x82, 0xDE, 0, 16, 0xDF, 0, 1, 0, 0, 0x9F, 0xDC, 0xFF, 0xFF, 0xDD,
            0, 1, 0, 0, 0x83, 0x94
        ]
    );
    let mut iterator = cursor(&buffer);
    assert_eq!(reader::check_null(&mut iterator), Ok(true));
    assert_eq!(reader::check_null(&mut iterator), Ok(false));
    assert_eq!(reader::read_bool(&mut iterator), Ok(true));
    assert_eq!(reader::read_bool(&mut iterator), Ok(false));
    assert_eq!(reader::read_map(&mut iterator), Ok(2));
    assert_eq!(reader::read_map(&mut iterator), Ok(16));
    assert_eq!(reader::read_map(&mut iterator), Ok(0x10000));
    assert_eq!(reader::read_array(&mut iterator), Ok(15));
    assert_eq!(reader::read_array(&mut iterator), Ok(0xFFFF));
    assert_eq!(reader::read_array(&mut iterator), Ok(0x10000));
    assert_eq!(reader::read_map(&mut iterator), Ok(3));
    assert_eq!(reader::read_array(&mut iterator), Ok(4));
    assert_eq!(reader::check_null(&mut iterator), Err(ReadError::EndOfData));
}

#[test]
fn binary_round_trips_in_every_form() {
    for length in [0usize, 1, 255, 256, 65535, 65536] {
        let data: Vec<u8> = (0..length).map(|i| (i % 251) as u8).collect();
        let mut buffer = Vec::new();
        writer::write_binary(&mut buffer, &data);
        let expected_header = if length <= 255 { 2 } else if length <= 65535 { 3 } else { 5 };
        assert_eq!(buffer.len(), length + expected_header);
        assert_eq!(reader::read_bytes(&mut cursor(&buffer)), Ok(data));
    }
}

#[test]
fn try_array_does_not_move_when_there_is_no_array() {
    let bytes = [0xC3, 0x01];
    let mut iterator = cursor(&bytes);
    assert_eq!(reader::try_array(&mut iterator), Ok(None));
    assert_eq!(iterator.pointer_save(), 0);
    assert_eq!(iterator.remaining(), 2);
    let bytes = [0x92, 0x01, 0x02];
    let mut iterator = cursor(&bytes);
    assert_eq!(reader::try_array(&mut iterator), Ok(Some(2)));
    assert_eq!(iterator.pointer_save(), 1);
    let bytes = [0xDC, 0x01, 0x02];
    assert_eq!(reader::try_array(&mut cursor(&bytes)), Ok(Some(258)));
    assert_eq!(reader::try_array(&mut cursor(&[0xDD, 0, 0, 1, 0])), Ok(Some(256)));
    assert_eq!(reader::try_array(&mut cursor(&[])), Err(ReadError::EndOfData));
}

#[test]
fn try_ext_does_not_move_when_there_is_no_ext() {
    let bytes = [0x92, 0x01, 0x02];
    let mut iterator = cursor(&bytes);
    assert_eq!(reader::try_ext(&mut iterator), Ok(None));
    assert_eq!(iterator.pointer_save(), 0);
    let bytes = [0xC7, 2, 98, 10, 11, 0xFF];
    let mut iterator = cursor(&bytes);
    assert_eq!(reader::try_ext(&mut iterator), Ok(Some((98, vec![10, 11]))));
    assert_eq!(iterator.pointer_save(), 5);
}

#[test]
fn ext_values_of_every_form() {
    assert_eq!(reader::read_ext(&mut cursor(&[0xD4, 5, 1])), Ok((5, vec![1])));
    assert_eq!(reader::read_ext(&mut cursor(&[0xD5, 5, 1, 2])), Ok((5, vec![1, 2])));
    assert_eq!(reader::read_ext(&mut cursor(&[0xD6, 5, 1, 2, 3, 4])), Ok((5, vec![1, 2, 3, 4])));
    assert_eq!(
        reader::read_ext(&mut cursor(&[0xD7, 5, 1, 2, 3, 4, 5, 6, 7, 8])),
        Ok((5, vec![1, 2, 3, 4, 5, 6, 7, 8]))
    );
    let mut sixteen = vec![0xD8, 9];
    sixteen.extend(0..16u8);
    assert_eq!(reader::read_ext(&mut cursor(&sixteen)), Ok((9, (0..16u8).collect())));
    assert_eq!(reader::read_ext(&mut cursor(&[0xC7, 1, 7, 42])), Ok((7, vec![42])));
    assert_eq!(reader::read_ext(&mut cursor(&[0xC8, 0, 1, 7, 42])), Ok((7, vec![42])));
    assert_eq!(reader::read_ext(&mut cursor(&[0xC9, 0, 0, 0, 1, 7, 42])), Ok((7, vec![42])));
    assert_eq!(reader::read_ext(&mut cursor(&[0xC4, 0])), Err(ReadError::UnexpectedType(0xC4)));
    assert_eq!(reader::read_ext(&mut cursor(&[0xD5, 5, 1])), Err(ReadError::EndOfData));
}

#[test]
fn cursor_reads_and_positions() {
    let bytes = [1u8, 2, 3, 4, 5, 6, 7, 8, 9, 10];
    let mut iterator = CustomIterator::own(bytes.to_vec());
    assert_eq!(iterator.remaining(), 10);
    assert_eq!(iterator.peek(), Ok(1));
    assert_eq!(iterator.peek_unchecked(), 1);
    assert_eq!(iterator.next(), Ok(1));
    assert_eq!(iterator.next_unchecked(), 2);
    let saved = iterator.pointer_save();
    assert_eq!(saved, 2);
    assert_eq!(iterator.read_bytes(3), Ok(vec![3, 4, 5]));
    assert_eq!(iterator.read_bytes(6), Err(ReadError::EndOfData));
    assert_eq!(iterator.pointer_save(), 5);
    let mut sub = iterator.sub_section(2).unwrap();
    assert_eq!(sub.consume(), vec![6, 7]);
    assert!(iterator.sub_section(9).is_err());
    iterator.skip();
    assert_eq!(iterator.read_slice_unchecked(1), vec![9]);
    assert!(iterator.has_more());
    assert_eq!(iterator.consume(), vec![10]);
    assert!(!iterator.has_more());
    assert_eq!(iterator.next(), Err(ReadError::EndOfData));
    assert_eq!(iterator.peek(), Err(ReadError::EndOfData));
    assert_eq!(iterator.read_bytes(0), Ok(vec![]));
    iterator.pointer_restore(saved);
    assert_eq!(iterator.next(), Ok(3));
    iterator.pointer_restore(50);
    assert_eq!(iterator.remaining(), 0);
    assert_eq!(iterator.consume(), Vec::<u8>::new());
}

#[test]
fn cursor_reads_integers_in_both_byte_orders() {
    let bytes = [0x01u8, 0x02, 0x03, 0x04, 0x05, 0x06, 0x07, 0x88];
    assert_eq!(cursor(&bytes).read_be_u16(), Ok(0x0102));
    assert_eq!(cursor(&bytes).read_le_u16(), Ok(0x0201));
    assert_eq!(cursor(&bytes).read_be_u32(), Ok(0x01020304));
    assert_eq!(cursor(&bytes).read_le_u32(), Ok(0x04030201));
    assert_eq!(cursor(&bytes).read_be_u64(), Ok(0x0102030405060788));
    assert_eq!(cursor(&bytes).read_le_u64(), Ok(0x8807060504030201));
    assert_eq!(cursor(&bytes).read_le_i64(), Ok(0x8807060504030201u64 as i64));
    assert_eq!(cursor(&bytes).read_be_i64(), Ok(0x0102030405060788));
    assert_eq!(cursor(&[0xFF, 0xFE]).read_be_i16(), Ok(-2));
    assert_eq!(cursor(&[0xFE, 0xFF]).read_le_i16(), Ok(-2));
    assert_eq!(cursor(&[0xFF, 0xFF, 0xFF, 0xFD]).read_be_i32(), Ok(-3));
    assert_eq!(cursor(&[0xFD, 0xFF, 0xFF, 0xFF]).read_le_i32(), Ok(-3));
    assert_eq!(cursor(&[0x80, 0x00]).read_be_i16(), Ok(i16::MIN));
    assert_eq!(cursor(&[1]).read_be_u16(), Err(ReadError::EndOfData));
    assert_eq!(cursor(&[1, 2, 3]).read_le_u32(), Err(ReadError::EndOfData));
    assert_eq!(cursor(&[1, 2, 3, 4, 5, 6, 7]).read_be_u64(), Err(ReadError::EndOfData));
}
