use rjvm::{BytesReader, DecodeError};

#[test]
fn reads_are_big_endian() {
    let bytes = [
        0x12, 0x34, 0x56, 0x78, 0x9A, 0xBC, 0xDE, 0xF0, 0x01, 0x02, 0x03, 0x04, 0x05, 0x06, 0x07,
    ];
    let mut reader = BytesReader::new(&bytes);
    assert_eq!(Ok(0x12), reader.read_u8());
    assert_eq!(Ok(0x3456), reader.read_u16());
    assert_eq!(Ok(0x789ABCDE), reader.read_u32());
    assert_eq!(Ok(0xF001020304050607), reader.read_u64());
    assert_eq!(15, reader.position());
    assert_eq!(0, reader.remaining());
}

#[test]
fn signed_reads_are_twos_complement() {
    let bytes = [
        0xFF, 0xFE, 0x7F, 0xFF, 0x80, 0x00, 0xFF, 0xFF, 0xFF, 0xFF, 0x80, 0x00, 0x00, 0x00, 0xFF,
        0xFF, 0xFF, 0xFF, 0xFF, 0xFF, 0xFF, 0xFD, 0x80, 0, 0, 0, 0, 0, 0, 0, 0x7F, 0xFF, 0xFF,
        0xFF, 0xFF, 0xFF, 0xFF, 0xFF,
    ];
    let mut reader = BytesReader::new(&bytes);
    assert_eq!(Ok(-2), reader.read_i16());
    assert_eq!(Ok(32767), reader.read_i16());
    assert_eq!(Ok(-32768), reader.read_i16());
    assert_eq!(Ok(-1), reader.read_i32());
    assert_eq!(Ok(i32::MIN), reader.read_i32());
    assert_eq!(Ok(-3), reader.read_i64());
    assert_eq!(Ok(i64::MIN), reader.read_i64());
    assert_eq!(Ok(i64::MAX), reader.read_i64());
}

#[test]
fn a_read_past_the_end_fails_and_leaves_the_reader_where_it_was() {
    let bytes = [1, 2, 3];
    let mut reader = BytesReader::new(&bytes);
    assert_eq!(Err(DecodeError::UnexpectedEof), reader.read_u32());
    assert_eq!(0, reader.position());
    assert_eq!(Err(DecodeError::UnexpectedEof), reader.read_u64());
    assert_eq!(Err(DecodeError::UnexpectedEof), reader.read_i64());
    assert_eq!(Err(DecodeError::UnexpectedEof), reader.read_i32());
    assert_eq!(Err(DecodeError::UnexpectedEof), reader.read_bytes(4));
    assert_eq!(Err(DecodeError::UnexpectedEof), reader.read_string(4));
    assert_eq!(Err(DecodeError::UnexpectedEof), reader.consume(4));
    assert_eq!(0, reader.position());
    assert_eq!(Ok(0x0102), reader.read_u16());
    assert_eq!(Err(DecodeError::UnexpectedEof), reader.read_u16());
    assert_eq!(Err(DecodeError::UnexpectedEof), reader.read_i16());
    assert_eq!(2, reader.position());
    assert_eq!(Ok(3), reader.read_u8());
    assert_eq!(Err(DecodeError::UnexpectedEof), reader.read_u8());
    assert_eq!(3, reader.position());
}

#[test]
fn empty_input_has_nothing_to_read() {
    let bytes: [u8; 0] = [];
    let mut reader = BytesReader::new(&bytes);
    assert_eq!(0, reader.remaining());
    assert_eq!(Err(DecodeError::UnexpectedEof), reader.read_u8());
    assert_eq!(Ok(Vec::new()), reader.read_bytes(0));
    assert_eq!(Ok(String::new()), reader.read_string(0));
    assert_eq!(Ok(()), reader.consume(0));
}

#[test]
fn raw_bytes_come_back_as_they_are() {
    let bytes = [9, 8, 7, 6, 5];
    let mut reader = BytesReader::new(&bytes);
    assert_eq!(Ok(9), reader.read_u8());
    assert_eq!(Ok(vec![8, 7, 6]), reader.read_bytes(3));
    assert_eq!(4, reader.position());
    assert_eq!(1, reader.remaining());
}

#[test]
fn text_is_decoded_from_utf8() {
    let bytes = "héllo, wörld €".as_bytes();
    let mut reader = BytesReader::new(bytes);
    assert_eq!(Ok("héllo".to_string()), reader.read_string(6));
    assert_eq!(Ok(", wörld €".to_string()), reader.read_string(bytes.len() - 6));
    assert_eq!(0, reader.remaining());
}

#[test]
fn text_that_is_not_utf8_is_rejected() {
    let bytes = [0x41, 0xFF, 0x42];
    let mut reader = BytesReader::new(&bytes);
    assert_eq!(Err(DecodeError::InvalidUtf8), reader.read_string(3));
    assert_eq!(3, reader.position());
    let truncated = [0xE2, 0x82];
    let mut reader = BytesReader::new(&truncated);
    assert_eq!(Err(DecodeError::InvalidUtf8), reader.read_string(2));
}

#[test]
fn consume_skips_without_reading() {
    let bytes = [1, 2, 3, 4, 5];
    let mut reader = BytesReader::new(&bytes);
    assert_eq!(Ok(()), reader.consume(3));
    assert_eq!(3, reader.position());
    assert_eq!(Ok(0x0405), reader.read_u16());
}

#[test]
fn a_block_counts_the_bytes_read_inside_it() {
    let bytes = [1, 2, 3, 4, 5, 6, 7, 8];
    let mut reader = BytesReader::new(&bytes);
    assert_eq!(Ok(1), reader.read_u8());
    reader.begin_read_block();
    assert_eq!(1, reader.open_blocks());
    assert_eq!(Ok(0x0203), reader.read_u16());
    assert_eq!(Ok(()), reader.consume(3));
    assert_eq!(Ok(()), reader.assert_read(5));
    assert_eq!(0, reader.open_blocks());
    assert_eq!(6, reader.position());
}

#[test]
fn a_block_that_read_another_number_of_bytes_is_a_mismatch() {
    let bytes = [1, 2, 3, 4, 5, 6, 7, 8];
    let mut reader = BytesReader::new(&bytes);
    reader.begin_read_block();
    assert_eq!(Ok(0x01020304), reader.read_u32());
    assert_eq!(
        Err(DecodeError::LengthMismatch { expected: 5, actual: 4 }),
        reader.assert_read(5)
    );
    assert_eq!(0, reader.open_blocks());
    reader.begin_read_block();
    assert_eq!(
        Err(DecodeError::LengthMismatch { expected: 1, actual: 0 }),
        reader.assert_read(1)
    );
}

#[test]
fn every_open_block_counts_every_read() {
    let bytes = [0u8; 16];
    let mut reader = BytesReader::new(&bytes);
    reader.begin_read_block();
    assert_eq!(Ok(0), reader.read_u16());
    reader.begin_read_block();
    assert_eq!(Ok(0), reader.read_u32());
    reader.begin_read_block();
    assert_eq!(Ok(vec![0, 0, 0]), reader.read_bytes(3));
    assert_eq!(3, reader.open_blocks());
    assert_eq!(Ok(()), reader.assert_read(3));
    assert_eq!(Ok(0), reader.read_u8());
    assert_eq!(Ok(()), reader.assert_read(8));
    assert_eq!(Ok("\0".to_string()), reader.read_string(1));
    assert_eq!(Ok(()), reader.assert_read(11));
    assert_eq!(0, reader.open_blocks());
    assert_eq!(11, reader.position());
}

#[test]
fn an_empty_block_counts_nothing() {
    let bytes = [1, 2];
    let mut reader = BytesReader::new(&bytes);
    assert_eq!(Ok(1), reader.read_u8());
    reader.begin_read_block();
    assert_eq!(Ok(()), reader.assert_read(0));
    assert_eq!(1, reader.position());
}

#[test]
fn a_failed_read_counts_nothing() {
    let bytes = [1, 2, 3];
    let mut reader = BytesReader::new(&bytes);
    reader.begin_read_block();
    assert_eq!(Ok(1), reader.read_u8());
    assert_eq!(Err(DecodeError::UnexpectedEof), reader.read_u32());
    assert_eq!(Ok(()), reader.assert_read(1));
}

#[test]
fn floating_point_values_are_read_as_bit_patterns() {
    let bytes = [0x3F, 0xC0, 0, 0, 0xC0, 0x04, 0, 0, 0, 0, 0, 0, 0x7F];
    let mut reader = BytesReader::new(&bytes);
    let single = reader.read_f32().unwrap();
    assert_eq!(0x3FC0_0000, single);
    assert_eq!(1.5f32, f32::from_bits(single));
    let double = reader.read_f64().unwrap();
    assert_eq!(0xC004_0000_0000_0000, double);
    assert_eq!(-2.5f64, f64::from_bits(double));
    assert_eq!(12, reader.position());
    assert_eq!(Err(DecodeError::UnexpectedEof), reader.read_f32());
    assert_eq!(Err(DecodeError::UnexpectedEof), reader.read_f64());
    assert_eq!(12, reader.position());
}
