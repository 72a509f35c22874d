use deku::ctx::Endian;
use deku::reader::Reader;
use deku::writer::Writer;
use deku::{DekuReader, DekuWriter};
use rust_tdf::bytes::{
    has_room, read_i32, read_u32, skip_padding, write_i32, write_padding, write_u32,
};
use rust_tdf::error::TdfError;
use std::io::Cursor;

fn deku_u32(bytes: &[u8]) -> Option<u32> {
    let mut cursor = Cursor::new(bytes);
    let mut reader = Reader::new(&mut cursor);
    u32::from_reader_with_ctx(&mut reader, Endian::Big).ok()
}

fn deku_i32(bytes: &[u8]) -> Option<i32> {
    let mut cursor = Cursor::new(bytes);
    let mut reader = Reader::new(&mut cursor);
    i32::from_reader_with_ctx(&mut reader, Endian::Big).ok()
}

fn deku_bytes_of_u32(v: u32) -> Vec<u8> {
    let mut out = Cursor::new(Vec::new());
    let mut writer = Writer::new(&mut out);
    v.to_writer(&mut writer, Endian::Big).unwrap();
    writer.finalize().unwrap();
    out.into_inner()
}

fn deku_bytes_of_i32(v: i32) -> Vec<u8> {
    let mut out = Cursor::new(Vec::new());
    let mut writer = Writer::new(&mut out);
    v.to_writer(&mut writer, Endian::Big).unwrap();
    writer.finalize().unwrap();
    out.into_inner()
}

#[test]
fn read_u32_takes_the_most_significant_byte_first() {
    assert_eq!(read_u32(&[0x01, 0x02, 0x03, 0x04], 0), Ok(0x0102_0304));
    assert_eq!(read_u32(&[0x00, 0x00, 0x00, 0x01], 0), Ok(1));
    assert_eq!(read_u32(&[0xff, 0xff, 0xff, 0xff], 0), Ok(u32::MAX));
    assert_eq!(read_u32(&[0x80, 0x00, 0x00, 0x00], 0), Ok(0x8000_0000));
}

#[test]
fn read_u32_starts_where_it_is_told() {
    let input = [0xaa, 0xbb, 0x00, 0x00, 0x01, 0x02, 0xcc];
    assert_eq!(read_u32(&input, 2), Ok(0x0000_0102));
    assert_eq!(read_u32(&input, 3), Ok(0x0001_02cc));
}

#[test]
fn read_u32_needs_four_bytes() {
    assert_eq!(read_u32(&[], 0), Err(TdfError::TruncatedInput { offset: 0 }));
    assert_eq!(read_u32(&[1, 2, 3], 0), Err(TdfError::TruncatedInput { offset: 0 }));
    assert_eq!(read_u32(&[1, 2, 3, 4], 1), Err(TdfError::TruncatedInput { offset: 1 }));
    assert_eq!(read_u32(&[1, 2, 3, 4], 4), Err(TdfError::TruncatedInput { offset: 4 }));
    assert_eq!(read_u32(&[1, 2, 3, 4], 9), Err(TdfError::TruncatedInput { offset: 9 }));
}

#[test]
fn read_u32_far_past_the_end_does_not_overflow() {
    assert_eq!(
        read_u32(&[1, 2, 3, 4], usize::MAX),
        Err(TdfError::TruncatedInput { offset: usize::MAX })
    );
    assert_eq!(
        read_u32(&[1, 2, 3, 4], usize::MAX - 3),
        Err(TdfError::TruncatedInput { offset: usize::MAX - 3 })
    );
}

#[test]
fn read_i32_is_twos_complement() {
    assert_eq!(read_i32(&[0x00, 0x00, 0x00, 0x2a], 0), Ok(42));
    assert_eq!(read_i32(&[0x7f, 0xff, 0xff, 0xff], 0), Ok(i32::MAX));
    assert_eq!(read_i32(&[0xff, 0xff, 0xff, 0xff], 0), Ok(-1));
    assert_eq!(read_i32(&[0xff, 0xff, 0xff, 0xfe], 0), Ok(-2));
    assert_eq!(read_i32(&[0x80, 0x00, 0x00, 0x00], 0), Ok(i32::MIN));
    assert_eq!(read_i32(&[0x80, 0x00, 0x00], 0), Err(TdfError::TruncatedInput { offset: 0 }));
}

#[test]
fn write_u32_appends_four_bytes() {
    let mut out = vec![0x55];
    write_u32(&mut out, 0x0102_0304);
    assert_eq!(out, vec![0x55, 0x01, 0x02, 0x03, 0x04]);
    write_u32(&mut out, 0);
    write_u32(&mut out, u32::MAX);
    assert_eq!(
        out,
        vec![0x55, 0x01, 0x02, 0x03, 0x04, 0, 0, 0, 0, 0xff, 0xff, 0xff, 0xff]
    );
}

#[test]
fn write_i32_appends_twos_complement() {
    let mut out = Vec::new();
    write_i32(&mut out, -2);
    write_i32(&mut out, i32::MIN);
    write_i32(&mut out, i32::MAX);
    write_i32(&mut out, 258);
    assert_eq!(
        out,
        vec![
            0xff, 0xff, 0xff, 0xfe, 0x80, 0x00, 0x00, 0x00, 0x7f, 0xff, 0xff, 0xff, 0x00, 0x00,
            0x01, 0x02
        ]
    );
}

#[test]
fn integers_round_trip() {
    for v in [0u32, 1, 255, 256, 65_535, 65_536, 0x00ff_ffff, 0x0100_0000, 0x8000_0000, u32::MAX] {
        let mut out = Vec::new();
        write_u32(&mut out, v);
        assert_eq!(out.len(), 4);
        assert_eq!(read_u32(&out, 0), Ok(v));
    }
    for v in [0i32, 1, -1, 127, -128, 32_767, -32_768, i32::MAX, i32::MIN] {
        let mut out = Vec::new();
        write_i32(&mut out, v);
        assert_eq!(out.len(), 4);
        assert_eq!(read_i32(&out, 0), Ok(v));
    }
}

#[test]
fn padding_is_written_as_zeros() {
    let mut out = vec![7u8];
    write_padding(&mut out, 3);
    assert_eq!(out, vec![7, 0, 0, 0]);
    write_padding(&mut out, 0);
    assert_eq!(out, vec![7, 0, 0, 0]);
}

#[test]
fn padding_is_skipped_whatever_it_holds() {
    let input = [9u8, 8, 7, 6, 5];
    assert_eq!(skip_padding(&input, 1, 4), Ok(()));
    assert_eq!(skip_padding(&input, 5, 0), Ok(()));
    assert_eq!(skip_padding(&input, 2, 4), Err(TdfError::TruncatedInput { offset: 2 }));
    assert_eq!(skip_padding(&input, 6, 0), Err(TdfError::TruncatedInput { offset: 6 }));
}

#[test]
fn has_room_counts_to_the_end() {
    let input = [0u8; 10];
    assert!(has_room(&input, 0, 10));
    assert!(has_room(&input, 6, 4));
    assert!(has_room(&input, 10, 0));
    assert!(!has_room(&input, 7, 4));
    assert!(!has_room(&input, 11, 0));
    assert!(!has_room(&input, usize::MAX, 2));
    assert!(!has_room(&input, 2, usize::MAX));
}

#[test]
fn reading_agrees_with_deku_big_endian() {
    let inputs: [&[u8]; 6] = [
        &[0x01, 0x02, 0x03, 0x04],
        &[0xff, 0xff, 0xff, 0xff],
        &[0x80, 0x00, 0x00, 0x00],
        &[0x00, 0x00, 0x00, 0x00],
        &[0x7f, 0xff, 0xff, 0xff, 0x12],
        &[0x12, 0x34],
    ];
    for input in inputs {
        assert_eq!(read_u32(input, 0).ok(), deku_u32(input));
        assert_eq!(read_i32(input, 0).ok(), deku_i32(input));
    }
}

#[test]
fn writing_agrees_with_deku_big_endian() {
    for v in [0u32, 1, 0x0102_0304, 0x8000_0000, u32::MAX] {
        let mut out = Vec::new();
        write_u32(&mut out, v);
        assert_eq!(out, deku_bytes_of_u32(v));
    }
    for v in [0i32, -1, -2, i32::MIN, i32::MAX, 0x0102_0304] {
        let mut out = Vec::new();
        write_i32(&mut out, v);
        assert_eq!(out, deku_bytes_of_i32(v));
    }
}
