//! The binary buffer codec: little-endian layouts, all-or-nothing reads,
//! and truncation safety for every primitive reader.

use svf_server::utils::buffer_reader::BufferReader;
use svf_server::utils::buffer_writer::BufferWriter;

#[test]
fn write_u16_layout() {
    let mut w = BufferWriter::new(Vec::new());
    w.write_u16(0x1234);
    assert_eq!(w.into_vec(), vec![0x34, 0x12]);
}

#[test]
fn write_u32_layout() {
    let mut w = BufferWriter::new(Vec::new());
    w.write_u32(0x12345678);
    assert_eq!(w.into_vec(), vec![0x78, 0x56, 0x34, 0x12]);
}

#[test]
fn write_u64_layout() {
    let mut w = BufferWriter::new(Vec::new());
    w.write_u64(0x0102030405060708);
    assert_eq!(w.into_vec(), vec![8, 7, 6, 5, 4, 3, 2, 1]);
}

#[test]
fn write_appends_to_wrapped_buffer() {
    let mut w = BufferWriter::new(vec![0xAA]);
    w.write_u8(0xBB);
    w.write_bytes(&[0xCC, 0xDD]);
    assert_eq!(w.into_vec(), vec![0xAA, 0xBB, 0xCC, 0xDD]);
}

#[test]
fn unsigned_round_trips() {
    let mut w = BufferWriter::new(Vec::new());
    w.write_u8(0xFE);
    w.write_u16(65535);
    w.write_u32(4_000_000_000);
    w.write_u64(u64::MAX);
    let buf = w.into_vec();
    let mut r = BufferReader::new(&buf);
    assert_eq!(r.read_u8(), Some(0xFE));
    assert_eq!(r.read_u16(), Some(65535));
    assert_eq!(r.read_u32(), Some(4_000_000_000));
    assert_eq!(r.read_u64(), Some(u64::MAX));
    assert_eq!(r.get_read_pos(), 15);
}

#[test]
fn signed_round_trips() {
    let mut w = BufferWriter::new(Vec::new());
    w.write_i8(-1);
    w.write_i16(-32768);
    w.write_i32(-123456789);
    w.write_i64(i64::MIN);
    w.write_i64(i64::MAX);
    let buf = w.into_vec();
    let mut r = BufferReader::new(&buf);
    assert_eq!(r.read_i8(), Some(-1));
    assert_eq!(r.read_i16(), Some(-32768));
    assert_eq!(r.read_i32(), Some(-123456789));
    assert_eq!(r.read_i64(), Some(i64::MIN));
    assert_eq!(r.read_i64(), Some(i64::MAX));
}

#[test]
fn signed_layout_is_twos_complement() {
    let mut w = BufferWriter::new(Vec::new());
    w.write_i16(-2);
    assert_eq!(w.into_vec(), vec![0xFE, 0xFF]);
}

#[test]
fn bool_layout_and_round_trip() {
    let mut w = BufferWriter::new(Vec::new());
    w.write_bool(true);
    w.write_bool(false);
    let buf = w.into_vec();
    assert_eq!(buf, vec![1, 0]);
    let mut r = BufferReader::new(&buf);
    assert_eq!(r.read_bool(), Some(true));
    assert_eq!(r.read_bool(), Some(false));
}

#[test]
fn read_bool_nonzero_is_true() {
    let buf = [7u8];
    let mut r = BufferReader::new(&buf);
    assert_eq!(r.read_bool(), Some(true));
}

#[test]
fn truncated_reads_fail_without_panic() {
    let one = [0u8];
    assert_eq!(BufferReader::new(&one).read_u16(), None);
    let three = [0u8; 3];
    assert_eq!(BufferReader::new(&three).read_u32(), None);
    let seven = [0u8; 7];
    assert_eq!(BufferReader::new(&seven).read_u64(), None);
    let empty: [u8; 0] = [];
    assert_eq!(BufferReader::new(&empty).read_u8(), None);
    assert_eq!(BufferReader::new(&empty).read_i8(), None);
    assert_eq!(BufferReader::new(&one).read_i16(), None);
    assert_eq!(BufferReader::new(&three).read_i32(), None);
    assert_eq!(BufferReader::new(&seven).read_i64(), None);
    assert_eq!(BufferReader::new(&empty).read_bool(), None);
}

#[test]
fn truncated_read_leaves_cursor_in_place() {
    let buf = [1u8, 2, 3];
    let mut r = BufferReader::new(&buf);
    assert_eq!(r.read_u16(), Some(0x0201));
    assert_eq!(r.get_read_pos(), 2);
    assert_eq!(r.read_u16(), None);
    assert_eq!(r.get_read_pos(), 2);
    assert_eq!(r.read_u8(), Some(3));
}

#[test]
fn read_bytes_and_const_read_bytes() {
    let buf = [1u8, 2, 3, 4, 5];
    let mut r = BufferReader::new(&buf);
    assert_eq!(r.read_bytes(2), Some(&buf[0..2]));
    assert_eq!(r.const_read_bytes::<2>(), Some(vec![3, 4]));
    assert_eq!(r.const_read_bytes::<2>(), None);
    assert_eq!(r.read_bytes(1), Some(&buf[4..5]));
}

#[test]
fn string_round_trip() {
    let mut w = BufferWriter::new(Vec::new());
    w.write_string(String::from("hello, field"));
    let buf = w.into_vec();
    assert_eq!(&buf[0..4], &[12, 0, 0, 0]);
    let mut r = BufferReader::new(&buf);
    assert_eq!(r.read_string(), Some(String::from("hello, field")));
    assert_eq!(r.get_read_pos(), 16);
}

#[test]
fn string_truncated_payload_fails() {
    // declares 5 bytes but only 3 follow
    let buf = [5u8, 0, 0, 0, b'a', b'b', b'c'];
    let mut r = BufferReader::new(&buf);
    assert_eq!(r.read_string(), None);
    assert_eq!(r.get_read_pos(), 0);
}

#[test]
fn string_invalid_utf8_fails() {
    let buf = [2u8, 0, 0, 0, 0xFF, 0xFE];
    let mut r = BufferReader::new(&buf);
    assert_eq!(r.read_string(), None);
    assert_eq!(r.get_read_pos(), 0);
}
