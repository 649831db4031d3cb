use pgwire::buffer::{Bytes, MutBytes};
use pgwire::error::ProtocolError;

#[test]
fn read_u32_is_works() {
    let buf: Bytes = Bytes::new(&0u32.to_be_bytes());

    let num = buf.read_u32(&[0..4]).unwrap();
    let expected_num = 0u32;

    assert_eq!(num, expected_num);
}

#[test]
fn buffer_read_u32_is_works() {
    let buf: Bytes = Bytes::new(&1000u32.to_be_bytes());

    let num = buf.read_u32(&[0..4]).unwrap();
    let expected_num = 1000u32;

    assert_eq!(num, expected_num);
}

#[test]
fn read_u32_range_cant_to_be_graeter_4() {
    let buf: Bytes = Bytes::new(&0u64.to_be_bytes());

    assert_eq!(buf.read_u32(&[0..5]), Err(ProtocolError::InvalidRangeLength));
}

#[test]
fn read_u32_decodes_big_endian_bytes() {
    let buf = Bytes::new(&[0x00, 0x00, 0x03, 0xE8]);
    assert_eq!(buf.read_u32(&[0..4]), Ok(1000));
}

#[test]
fn read_u32_round_trips_encoded_values() {
    for v in [0u32, 1, 255, 256, 65_535, 65_536, 0x0003_0000, 0x1234_5678, u32::MAX] {
        let mut w = MutBytes::new();
        w.put_u8(&[9, 9]);
        w.put_u32(v);
        let buf = Bytes::new(w.as_slice());
        assert_eq!(buf.read_u32(&[2..6]), Ok(v));
    }
}

#[test]
fn read_u32_rejects_ranges_not_four_long() {
    let buf = Bytes::new(&[1, 2, 3, 4, 5, 6, 7, 8, 9, 10, 11, 12]);
    for len in [0usize, 1, 2, 3, 5, 8] {
        assert_eq!(buf.read_u32(&[1..1 + len]), Err(ProtocolError::InvalidRangeLength));
    }
    assert_eq!(buf.read_u32(&[5..3]), Err(ProtocolError::InvalidRangeLength));
}

#[test]
fn read_u32_rejects_ranges_past_the_end() {
    let buf = Bytes::new(&[1, 2, 3, 4, 5, 6]);
    assert_eq!(buf.read_u32(&[3..7]), Err(ProtocolError::Bounds));
    assert_eq!(buf.read_u32(&[2..6]), Ok(0x0304_0506));
}

#[test]
fn get_checks_bounds() {
    let buf = Bytes::new(&[7, 8, 9]);
    assert_eq!(buf.get(0), Ok(7));
    assert_eq!(buf.get(2), Ok(9));
    assert_eq!(buf.get(3), Err(ProtocolError::Bounds));
    assert_eq!(buf.len(), 3);
}

#[test]
fn slice_gives_the_tail() {
    let buf = Bytes::new(&[7, 8, 9]);
    assert_eq!(buf.slice(1), Ok(&[8u8, 9][..]));
    assert_eq!(buf.slice(3), Ok(&[][..]));
    assert_eq!(buf.slice(4), Err(ProtocolError::Bounds));
}

#[test]
fn put_u32_appends_big_endian() {
    let mut w = MutBytes::new();
    assert_eq!(w.len(), 0);
    w.put_u32(0x0102_0304);
    w.extend_from_slice(&[5]);
    assert_eq!(w.as_slice(), &[1, 2, 3, 4, 5]);
}

#[test]
fn write_u32_changes_only_its_four_bytes() {
    let mut w = MutBytes::new();
    w.extend_from_slice(&[10, 11, 12, 13, 14, 15, 16, 17]);
    assert_eq!(w.write_u32(2..6, 0xAABB_CCDD), Ok(()));
    assert_eq!(w.as_slice(), &[10, 11, 0xAA, 0xBB, 0xCC, 0xDD, 16, 17]);
}

#[test]
fn write_u32_rejects_bad_ranges_and_leaves_bytes() {
    let mut w = MutBytes::new();
    w.extend_from_slice(&[1, 2, 3, 4, 5]);
    assert_eq!(w.write_u32(2..6, 7), Err(ProtocolError::Bounds));
    assert_eq!(w.write_u32(0..3, 7), Err(ProtocolError::InvalidRangeLength));
    assert_eq!(w.write_u32(0..5, 7), Err(ProtocolError::InvalidRangeLength));
    assert_eq!(w.as_slice(), &[1, 2, 3, 4, 5]);
}
