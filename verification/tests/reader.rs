use bg3_unpacker::le::ByteReader;

#[test]
fn reads_little_endian_numbers_in_order() {
    let data = [
        0x34, 0x12, 0x78, 0x56, 0x34, 0x12, 0xEF, 0xCD, 0xAB, 0x89, 0x67, 0x45, 0x23, 0x01, 0x7F,
    ];
    let mut rdr = ByteReader::new(&data);
    assert_eq!(rdr.read_u16(), Some(0x1234));
    assert_eq!(rdr.position(), 2);
    assert_eq!(rdr.read_u32(), Some(0x1234_5678));
    assert_eq!(rdr.position(), 6);
    assert_eq!(rdr.read_u64(), Some(0x0123_4567_89AB_CDEF));
    assert_eq!(rdr.position(), 14);
    assert_eq!(rdr.read_u8(), Some(0x7F));
    assert_eq!(rdr.remaining(), 0);
    assert_eq!(rdr.read_u8(), None);
}

#[test]
fn reads_signed_numbers_in_twos_complement() {
    let data = [0xFF, 0xFF, 0xFF, 0xFF, 0x00, 0x00, 0x00, 0x80, 0xFF, 0xFF, 0xFF, 0x7F];
    let mut rdr = ByteReader::new(&data);
    assert_eq!(rdr.read_i32(), Some(-1));
    assert_eq!(rdr.read_i32(), Some(i32::MIN));
    assert_eq!(rdr.read_i32(), Some(i32::MAX));
}

#[test]
fn largest_values_are_read_whole() {
    let data = [0xFF; 8];
    assert_eq!(ByteReader::new(&data).read_u16(), Some(u16::MAX));
    assert_eq!(ByteReader::new(&data).read_u32(), Some(u32::MAX));
    assert_eq!(ByteReader::new(&data).read_u64(), Some(u64::MAX));
}

#[test]
fn short_read_takes_nothing() {
    let data = [1, 2, 3];
    let mut rdr = ByteReader::new(&data);
    assert_eq!(rdr.read_u32(), None);
    assert_eq!(rdr.read_i32(), None);
    assert_eq!(rdr.read_u64(), None);
    assert_eq!(rdr.position(), 0);
    assert_eq!(rdr.read_u16(), Some(0x0201));
    assert_eq!(rdr.read_u16(), None);
    assert_eq!(rdr.position(), 2);
    assert_eq!(rdr.read_exact(2), None);
    assert_eq!(rdr.read_exact(1), Some(&data[2..]));
    assert_eq!(rdr.read_exact(0), Some(&data[3..]));
}

#[test]
fn seek_is_absolute_and_stops_at_the_end() {
    let data = [10, 20, 30, 40];
    let mut rdr = ByteReader::new(&data);
    assert!(rdr.seek(3));
    assert_eq!(rdr.read_u8(), Some(40));
    assert!(rdr.seek(1));
    assert_eq!(rdr.read_exact(2), Some(&data[1..3]));
    assert!(rdr.seek(4));
    assert_eq!(rdr.remaining(), 0);
    assert!(!rdr.seek(5));
    assert_eq!(rdr.position(), 4);
    assert!(!rdr.seek(u64::MAX));
    assert_eq!(rdr.position(), 4);
}
