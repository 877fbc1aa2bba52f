use aria_core::bytecode::reader::ClassReader;

#[test]
fn reads_are_big_endian_and_advance_the_cursor() {
    let mut reader = ClassReader::from_bytes(vec![0x01, 0x02, 0x03, 0xCA, 0xFE, 0xBA, 0xBE]);
    assert_eq!(reader.len(), 7);
    assert_eq!(reader.position(), 0);
    assert_eq!(reader.read_u1(), 0x01);
    assert_eq!(reader.position(), 1);
    assert_eq!(reader.read_u2(), 0x0203);
    assert_eq!(reader.position(), 3);
    assert_eq!(reader.remaining(), 4);
    assert_eq!(reader.read_u4(), 0xCAFEBABE);
    assert_eq!(reader.position(), 7);
    assert_eq!(reader.remaining(), 0);
    assert!(!reader.has_more());
}

#[test]
fn largest_values_are_read_whole() {
    let mut reader = ClassReader::from_bytes(vec![0xFF; 7]);
    assert_eq!(reader.read_u1(), 0xFF);
    assert_eq!(reader.read_u2(), 0xFFFF);
    assert_eq!(reader.read_u4(), 0xFFFF_FFFF);
}

#[test]
fn skip_and_seek_move_the_cursor() {
    let mut reader = ClassReader::from_bytes(vec![10, 20, 30, 40, 50]);
    reader.skip(2);
    assert_eq!(reader.position(), 2);
    assert_eq!(reader.read_u1(), 30);
    reader.seek(0);
    assert_eq!(reader.read_u1(), 10);
    reader.seek(5);
    assert_eq!(reader.remaining(), 0);
    assert!(!reader.has_more());
    reader.seek(4);
    assert!(reader.has_more());
    reader.skip(0);
    assert_eq!(reader.position(), 4);
    reader.skip(1);
    assert_eq!(reader.position(), 5);
}

#[test]
fn empty_buffer_has_nothing_to_read() {
    let reader = ClassReader::from_bytes(Vec::new());
    assert_eq!(reader.len(), 0);
    assert_eq!(reader.remaining(), 0);
    assert!(!reader.has_more());
    assert_eq!(reader.dump_bytes(4), Vec::<u8>::new());
}

#[test]
fn dump_bytes_gives_the_next_bytes_and_stops_at_the_end() {
    let mut reader = ClassReader::from_bytes(vec![1, 2, 3, 4, 5]);
    reader.skip(1);
    assert_eq!(reader.dump_bytes(2), vec![2, 3]);
    assert_eq!(reader.dump_bytes(4), vec![2, 3, 4, 5]);
    assert_eq!(reader.dump_bytes(100), vec![2, 3, 4, 5]);
    assert_eq!(reader.dump_bytes(usize::MAX), vec![2, 3, 4, 5]);
    assert_eq!(reader.dump_bytes(0), Vec::<u8>::new());
    assert_eq!(reader.position(), 1);
}
