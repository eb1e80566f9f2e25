use png_chunks::crc::{crc32, crc32_of_concat, make_crc_table};

#[test]
fn crc_table_regenerated_identical() {
    let t1 = make_crc_table();
    let t2 = make_crc_table();
    assert_eq!(t1, t2);
    assert_eq!(t1.len(), 256);
}

#[test]
fn crc_table_first_entries() {
    // Entry 0 stays zero; entry 1 is the standard first nonzero entry of the
    // reflected CRC-32 table.
    let t = make_crc_table();
    assert_eq!(t[0], 0x00000000);
    assert_eq!(t[1], 0x77073096);
    assert_eq!(t[255], 0x2d02ef8d);
}

#[test]
fn crc32_known_vectors() {
    assert_eq!(crc32(b"IEND"), 0xae426082);
    assert_eq!(crc32(b"123456789"), 0xcbf43926);
    assert_eq!(crc32(b""), 0x00000000);
}

#[test]
fn crc32_of_concat_matches_crc32_of_whole() {
    assert_eq!(crc32_of_concat(b"IEND", b""), crc32(b"IEND"));
    assert_eq!(crc32_of_concat(b"1234", b"56789"), crc32(b"123456789"));
}

#[test]
fn crc32_deterministic() {
    let data = vec![0u8, 255, 17, 42, 99];
    assert_eq!(crc32(&data), crc32(&data));
}
