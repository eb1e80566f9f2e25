use png_chunks::{drop_png_signature, ChunkType, PngChunkIter};

fn signature() -> Vec<u8> {
    vec![137, 80, 78, 71, 13, 10, 26, 10]
}

fn push_u32_be(out: &mut Vec<u8>, x: u32) {
    out.push((x >> 24) as u8);
    out.push((x >> 16) as u8);
    out.push((x >> 8) as u8);
    out.push(x as u8);
}

fn push_chunk(out: &mut Vec<u8>, tag: &[u8; 4], payload: &[u8], crc: u32) {
    push_u32_be(out, payload.len() as u32);
    out.extend_from_slice(tag);
    out.extend_from_slice(payload);
    push_u32_be(out, crc);
}

#[test]
fn construction_fails_on_short_buffer() {
    let sig = signature();
    for n in 0..8 {
        let short = &sig[..n];
        assert!(drop_png_signature(short).is_none());
        assert!(PngChunkIter::from_png_bytes(short).is_none());
    }
}

#[test]
fn construction_fails_on_wrong_signature() {
    let mut bad = signature();
    bad[0] = 138;
    assert!(drop_png_signature(&bad).is_none());
    assert!(PngChunkIter::from_png_bytes(&bad).is_none());

    let mut bad_last = signature();
    bad_last[7] = 11;
    bad_last.push(0);
    assert!(PngChunkIter::from_png_bytes(&bad_last).is_none());
}

#[test]
fn signature_alone_yields_no_chunks() {
    let buf = signature();
    let mut it = PngChunkIter::from_png_bytes(&buf).unwrap();
    assert!(it.next().is_none());
}

#[test]
fn drop_png_signature_returns_remainder() {
    let mut buf = signature();
    buf.extend_from_slice(&[1, 2, 3]);
    let rest = drop_png_signature(&buf).unwrap();
    assert_eq!(rest, &[1, 2, 3][..]);
}

#[test]
fn single_chunk_yields_one_record() {
    let mut buf = signature();
    push_chunk(&mut buf, b"tEXt", &[1, 2, 3], 0xdeadbeef);
    let mut it = PngChunkIter::from_png_bytes(&buf).unwrap();
    let rec = it.next().unwrap();
    assert_eq!(rec.length, 3);
    assert_eq!(rec.chunk_type.0, *b"tEXt");
    assert_eq!(rec.chunk_data, &[1, 2, 3][..]);
    assert_eq!(rec.declared_crc, 0xdeadbeef);
    assert!(it.next().is_none());
}

#[test]
fn checksum_ignores_declared_crc() {
    let mut buf1 = signature();
    push_chunk(&mut buf1, b"tEXt", &[9, 8, 7], 0x00000000);
    let mut buf2 = signature();
    push_chunk(&mut buf2, b"tEXt", &[9, 8, 7], 0xffffffff);
    let rec1 = PngChunkIter::from_png_bytes(&buf1).unwrap().next().unwrap();
    let rec2 = PngChunkIter::from_png_bytes(&buf2).unwrap().next().unwrap();
    assert_eq!(rec1.get_actual_crc(), rec2.get_actual_crc());
}

#[test]
fn two_chunks_yield_two_records_in_order() {
    let mut buf = signature();
    push_chunk(&mut buf, b"IHDR", &[0, 0, 0, 1, 0, 0, 0, 1, 8, 0, 0, 0, 0], 0x11111111);
    push_chunk(&mut buf, b"IEND", &[], 0xae426082);
    let mut it = PngChunkIter::from_png_bytes(&buf).unwrap();
    let first = it.next().unwrap();
    assert_eq!(first.chunk_type.0, *b"IHDR");
    assert_eq!(first.length, 13);
    let second = it.next().unwrap();
    assert_eq!(second.chunk_type.0, *b"IEND");
    assert_eq!(second.length, 0);
    assert_eq!(second.declared_crc, 0xae426082);
    assert!(it.next().is_none());
}

#[test]
fn checksum_twice_same_record() {
    let mut buf = signature();
    push_chunk(&mut buf, b"IDAT", &[5, 6, 7, 8], 0x12345678);
    let rec = PngChunkIter::from_png_bytes(&buf).unwrap().next().unwrap();
    assert_eq!(rec.get_actual_crc(), rec.get_actual_crc());
}

#[test]
fn iend_checksum_known_vector() {
    let mut buf = signature();
    push_chunk(&mut buf, b"IEND", &[], 0xae426082);
    let rec = PngChunkIter::from_png_bytes(&buf).unwrap().next().unwrap();
    assert_eq!(rec.get_actual_crc(), 0xae426082);
    assert_eq!(rec.get_actual_crc(), rec.declared_crc);
}

#[test]
fn type_predicates_follow_letter_case() {
    let ihdr = ChunkType(*b"IHDR");
    assert!(!ihdr.is_critical());
    assert!(!ihdr.is_public());
    assert!(!ihdr.is_not_reserved());
    assert!(!ihdr.is_trouble_to_copy());

    let text = ChunkType(*b"tEXt");
    assert!(text.is_critical());
    assert!(!text.is_public());
    assert!(!text.is_not_reserved());
    assert!(text.is_trouble_to_copy());

    // A pair of tags differing only in the case of the first letter.
    let lower_first = ChunkType(*b"iHDR");
    assert!(lower_first.is_critical());
    assert!(!ihdr.is_critical());
}

#[test]
fn chunk_with_multibyte_length() {
    let payload = vec![0xab; 300];
    let mut buf = signature();
    push_chunk(&mut buf, b"IDAT", &payload, 0x01020304);
    let mut it = PngChunkIter::from_png_bytes(&buf).unwrap();
    let rec = it.next().unwrap();
    assert_eq!(rec.length, 300);
    assert_eq!(rec.chunk_data.len(), 300);
    assert_eq!(rec.declared_crc, 0x01020304);
    assert!(it.next().is_none());
}

#[test]
fn oversized_length_stops_iteration() {
    let mut buf = signature();
    push_u32_be(&mut buf, 100);
    buf.extend_from_slice(b"IDAT");
    buf.extend_from_slice(&[1, 2, 3, 4]);
    let mut it = PngChunkIter::from_png_bytes(&buf).unwrap();
    assert!(it.next().is_none());
}

#[test]
fn truncated_header_stops_iteration() {
    let mut buf = signature();
    buf.extend_from_slice(&[0, 0, 0, 1, 73]);
    let mut it = PngChunkIter::from_png_bytes(&buf).unwrap();
    assert!(it.next().is_none());
}

#[test]
fn chunk_missing_trailing_checksum_stops_iteration() {
    // Sixteen bytes remain: an eight-byte header and a payload declared as
    // eight bytes, but no room for the four checksum bytes.
    let mut buf = signature();
    push_u32_be(&mut buf, 8);
    buf.extend_from_slice(b"IDAT");
    buf.extend_from_slice(&[1, 2, 3, 4, 5, 6, 7, 8]);
    let mut it = PngChunkIter::from_png_bytes(&buf).unwrap();
    assert!(it.next().is_none());
}
