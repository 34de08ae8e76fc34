use bg3_unpacker::error::{ErrorKind, PakError, Stage};
use bg3_unpacker::format::{
    combine_offset, decode_records, read_file_list, read_version, FileEntry, PackHeader,
    HEADER_SIZE, NAME_SIZE, RECORD_SIZE,
};
use bg3_unpacker::le::ByteReader;
use bg3_unpacker::pak::{
    extract_all, extract_entry, read_index, unpack_pak_file, ExtractedFile, Extraction,
};

const MAGIC: [u8; 4] = [0x4C, 0x53, 0x50, 0x4B];

fn failure(kind: ErrorKind, stage: Stage) -> PakError {
    PakError { kind, stage }
}

fn entry(name: &str, offset_lo: u32, offset_hi: u16, size_on_disk: u32, uncompressed_size: u32) -> FileEntry {
    FileEntry {
        name: name.to_string(),
        offset_lo,
        offset_hi,
        part_index: 0,
        flags: 0,
        size_on_disk,
        uncompressed_size,
    }
}

fn record_with_name(name: &[u8], e: &FileEntry) -> Vec<u8> {
    let mut rec = name.to_vec();
    rec.resize(256, 0);
    rec.extend_from_slice(&e.offset_lo.to_le_bytes());
    rec.extend_from_slice(&e.offset_hi.to_le_bytes());
    rec.push(e.part_index);
    rec.push(e.flags);
    rec.extend_from_slice(&e.size_on_disk.to_le_bytes());
    rec.extend_from_slice(&e.uncompressed_size.to_le_bytes());
    rec
}

fn record(e: &FileEntry) -> Vec<u8> {
    record_with_name(e.name.as_bytes(), e)
}

fn head(version: u32, list_offset: u64) -> Vec<u8> {
    let mut a = MAGIC.to_vec();
    a.extend_from_slice(&version.to_le_bytes());
    a.extend_from_slice(&list_offset.to_le_bytes());
    a.extend_from_slice(&0x0102_0304u32.to_le_bytes());
    a.push(0x11);
    a.push(0x22);
    a.extend_from_slice(&[0xA0, 0xA1, 0xA2, 0xA3, 0xA4, 0xA5, 0xA6, 0xA7]);
    a.extend_from_slice(&[0xA8, 0xA9, 0xAA, 0xAB, 0xAC, 0xAD, 0xAE, 0xAF]);
    a.extend_from_slice(&0x0203u16.to_le_bytes());
    a
}

fn put_at(a: &mut Vec<u8>, at: usize, bytes: &[u8]) {
    assert!(a.len() <= at);
    a.resize(at, 0xEE);
    a.extend_from_slice(bytes);
}

fn list_bytes(count: i32, packed: &[u8]) -> Vec<u8> {
    let mut list = count.to_le_bytes().to_vec();
    list.extend_from_slice(&(packed.len() as i32).to_le_bytes());
    list.extend_from_slice(packed);
    list
}

fn archive(list_offset: usize, entries: &[FileEntry], payloads: &[(usize, Vec<u8>)]) -> Vec<u8> {
    let mut records = Vec::new();
    for e in entries {
        records.extend_from_slice(&record(e));
    }
    let packed = lz4_flex::block::compress(&records);
    let mut a = head(18, list_offset as u64);
    put_at(&mut a, list_offset, &list_bytes(entries.len() as i32, &packed));
    for (at, payload) in payloads {
        put_at(&mut a, *at, payload);
    }
    a
}

fn file(directory: &str, file_name: &str, contents: &[u8]) -> ExtractedFile {
    ExtractedFile {
        directory: directory.to_string(),
        file_name: file_name.to_string(),
        contents: contents.to_vec(),
    }
}

#[test]
fn end_to_end_one_stored_entry() {
    let payload: Vec<u8> = (1..=10).collect();
    let entries = [entry("sub/dir/file.bin", 100, 0, 10, 0)];
    let a = archive(42, &entries, &[(100, payload.clone())]);
    let (header, listed) = read_index(&a).unwrap();
    assert_eq!(header.file_list_offset, 42);
    assert_eq!(listed, entries.to_vec());
    let out = unpack_pak_file(&a).unwrap();
    assert_eq!(out.fatal, None);
    assert_eq!(out.outcomes.len(), 1);
    let unpacked = out.outcomes[0].clone().unwrap();
    assert_eq!(unpacked.directory, "sub/dir");
    assert_eq!(unpacked.file_name, "file.bin");
    assert_eq!(unpacked.contents, vec![1, 2, 3, 4, 5, 6, 7, 8, 9, 10]);
}

#[test]
fn zero_entry_archive_unpacks_to_nothing() {
    let a = archive(40, &[], &[]);
    assert_eq!(&a[40..44], &[0, 0, 0, 0]);
    assert_eq!(
        unpack_pak_file(&a),
        Ok(Extraction { outcomes: vec![], fatal: None })
    );
    let (_, listed) = read_index(&a).unwrap();
    assert!(listed.is_empty());
}

#[test]
fn zero_entries_still_need_a_block() {
    let mut a = head(18, 40);
    a.extend_from_slice(&list_bytes(0, &[]));
    assert_eq!(
        unpack_pak_file(&a),
        Err(failure(ErrorKind::Decompression, Stage::FileList))
    );
}

#[test]
fn wrong_signature_is_refused_at_once() {
    let expected = Err(failure(ErrorKind::Format, Stage::Signature));
    assert_eq!(unpack_pak_file(&[0x4C, 0x53, 0x50, 0x4C]), expected);
    assert_eq!(unpack_pak_file(b"PK\x03\x04"), expected);
    assert_eq!(unpack_pak_file(&[0x4B, 0x50, 0x53, 0x4C]), expected);
    let mut a = archive(40, &[], &[]);
    a[3] = 0x4A;
    assert_eq!(unpack_pak_file(&a), expected);
    a[3] = 0x4B;
    a[0] = 0;
    assert_eq!(unpack_pak_file(&a), expected);
    let mut rdr = ByteReader::new(&a);
    assert_eq!(read_version(&mut rdr), Err(failure(ErrorKind::Format, Stage::Signature)));
    assert_eq!(rdr.position(), 4);
}

#[test]
fn version_follows_the_signature() {
    let a = head(0x0A0B_0C0D, 40);
    let mut rdr = ByteReader::new(&a);
    assert_eq!(read_version(&mut rdr), Ok(0x0A0B_0C0D));
    assert_eq!(rdr.position(), 8);
}

#[test]
fn archive_cut_short_before_the_file_list() {
    let a = head(18, 40);
    for len in 0..4 {
        assert_eq!(
            unpack_pak_file(&a[..len]),
            Err(failure(ErrorKind::Truncation, Stage::Signature))
        );
    }
    for len in 4..8 {
        assert_eq!(
            unpack_pak_file(&a[..len]),
            Err(failure(ErrorKind::Truncation, Stage::Signature))
        );
    }
    for len in 8..40 {
        assert_eq!(
            unpack_pak_file(&a[..len]),
            Err(failure(ErrorKind::Truncation, Stage::Header))
        );
    }
    assert_eq!(
        unpack_pak_file(&a),
        Err(failure(ErrorKind::Truncation, Stage::FileList))
    );
}

#[test]
fn header_fields_in_their_order() {
    let a = head(18, 0x0102_0304_0506_0708);
    let mut rdr = ByteReader::new(&a);
    assert!(rdr.seek(8));
    let header = PackHeader::from_reader(&mut rdr, 18).unwrap();
    assert_eq!(rdr.position(), 8 + HEADER_SIZE);
    assert_eq!(
        header,
        PackHeader {
            version: 18,
            file_list_offset: 0x0102_0304_0506_0708,
            file_list_size: 0x0102_0304,
            flags: 0x11,
            priority: 0x22,
            content_hash: (0xA0..=0xAF).collect(),
            num_parts: 0x0203,
        }
    );
}

#[test]
fn header_cut_short_reads_nothing() {
    let a = head(18, 40);
    let mut rdr = ByteReader::new(&a[..39]);
    assert!(rdr.seek(8));
    assert_eq!(
        PackHeader::from_reader(&mut rdr, 18),
        Err(failure(ErrorKind::Truncation, Stage::Header))
    );
    assert_eq!(rdr.position(), 8);
}

#[test]
fn record_fields_in_their_order() {
    let e = FileEntry {
        name: "Public/Game/meta.lsx".to_string(),
        offset_lo: 0x8899_AABB,
        offset_hi: 0xCCDD,
        part_index: 3,
        flags: 0x42,
        size_on_disk: 0x0011_2233,
        uncompressed_size: 0x4455_6677,
    };
    let rec = record(&e);
    assert_eq!(rec.len(), RECORD_SIZE);
    assert_eq!(NAME_SIZE + 16, RECORD_SIZE);
    assert_eq!(&rec[256..260], &[0xBB, 0xAA, 0x99, 0x88]);
    let mut rdr = ByteReader::new(&rec);
    assert_eq!(FileEntry::from_reader(&mut rdr), Ok(e.clone()));
    assert_eq!(rdr.position(), RECORD_SIZE);
    assert_eq!(e.offset(), 0xCCDD_8899_AABB);
}

#[test]
fn record_cut_short_is_truncation() {
    let rec = record(&entry("a", 1, 2, 3, 4));
    let mut rdr = ByteReader::new(&rec[..271]);
    assert_eq!(
        FileEntry::from_reader(&mut rdr),
        Err(failure(ErrorKind::Truncation, Stage::FileList))
    );
    assert_eq!(rdr.position(), 0);
}

#[test]
fn record_with_a_name_that_is_not_utf8() {
    let rec = record_with_name(&[b'a', 0xFF, b'b'], &entry("", 1, 2, 3, 4));
    let mut rdr = ByteReader::new(&rec);
    assert_eq!(
        FileEntry::from_reader(&mut rdr),
        Err(failure(ErrorKind::Format, Stage::FileList))
    );
    let mut records = record(&entry("ok", 0, 0, 0, 0));
    records.extend_from_slice(&rec);
    let packed = lz4_flex::block::compress(&records);
    let mut a = head(18, 40);
    a.extend_from_slice(&list_bytes(2, &packed));
    assert_eq!(
        unpack_pak_file(&a),
        Err(failure(ErrorKind::Format, Stage::FileList))
    );
}

#[test]
fn records_are_decoded_in_their_order() {
    let entries = vec![entry("c", 1, 0, 2, 3), entry("a", 4, 5, 6, 7), entry("b", 8, 9, 10, 11)];
    let mut list = Vec::new();
    for e in &entries {
        list.extend_from_slice(&record(e));
    }
    assert_eq!(decode_records(&list, 3), Ok(entries.clone()));
    assert_eq!(decode_records(&list, 2), Ok(entries[..2].to_vec()));
    assert_eq!(decode_records(&list, 0), Ok(vec![]));
    assert_eq!(
        decode_records(&list, 4),
        Err(failure(ErrorKind::Truncation, Stage::FileList))
    );
    assert_eq!(
        decode_records(&list[..list.len() - 1], 3),
        Err(failure(ErrorKind::Truncation, Stage::FileList))
    );
}

#[test]
fn negative_counts_are_corruption() {
    let packed = lz4_flex::block::compress(&[]);
    let mut a = head(18, 40);
    a.extend_from_slice(&list_bytes(-1, &packed));
    assert_eq!(
        unpack_pak_file(&a),
        Err(failure(ErrorKind::Format, Stage::FileList))
    );
    let mut b = head(18, 40);
    b.extend_from_slice(&0i32.to_le_bytes());
    b.extend_from_slice(&(-5i32).to_le_bytes());
    b.extend_from_slice(&packed);
    assert_eq!(
        unpack_pak_file(&b),
        Err(failure(ErrorKind::Format, Stage::FileList))
    );
    let mut c = head(18, 40);
    c.extend_from_slice(&i32::MIN.to_le_bytes());
    c.extend_from_slice(&i32::MIN.to_le_bytes());
    let mut rdr = ByteReader::new(&c);
    assert_eq!(
        read_file_list(&mut rdr, 40),
        Err(failure(ErrorKind::Format, Stage::FileList))
    );
}

#[test]
fn file_list_beyond_the_archive() {
    let a = archive(40, &[], &[]);
    let mut rdr = ByteReader::new(&a);
    assert_eq!(
        read_file_list(&mut rdr, a.len() as u64 + 1),
        Err(failure(ErrorKind::Truncation, Stage::FileList))
    );
    assert_eq!(
        read_file_list(&mut rdr, a.len() as u64),
        Err(failure(ErrorKind::Truncation, Stage::FileList))
    );
    assert_eq!(
        read_file_list(&mut rdr, u64::MAX),
        Err(failure(ErrorKind::Truncation, Stage::FileList))
    );
    assert_eq!(read_file_list(&mut rdr, 40), Ok(vec![]));
    let far = head(18, 1 << 40);
    assert_eq!(
        unpack_pak_file(&far),
        Err(failure(ErrorKind::Truncation, Stage::FileList))
    );
}

#[test]
fn file_list_cut_short() {
    let a = archive(40, &[entry("a", 0, 0, 0, 0)], &[]);
    for len in 40..a.len() {
        assert_eq!(
            unpack_pak_file(&a[..len]),
            Err(failure(ErrorKind::Truncation, Stage::FileList))
        );
    }
    assert!(unpack_pak_file(&a).is_ok());
}

#[test]
fn file_list_that_does_not_decompress() {
    let mut a = head(18, 40);
    a.extend_from_slice(&list_bytes(1, &[0x10]));
    assert_eq!(
        unpack_pak_file(&a),
        Err(failure(ErrorKind::Decompression, Stage::FileList))
    );
}

#[test]
fn file_list_of_another_size_than_counted() {
    let one = lz4_flex::block::compress(&record(&entry("a", 0, 0, 0, 0)));
    let mut more = head(18, 40);
    more.extend_from_slice(&list_bytes(2, &one));
    assert_eq!(
        unpack_pak_file(&more),
        Err(failure(ErrorKind::Decompression, Stage::FileList))
    );
    let mut fewer = head(18, 40);
    fewer.extend_from_slice(&list_bytes(0, &one));
    assert_eq!(
        unpack_pak_file(&fewer),
        Err(failure(ErrorKind::Decompression, Stage::FileList))
    );
    let mut right = head(18, 40);
    right.extend_from_slice(&list_bytes(1, &one));
    assert!(unpack_pak_file(&right).is_ok());
}

#[test]
fn offsets_are_put_together_from_two_fields() {
    assert_eq!(combine_offset(0, 0), 0);
    assert_eq!(combine_offset(u32::MAX, 0), (1u64 << 32) - 1);
    assert_eq!(combine_offset(0, u16::MAX), ((1u64 << 16) - 1) << 32);
    assert_eq!(combine_offset(u32::MAX, u16::MAX), (1u64 << 48) - 1);
    assert_eq!(combine_offset(100, 0), 100);
    assert_eq!(combine_offset(7, 1), 4_294_967_303);
    assert_eq!(combine_offset(0x1234_5678, 0x9ABC), 0x9ABC_1234_5678);
    assert_eq!(entry("a", 5, 2, 0, 0).offset(), 5 + 2 * 4_294_967_296);
}

#[test]
fn compressed_entry_is_decompressed() {
    let mut data = Vec::new();
    for i in 0..500u32 {
        data.extend_from_slice(&(i % 5).to_le_bytes());
    }
    let packed = lz4_flex::block::compress(&data);
    assert!(packed.len() < data.len());
    let entries = [entry("Mods/big.bin", 400, 0, packed.len() as u32, data.len() as u32)];
    let a = archive(40, &entries, &[(400, packed)]);
    assert_eq!(
        unpack_pak_file(&a),
        Ok(Extraction { outcomes: vec![Ok(file("Mods", "big.bin", &data))], fatal: None })
    );
    assert_eq!(extract_entry(&a, &entries[0], 0), Ok(file("Mods", "big.bin", &data)));
}

#[test]
fn every_file_has_the_length_its_entry_declares() {
    let data = vec![7u8; 300];
    let packed = lz4_flex::block::compress(&data);
    let entries = [
        entry("raw", 500, 0, 6, 0),
        entry("d/packed", 520, 0, packed.len() as u32, 300),
        entry("d/empty", 510, 0, 0, 0),
    ];
    let a = archive(40, &entries, &[(500, vec![9; 20]), (520, packed)]);
    let out = unpack_pak_file(&a).unwrap();
    assert_eq!(out.fatal, None);
    assert_eq!(out.outcomes.len(), 3);
    assert_eq!(out.outcomes[0].clone().unwrap().contents.len(), 6);
    assert_eq!(out.outcomes[1].clone().unwrap().contents.len(), 300);
    assert_eq!(out.outcomes[2].clone().unwrap().contents.len(), 0);
    assert_eq!(
        out.outcomes,
        vec![Ok(file("", "raw", &[9; 6])), Ok(file("d", "packed", &data)), Ok(file("d", "empty", &[]))]
    );
}

#[test]
fn entry_that_does_not_decompress_is_given_up_and_the_run_goes_on() {
    let data = vec![3u8; 100];
    let packed = lz4_flex::block::compress(&data);
    let size = packed.len() as u32;
    let entries = [
        entry("a/longer", 400, 0, size, 101),
        entry("a/right", 400, 0, size, 100),
        entry("a/shorter", 400, 0, size, 99),
        entry("a/corrupt", 396, 0, 4, 8),
        entry("a/stored", 400, 0, 2, 0),
    ];
    let a = archive(40, &entries, &[(396, vec![0x10, 0x61, 0, 0]), (400, packed.clone())]);
    let out = unpack_pak_file(&a).unwrap();
    assert_eq!(out.fatal, None);
    assert_eq!(
        out.outcomes,
        vec![
            Err(failure(ErrorKind::Decompression, Stage::Entry(0))),
            Ok(file("a", "right", &data)),
            Err(failure(ErrorKind::Decompression, Stage::Entry(2))),
            Err(failure(ErrorKind::Decompression, Stage::Entry(3))),
            Ok(file("a", "stored", &packed[..2])),
        ]
    );
}

#[test]
fn entry_beyond_the_archive_ends_the_run() {
    let entries = [
        entry("first", 300, 0, 4, 0),
        entry("second", 302, 0, 3, 0),
        entry("third", 300, 0, 1, 0),
    ];
    let a = archive(40, &entries, &[(300, vec![1, 2, 3, 4])]);
    assert_eq!(a.len(), 304);
    let out = unpack_pak_file(&a).unwrap();
    assert_eq!(out.outcomes, vec![Ok(file("", "first", &[1, 2, 3, 4]))]);
    assert_eq!(out.fatal, Some(failure(ErrorKind::Truncation, Stage::Entry(1))));
    assert_eq!(
        extract_all(&a, &entries.to_vec()),
        Extraction {
            outcomes: vec![Ok(file("", "first", &[1, 2, 3, 4]))],
            fatal: Some(failure(ErrorKind::Truncation, Stage::Entry(1))),
        }
    );
}

#[test]
fn entry_offset_is_tested_against_the_archive() {
    let a = archive(40, &[], &[(200, vec![5; 8])]);
    assert_eq!(a.len(), 208);
    assert_eq!(extract_entry(&a, &entry("x", 208, 0, 0, 0), 4), Ok(file("", "x", &[])));
    assert_eq!(
        extract_entry(&a, &entry("x", 209, 0, 0, 0), 4),
        Err(failure(ErrorKind::Truncation, Stage::Entry(4)))
    );
    assert_eq!(
        extract_entry(&a, &entry("x", 200, 1, 8, 0), 7),
        Err(failure(ErrorKind::Truncation, Stage::Entry(7)))
    );
    assert_eq!(
        extract_entry(&a, &entry("x", u32::MAX, u16::MAX, u32::MAX, 0), 0),
        Err(failure(ErrorKind::Truncation, Stage::Entry(0)))
    );
    assert_eq!(extract_entry(&a, &entry("x", 200, 0, 8, 0), 0), Ok(file("", "x", &[5; 8])));
    assert_eq!(
        extract_entry(&a, &entry("x", 200, 0, 9, 0), 0),
        Err(failure(ErrorKind::Truncation, Stage::Entry(0)))
    );
}

#[test]
fn only_an_entry_that_does_not_decompress_lets_the_run_go_on() {
    assert!(!failure(ErrorKind::Decompression, Stage::Entry(0)).is_fatal());
    assert!(!failure(ErrorKind::Decompression, Stage::Entry(9)).is_fatal());
    assert!(failure(ErrorKind::Decompression, Stage::FileList).is_fatal());
    assert!(failure(ErrorKind::Truncation, Stage::Entry(0)).is_fatal());
    assert!(failure(ErrorKind::Format, Stage::Entry(0)).is_fatal());
    assert!(failure(ErrorKind::Format, Stage::Signature).is_fatal());
    assert!(failure(ErrorKind::Truncation, Stage::Header).is_fatal());
}

#[test]
fn many_entries_come_out_in_the_order_of_the_file_list() {
    let mut entries = Vec::new();
    let mut payload = Vec::new();
    for i in 0..40u32 {
        entries.push(entry(&format!("dir{}/file{}", i % 3, i), 20_000 + 2 * i, 0, 2, 0));
        payload.push(i as u8);
        payload.push(0x80 | i as u8);
    }
    let a = archive(64, &entries, &[(20_000, payload)]);
    let out = unpack_pak_file(&a).unwrap();
    assert_eq!(out.fatal, None);
    assert_eq!(out.outcomes.len(), 40);
    for i in 0..40usize {
        assert_eq!(
            out.outcomes[i],
            Ok(file(&format!("dir{}", i % 3), &format!("file{}", i), &[i as u8, 0x80 | i as u8]))
        );
    }
}
