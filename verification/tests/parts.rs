use adat::cursor::ByteCursor;
use adat::entry::PackageEntry;
use adat::error::{DecompressionError, FormatError, PackageError};
use adat::header::PackageHeader;
use adat::inflate::{check_payload, inflate_exact, InflateStatus};
use adat::text::trim_end_nul;
use adat::wire::{u32le_from_slice, ADAT_ENTRY_SIZE, ADAT_MAGIC, ADAT_VERSION, HEADER_SIZE};
use miniz_oxide::deflate::compress_to_vec_zlib;

fn raw_record(name: &[u8], offset: u32, length: u32, compressed_length: u32, reserved: u32) -> Vec<u8> {
    let mut out = vec![0u8; 128];
    out[..name.len()].copy_from_slice(name);
    out.extend_from_slice(&offset.to_le_bytes());
    out.extend_from_slice(&length.to_le_bytes());
    out.extend_from_slice(&compressed_length.to_le_bytes());
    out.extend_from_slice(&reserved.to_le_bytes());
    out
}

fn entry_named(name: &[u8]) -> PackageEntry {
    let mut field = [0u8; 128];
    field[..name.len()].copy_from_slice(name);
    PackageEntry { name: field, offset: 0, length: 0, compressed_length: 0, reserved: 0 }
}

#[test]
fn layout_constants() {
    assert_eq!(HEADER_SIZE, 16);
    assert_eq!(ADAT_ENTRY_SIZE, 144);
    assert_eq!(ADAT_VERSION, 9);
    assert_eq!(&ADAT_MAGIC, b"ADAT");
}

#[test]
fn u32le_from_slice_decodes_little_endian() {
    assert_eq!(u32le_from_slice(&[65, 68, 65, 84]), 0x54414441);
    assert_eq!(u32le_from_slice(&[9, 0, 0, 0]), 9);
    assert_eq!(u32le_from_slice(&[0x78, 0x56, 0x34, 0x12]), 0x12345678);
    assert_eq!(u32le_from_slice(&[0xff, 0xff, 0xff, 0xff]), u32::MAX);
    assert_eq!(u32le_from_slice(&[0, 0, 0, 0]), 0);
}

#[test]
fn cursor_reads_in_sequence() {
    let mut cursor = ByteCursor::new(vec![1, 2, 3, 4, 5]);
    assert_eq!(cursor.len(), 5);
    assert_eq!(cursor.read_exact(2), Ok(vec![1, 2]));
    assert_eq!(cursor.read_exact(0), Ok(vec![]));
    assert_eq!(cursor.read_exact(3), Ok(vec![3, 4, 5]));
    assert_eq!(cursor.read_exact(0), Ok(vec![]));
    assert_eq!(cursor.read_exact(1), Err(PackageError::UnexpectedEof { offset: 5, requested: 1 }));
}

#[test]
fn cursor_short_read_leaves_position() {
    let mut cursor = ByteCursor::new(vec![1, 2, 3, 4, 5]);
    cursor.seek(3);
    assert_eq!(cursor.read_exact(3), Err(PackageError::UnexpectedEof { offset: 3, requested: 3 }));
    assert_eq!(cursor.read_exact(2), Ok(vec![4, 5]));
}

#[test]
fn cursor_seek_past_the_end() {
    let mut cursor = ByteCursor::new(vec![1, 2, 3]);
    cursor.seek(u64::MAX);
    assert_eq!(cursor.read_exact(0), Ok(vec![]));
    assert_eq!(
        cursor.read_exact(1),
        Err(PackageError::UnexpectedEof { offset: u64::MAX, requested: 1 })
    );
    cursor.seek(1);
    assert_eq!(cursor.read_exact(2), Ok(vec![2, 3]));
}

#[test]
fn read_package_header_accepts_and_advances() {
    let mut bytes = b"ADAT".to_vec();
    bytes.extend_from_slice(&[0x10, 0x20, 0, 0, 0x90, 0, 0, 0, 9, 0, 0, 0, 0xaa, 0xbb]);
    let mut cursor = ByteCursor::new(bytes);
    let header = PackageHeader::read_package_header(&mut cursor).unwrap();
    assert_eq!(
        header,
        PackageHeader { magic: 0x54414441, toc_offset: 0x2010, toc_length: 0x90, version: 9 }
    );
    assert_eq!(cursor.read_exact(2), Ok(vec![0xaa, 0xbb]));
}

#[test]
fn read_package_header_reads_at_the_cursor() {
    let mut bytes = vec![0u8; 3];
    bytes.extend_from_slice(b"ADAT");
    bytes.extend_from_slice(&[1, 0, 0, 0, 2, 0, 0, 0, 9, 0, 0, 0]);
    let mut cursor = ByteCursor::new(bytes);
    assert_eq!(
        PackageHeader::read_package_header(&mut cursor),
        Err(PackageError::Format(FormatError::MagicMismatch { found_bytes: [0, 0, 0, b'A'] }))
    );
    cursor.seek(3);
    assert_eq!(
        PackageHeader::read_package_header(&mut cursor),
        Ok(PackageHeader { magic: 0x54414441, toc_offset: 1, toc_length: 2, version: 9 })
    );
    cursor.seek(4);
    assert_eq!(
        PackageHeader::read_package_header(&mut cursor),
        Err(PackageError::UnexpectedEof { offset: 4, requested: 16 })
    );
}

#[test]
fn read_package_header_rejects_version() {
    let mut bytes = b"ADAT".to_vec();
    bytes.extend_from_slice(&[0, 0, 0, 0, 0, 0, 0, 0, 10, 0, 0, 0, 7]);
    let mut cursor = ByteCursor::new(bytes);
    assert_eq!(
        PackageHeader::read_package_header(&mut cursor),
        Err(PackageError::Format(FormatError::VersionMismatch { expected: 9, found: 10 }))
    );
    assert_eq!(cursor.read_exact(1), Ok(vec![7]));
}

#[test]
fn read_package_entry_decodes_fields() {
    let mut bytes = raw_record(b"dir/file.bin", 0x01020304, 70000, 513, 0xdeadbeef);
    bytes.push(0x42);
    let mut cursor = ByteCursor::new(bytes);
    let entry = PackageEntry::read_package_entry(&mut cursor).unwrap();
    assert_eq!(&entry.name[..12], b"dir/file.bin");
    assert!(entry.name[12..].iter().all(|b| *b == 0));
    assert_eq!(entry.offset, 0x01020304);
    assert_eq!(entry.length, 70000);
    assert_eq!(entry.compressed_length, 513);
    assert_eq!(entry.reserved, 0xdeadbeef);
    assert_eq!(entry.get_name(), Ok("dir/file.bin"));
    assert_eq!(cursor.read_exact(1), Ok(vec![0x42]));
}

#[test]
fn read_package_entry_needs_a_whole_record() {
    let mut bytes = raw_record(b"a", 1, 2, 3, 4);
    bytes.pop();
    let mut cursor = ByteCursor::new(bytes);
    assert_eq!(
        PackageEntry::read_package_entry(&mut cursor),
        Err(PackageError::UnexpectedEof { offset: 0, requested: 144 })
    );
    assert_eq!(cursor.read_exact(143).map(|v| v.len()), Ok(143));
}

#[test]
fn read_package_entries_reads_in_order() {
    let mut bytes = vec![0xee; 5];
    bytes.extend(raw_record(b"first", 1, 2, 3, 4));
    bytes.extend(raw_record(b"second", 5, 6, 7, 8));
    bytes.extend(raw_record(b"third", 9, 10, 11, 12));
    let mut cursor = ByteCursor::new(bytes);
    cursor.seek(5);
    let entries = PackageEntry::read_package_entries(&mut cursor, 2).unwrap();
    assert_eq!(entries.len(), 2);
    assert_eq!(entries[0].get_name(), Ok("first"));
    assert_eq!(entries[1].get_name(), Ok("second"));
    assert_eq!(entries[1].offset, 5);
    assert_eq!(entries[1].reserved, 8);
    let rest = PackageEntry::read_package_entries(&mut cursor, 1).unwrap();
    assert_eq!(rest[0].get_name(), Ok("third"));
    assert_eq!(PackageEntry::read_package_entries(&mut cursor, 0), Ok(vec![]));
}

#[test]
fn read_package_entries_names_the_first_missing_record() {
    let mut bytes = vec![0xee; 5];
    bytes.extend(raw_record(b"first", 1, 2, 3, 4));
    bytes.extend(raw_record(b"second", 5, 6, 7, 8));
    bytes.extend(vec![0u8; 100]);
    let mut cursor = ByteCursor::new(bytes);
    cursor.seek(5);
    assert_eq!(
        PackageEntry::read_package_entries(&mut cursor, 4),
        Err(PackageError::UnexpectedEof { offset: 5 + 288, requested: 144 })
    );
}

#[test]
fn get_name_trims_padding() {
    assert_eq!(entry_named(b"some/path/foo.txt").get_name(), Ok("some/path/foo.txt"));
    assert_eq!(entry_named(b"").get_name(), Ok(""));
    assert_eq!(entry_named(b"a\0\0b").get_name(), Ok("a\0\0b"));
    assert_eq!(entry_named("\u{1f600}".as_bytes()).get_name(), Ok("\u{1f600}"));
    assert_eq!(entry_named(&[b'z'; 128]).get_name().map(|s| s.len()), Ok(128));
}

#[test]
fn get_name_rejects_invalid_utf8() {
    let invalid = Err(PackageError::Format(FormatError::InvalidEntryName));
    assert_eq!(entry_named(&[0xff]).get_name(), invalid);
    assert_eq!(entry_named(&[b'a', 0xc3]).get_name(), invalid);
    assert_eq!(entry_named(&[0xed, 0xa0, 0x80]).get_name(), invalid);
    let mut whole = [b'a'; 128];
    whole[127] = 0xc3;
    assert_eq!(entry_named(&whole).get_name(), invalid);
}

#[test]
fn trim_end_nul_cuts_only_trailing_nul() {
    assert_eq!(trim_end_nul("abc\0\0\0"), "abc");
    assert_eq!(trim_end_nul("\0\0"), "");
    assert_eq!(trim_end_nul(""), "");
    assert_eq!(trim_end_nul("\0a"), "\0a");
    assert_eq!(trim_end_nul("\u{e9}\0"), "\u{e9}");
}

#[test]
fn entry_read_entry_seeks_and_inflates() {
    let stored = compress_to_vec_zlib(b"payload bytes", 9);
    let mut bytes = vec![0x11; 7];
    bytes.extend_from_slice(&stored);
    bytes.extend_from_slice(&[0x22; 9]);
    let mut entry = entry_named(b"p");
    entry.offset = 7;
    entry.length = 13;
    entry.compressed_length = stored.len();
    let mut cursor = ByteCursor::new(bytes);
    cursor.seek(2);
    assert_eq!(entry.read_entry(&mut cursor), Ok(b"payload bytes".to_vec()));
    assert_eq!(entry.read_entry(&mut cursor), Ok(b"payload bytes".to_vec()));
    assert_eq!(cursor.read_exact(9), Ok(vec![0x22; 9]));
    entry.compressed_length = stored.len() + 10;
    assert_eq!(
        entry.read_entry(&mut cursor),
        Err(PackageError::UnexpectedEof { offset: 7, requested: stored.len() + 10 })
    );
}

#[test]
fn inflate_exact_inflates_to_the_declared_size() {
    let content = vec![7u8; 100_000];
    let stored = compress_to_vec_zlib(&content, 6);
    assert!(stored.len() < 1000);
    assert_eq!(inflate_exact(&stored, 100_000), Ok(content));
    assert_eq!(
        inflate_exact(&stored, 99_999),
        Err(PackageError::Decompression(DecompressionError::LimitExceeded))
    );
    assert_eq!(
        inflate_exact(&stored, 100_001),
        Err(PackageError::Decompression(DecompressionError::SizeMismatch {
            expected: 100_001,
            actual: 100_000
        }))
    );
    assert_eq!(
        inflate_exact(&[], 0),
        Err(PackageError::Decompression(DecompressionError::Corrupt))
    );
    let empty = compress_to_vec_zlib(&[], 6);
    assert_eq!(inflate_exact(&empty, 0), Ok(vec![]));
}

#[test]
fn inflate_exact_rejects_raw_deflate_without_zlib_frame() {
    let raw = miniz_oxide::deflate::compress_to_vec(b"0123456789", 6);
    assert_eq!(
        inflate_exact(&raw, 10),
        Err(PackageError::Decompression(DecompressionError::Corrupt))
    );
}

#[test]
fn check_payload_maps_every_outcome() {
    let corrupt = Err(PackageError::Decompression(DecompressionError::Corrupt));
    assert_eq!(check_payload(Ok(vec![1, 2, 3]), 3), Ok(vec![1, 2, 3]));
    assert_eq!(check_payload(Ok(vec![]), 0), Ok(vec![]));
    assert_eq!(
        check_payload(Ok(vec![1, 2, 3]), 4),
        Err(PackageError::Decompression(DecompressionError::SizeMismatch {
            expected: 4,
            actual: 3
        }))
    );
    assert_eq!(
        check_payload(Ok(vec![1, 2, 3]), 2),
        Err(PackageError::Decompression(DecompressionError::SizeMismatch {
            expected: 2,
            actual: 3
        }))
    );
    assert_eq!(
        check_payload(Err(InflateStatus::HasMoreOutput), 3),
        Err(PackageError::Decompression(DecompressionError::LimitExceeded))
    );
    assert_eq!(check_payload(Err(InflateStatus::Failed), 3), corrupt);
    assert_eq!(check_payload(Err(InflateStatus::FailedCannotMakeProgress), 3), corrupt);
    assert_eq!(check_payload(Err(InflateStatus::Adler32Mismatch), 3), corrupt);
    assert_eq!(check_payload(Err(InflateStatus::BadParam), 3), corrupt);
    assert_eq!(check_payload(Err(InflateStatus::NeedsMoreInput), 3), corrupt);
    assert_eq!(check_payload(Err(InflateStatus::Done), 3), corrupt);
    assert_eq!(check_payload(Err(InflateStatus::Unrecognized), 3), corrupt);
}
