use document_export::archive::Encoder;
use document_export::entry::Entry;
use document_export::error::{reaction, ExportError, Reaction};
use document_export::layout::FileStamp;

fn entry(name: &str, payload: &[u8], modified: FileStamp) -> Entry {
    Entry { name: String::from(name), payload: payload.to_vec(), compressed: false, modified }
}

#[test]
fn new_encoder_has_written_nothing() {
    let encoder = Encoder::new();
    assert_eq!(encoder.entry_count(), 0);
    assert_eq!(encoder.cumulative_offset(), 0);
    assert!(encoder.entries().is_empty());
    assert!(!encoder.has_failed());
}

#[test]
fn append_keeps_a_record_and_advances_the_offset() {
    let mut encoder = Encoder::new();
    let first = encoder.append(&entry("a.txt", b"Invoice a", FileStamp::Zero)).unwrap();
    assert_eq!(first.name, "a.txt");
    assert_eq!(first.compressed_size, 9);
    assert_eq!(first.uncompressed_size, 9);
    assert_eq!(first.local_header_offset, 0);
    assert_eq!(first.modified, FileStamp::Zero);
    assert_eq!(encoder.cumulative_offset(), 60);
    let second = encoder.append(&entry("b", b"", FileStamp::Zero)).unwrap();
    assert_eq!(second.local_header_offset, 60);
    assert_eq!(second.compressed_size, 0);
    assert_eq!(encoder.cumulative_offset(), 60 + 47);
    assert_eq!(encoder.entry_count(), 2);
    assert_eq!(encoder.entries()[0].name, "a.txt");
    assert_eq!(encoder.entries()[1].name, "b");
    assert_eq!(encoder.entries()[1].local_header_offset, 60);
    assert!(!encoder.has_failed());
}

#[test]
fn record_holds_the_checksum_of_the_payload() {
    let mut encoder = Encoder::new();
    let record = encoder.append(&entry("check", b"123456789", FileStamp::Zero)).unwrap();
    assert_eq!(record.crc32, 0xcbf4_3926);
    let empty = encoder.append(&entry("empty", b"", FileStamp::Zero)).unwrap();
    assert_eq!(empty.crc32, 0);
}

#[test]
fn finished_archive_has_the_documented_layout() {
    let stamp =
        FileStamp::Custom { year: 2024, month: 5, day: 17, hour: 13, minute: 45, second: 58 };
    let mut encoder = Encoder::new();
    encoder.append(&entry("n", b"123456789", stamp)).unwrap();
    let bytes = encoder.finish().unwrap();
    let date = [0xb1, 0x58];
    let time = [0xbd, 0x6d];
    let mut expected: Vec<u8> = Vec::new();
    // Local header.
    expected.extend_from_slice(&[0x50, 0x4b, 0x03, 0x04, 10, 0, 0x08, 0x08, 0, 0]);
    expected.extend_from_slice(&time);
    expected.extend_from_slice(&date);
    expected.extend_from_slice(&[0u8; 12]);
    expected.extend_from_slice(&[1, 0, 0, 0]);
    expected.extend_from_slice(b"n");
    // Stored bytes and descriptor.
    expected.extend_from_slice(b"123456789");
    expected.extend_from_slice(&[0x50, 0x4b, 0x07, 0x08, 0x26, 0x39, 0xf4, 0xcb]);
    expected.extend_from_slice(&[9, 0, 0, 0, 9, 0, 0, 0]);
    // Central header.
    expected.extend_from_slice(&[0x50, 0x4b, 0x01, 0x02, 0x1e, 0x03, 10, 0, 0x08, 0x08, 0, 0]);
    expected.extend_from_slice(&time);
    expected.extend_from_slice(&date);
    expected.extend_from_slice(&[0x26, 0x39, 0xf4, 0xcb, 9, 0, 0, 0, 9, 0, 0, 0]);
    expected.extend_from_slice(&[1, 0, 0, 0, 0, 0, 0, 0, 0, 0]);
    expected.extend_from_slice(&[0, 0, 0xa4, 0x81]);
    expected.extend_from_slice(&[0, 0, 0, 0]);
    expected.extend_from_slice(b"n");
    // End record.
    expected.extend_from_slice(&[0x50, 0x4b, 0x05, 0x06, 0, 0, 0, 0, 1, 0, 1, 0]);
    expected.extend_from_slice(&[47, 0, 0, 0, 56, 0, 0, 0, 0, 0]);
    assert_eq!(bytes, expected);
}

#[test]
fn zero_stamp_writes_zero_date_and_time() {
    let mut encoder = Encoder::new();
    encoder.append(&entry("n", b"x", FileStamp::Zero)).unwrap();
    let bytes = encoder.finish().unwrap();
    assert_eq!(&bytes[10..14], &[0, 0, 0, 0]);
}

#[test]
fn years_before_1980_count_as_1980() {
    let stamp = FileStamp::Custom { year: 1970, month: 1, day: 1, hour: 0, minute: 0, second: 1 };
    let mut encoder = Encoder::new();
    encoder.append(&entry("n", b"x", stamp)).unwrap();
    let bytes = encoder.finish().unwrap();
    assert_eq!(&bytes[10..12], &[0, 0]);
    assert_eq!(&bytes[12..14], &[0x21, 0]);
}

#[test]
fn finishing_without_entries_gives_the_end_record() {
    let bytes = Encoder::new().finish().unwrap();
    assert_eq!(bytes.len(), 22);
    assert_eq!(&bytes[..4], &[0x50, 0x4b, 0x05, 0x06]);
}

#[test]
fn each_failure_has_its_reaction() {
    assert_eq!(reaction(ExportError::PerItemFailure), Reaction::SkipItem);
    assert_eq!(reaction(ExportError::WriteFailure), Reaction::AbortStream);
    assert_eq!(reaction(ExportError::FinalizationRaceFailure), Reaction::SkipFinalization);
    assert_eq!(reaction(ExportError::SourceFailure), Reaction::EmptyExport);
}

#[test]
fn name_length_wraps_beyond_sixteen_bits() {
    let name = "n".repeat(65_536 + 5);
    let mut encoder = Encoder::new();
    let record = encoder.append(&entry(&name, b"x", FileStamp::Zero)).unwrap();
    assert_eq!(record.name.len(), 65_541);
    assert_eq!(encoder.cumulative_offset(), 30 + 65_541 + 1 + 16);
    let bytes = encoder.finish().unwrap();
    assert_eq!(&bytes[26..28], &[5, 0]);
    assert_eq!(&bytes[30..30 + 65_541], name.as_bytes());
}

#[test]
fn kept_records_describe_the_written_entries() {
    let stamp = FileStamp::Custom { year: 2020, month: 2, day: 29, hour: 1, minute: 2, second: 3 };
    let mut encoder = Encoder::new();
    encoder.append(&entry("first", b"12345", stamp)).unwrap();
    encoder.append(&entry("second", b"", FileStamp::Zero)).unwrap();
    let records = encoder.entries();
    assert_eq!(records.len(), 2);
    assert_eq!(records[0].name, "first");
    assert_eq!(records[0].modified, stamp);
    assert_eq!(records[0].compressed_size, 5);
    assert_eq!(records[0].uncompressed_size, 5);
    assert_eq!(records[0].crc32, crc32fast::hash(b"12345"));
    assert_eq!(records[1].name, "second");
    assert_eq!(records[1].modified, FileStamp::Zero);
    assert_eq!(records[1].uncompressed_size, 0);
    assert_eq!(records[1].local_header_offset, 30 + 5 + 5 + 16);
}

#[test]
fn writes_into_memory_succeed() {
    let mut encoder = Encoder::new();
    for n in 0..100 {
        assert!(encoder.append(&entry(&format!("{n}"), &[n as u8; 100], FileStamp::Zero)).is_ok());
        assert!(!encoder.has_failed());
    }
    assert!(encoder.finish().is_ok());
}
