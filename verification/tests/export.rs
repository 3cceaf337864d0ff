use std::io::Read;

use document_export::data::Document;
use document_export::entry::Entry;
use document_export::layout::FileStamp;
use document_export::payload::{gzip_entry, invoice, text_entry};
use document_export::route::{
    gzip_entries, prepare_gzip, prepare_text, stream, stream_zip, stream_zip_and_gzip,
    text_entries, write_archive, ExportMode, RELAY_CAPACITY,
};

fn document(id: &str, name: &str) -> Document {
    Document { id: String::from(id), name: String::from(name) }
}

fn two_documents() -> Vec<Document> {
    vec![document("a", "Name 0"), document("b", "Name 1")]
}

fn open(bytes: &[u8]) -> zip::ZipArchive<std::io::Cursor<Vec<u8>>> {
    zip::ZipArchive::new(std::io::Cursor::new(bytes.to_vec())).unwrap()
}

fn extract(bytes: &[u8], name: &str) -> Vec<u8> {
    let mut archive = open(bytes);
    let mut file = archive.by_name(name).unwrap();
    let mut content = Vec::new();
    file.read_to_end(&mut content).unwrap();
    content
}

fn gunzip(stored: &[u8]) -> Vec<u8> {
    let mut decoder = flate2::read::GzDecoder::new(stored);
    let mut plain = Vec::new();
    decoder.read_to_end(&mut plain).unwrap();
    plain
}

fn u16_at(bytes: &[u8], at: usize) -> u16 {
    u16::from_le_bytes([bytes[at], bytes[at + 1]])
}

fn u32_at(bytes: &[u8], at: usize) -> u32 {
    u32::from_le_bytes([bytes[at], bytes[at + 1], bytes[at + 2], bytes[at + 3]])
}

#[test]
fn raw_stream_concatenates_the_invoices() {
    assert_eq!(stream(&two_documents()), b"Invoice aInvoice b".to_vec());
}

#[test]
fn raw_stream_of_nothing_is_empty() {
    assert_eq!(stream(&Vec::new()), Vec::<u8>::new());
}

#[test]
fn payload_is_the_invoice_line() {
    assert_eq!(invoice(&document("a", "Name 0")), b"Invoice a".to_vec());
    assert_eq!(invoice(&document("", "nameless")), b"Invoice ".to_vec());
}

#[test]
fn payload_depends_on_the_identifier_alone() {
    assert_eq!(invoice(&document("x", "one")), invoice(&document("x", "other")));
}

#[test]
fn zip_holds_one_text_entry_per_document() {
    let bytes = stream_zip(&two_documents()).unwrap();
    let mut archive = open(&bytes);
    assert_eq!(archive.len(), 2);
    assert_eq!(archive.by_index(0).unwrap().name(), "a.txt");
    assert_eq!(archive.by_index(1).unwrap().name(), "b.txt");
    assert_eq!(extract(&bytes, "a.txt"), b"Invoice a".to_vec());
    assert_eq!(extract(&bytes, "b.txt"), b"Invoice b".to_vec());
}

#[test]
fn zip_and_gzip_holds_one_compressed_entry_per_document() {
    let bytes = stream_zip_and_gzip(&two_documents()).unwrap();
    let mut archive = open(&bytes);
    assert_eq!(archive.len(), 2);
    assert_eq!(archive.by_index(0).unwrap().name(), "a.zip");
    assert_eq!(archive.by_index(1).unwrap().name(), "b.zip");
    for (name, text) in [("a.zip", "Invoice a"), ("b.zip", "Invoice b")] {
        let stored = extract(&bytes, name);
        assert_ne!(stored, text.as_bytes().to_vec());
        assert_eq!(gunzip(&stored), text.as_bytes().to_vec());
    }
}

#[test]
fn zip_of_nothing_is_the_end_record_alone() {
    let bytes = stream_zip(&Vec::new()).unwrap();
    let mut expected = vec![0x50, 0x4b, 0x05, 0x06];
    expected.extend_from_slice(&[0u8; 18]);
    assert_eq!(bytes, expected);
    assert_eq!(open(&bytes).len(), 0);
    assert_eq!(stream_zip_and_gzip(&Vec::new()).unwrap(), expected);
}

#[test]
fn end_record_counts_entries_and_bytes_before_the_directory() {
    let bytes = stream_zip(&two_documents()).unwrap();
    // Each entry: 30 bytes of header, 5 of name, 9 of payload, 16 of descriptor.
    let body = 2 * (30 + 5 + 9 + 16);
    let directory = 2 * (46 + 5);
    assert_eq!(bytes.len(), body + directory + 22);
    let end = bytes.len() - 22;
    assert_eq!(u32_at(&bytes, end), 0x0605_4b50);
    assert_eq!(u16_at(&bytes, end + 8), 2);
    assert_eq!(u16_at(&bytes, end + 10), 2);
    assert_eq!(u32_at(&bytes, end + 12), directory as u32);
    assert_eq!(u32_at(&bytes, end + 16), body as u32);
    assert_eq!(u32_at(&bytes, body), 0x0201_4b50);
}

#[test]
fn recorded_checksum_is_that_of_the_extracted_bytes() {
    for bytes in [
        stream_zip(&two_documents()).unwrap(),
        stream_zip_and_gzip(&two_documents()).unwrap(),
    ] {
        let mut archive = open(&bytes);
        for index in 0..archive.len() {
            let mut file = archive.by_index(index).unwrap();
            let mut content = Vec::new();
            file.read_to_end(&mut content).unwrap();
            assert_eq!(file.crc32(), crc32fast::hash(&content));
            assert_eq!(file.size(), content.len() as u64);
            assert_eq!(file.compressed_size(), content.len() as u64);
        }
    }
}

#[test]
fn every_document_round_trips() {
    let documents: Vec<Document> =
        (0..50).map(|n| document(&format!("doc-{n}"), &format!("Name {n}"))).collect();
    let plain = stream_zip(&documents).unwrap();
    let packed = stream_zip_and_gzip(&documents).unwrap();
    assert_eq!(open(&plain).len(), 50);
    assert_eq!(open(&packed).len(), 50);
    for n in 0..50 {
        let text = format!("Invoice doc-{n}").into_bytes();
        assert_eq!(extract(&plain, &format!("doc-{n}.txt")), text);
        assert_eq!(gunzip(&extract(&packed, &format!("doc-{n}.zip"))), text);
    }
}

#[test]
fn names_outside_ascii_are_written_as_utf8() {
    let documents = vec![document("é", "accent")];
    let bytes = stream_zip(&documents).unwrap();
    assert_eq!(u16_at(&bytes, 26), 6);
    assert_eq!(&bytes[30..36], "é.txt".as_bytes());
    assert_eq!(extract(&bytes, "é.txt"), "Invoice é".as_bytes().to_vec());
}

#[test]
fn text_entries_prepare_every_document() {
    let items = text_entries(&two_documents());
    assert_eq!(items.len(), 2);
    let first = items[0].as_ref().unwrap();
    assert_eq!(first.name, "a.txt");
    assert_eq!(first.payload, b"Invoice a".to_vec());
    assert!(!first.compressed);
    let second = items[1].as_ref().unwrap();
    assert_eq!(second.name, "b.txt");
    assert_eq!(second.payload, b"Invoice b".to_vec());
}

#[test]
fn gzip_entries_prepare_compressed_payloads() {
    let items = gzip_entries(&two_documents());
    assert_eq!(items.len(), 2);
    let first = items[0].as_ref().unwrap();
    assert_eq!(first.name, "a.zip");
    assert!(first.compressed);
    assert_eq!(gunzip(&first.payload), b"Invoice a".to_vec());
}

#[test]
fn text_entry_is_named_after_the_identifier() {
    let stamp = FileStamp::Custom { year: 2001, month: 2, day: 3, hour: 4, minute: 5, second: 6 };
    let entry = text_entry(&document("42", "Name 42"), stamp);
    assert_eq!(entry.name, "42.txt");
    assert_eq!(entry.payload, b"Invoice 42".to_vec());
    assert!(!entry.compressed);
    assert_eq!(entry.modified, stamp);
}

#[test]
fn gzip_entry_follows_the_compression_stage() {
    let doc = document("42", "Name 42");
    let made = gzip_entry(&doc, FileStamp::Zero, Some(vec![1, 2, 3])).unwrap();
    assert_eq!(made.name, "42.zip");
    assert_eq!(made.payload, vec![1, 2, 3]);
    assert!(made.compressed);
    assert_eq!(made.modified, FileStamp::Zero);
    assert!(gzip_entry(&doc, FileStamp::Zero, None).is_none());
}

fn plain_entry(name: &str, payload: &[u8]) -> Entry {
    Entry {
        name: String::from(name),
        payload: payload.to_vec(),
        compressed: false,
        modified: FileStamp::Zero,
    }
}

#[test]
fn items_without_an_entry_are_left_out() {
    let items = vec![
        Some(plain_entry("one", b"1")),
        None,
        Some(plain_entry("three", b"333")),
        None,
        None,
    ];
    let bytes = write_archive(&items).unwrap();
    let mut archive = open(&bytes);
    assert_eq!(archive.len(), 2);
    assert_eq!(archive.by_index(0).unwrap().name(), "one");
    assert_eq!(archive.by_index(1).unwrap().name(), "three");
    assert_eq!(extract(&bytes, "three"), b"333".to_vec());
    assert_eq!(u16_at(&bytes, bytes.len() - 12), 2);
}

#[test]
fn archive_of_dropped_items_alone_is_empty_and_valid() {
    let bytes = write_archive(&vec![None, None]).unwrap();
    assert_eq!(bytes.len(), 22);
    assert_eq!(open(&bytes).len(), 0);
}

#[test]
fn archive_is_the_same_for_the_same_entries() {
    let items = vec![Some(plain_entry("one", b"1")), Some(plain_entry("two", b"22"))];
    assert_eq!(write_archive(&items).unwrap(), write_archive(&items).unwrap());
}

#[test]
fn entry_count_wraps_beyond_sixteen_bits() {
    let items: Vec<Option<Entry>> = (0..65_536).map(|_| Some(plain_entry("", b""))).collect();
    let bytes = write_archive(&items).unwrap();
    assert_eq!(bytes.len(), 65_536 * (46 + 46) + 22);
    assert_eq!(u16_at(&bytes, bytes.len() - 12), 0);
    assert_eq!(u32_at(&bytes, bytes.len() - 6), 65_536 * 46);
}

#[test]
fn each_export_has_its_path_and_headers() {
    assert_eq!(ExportMode::Raw.path(), "/stream");
    assert_eq!(ExportMode::Zip.path(), "/stream-zip");
    assert_eq!(ExportMode::ZipAndGzip.path(), "/stream-zip-and-gzip");
    assert_eq!(ExportMode::Raw.content_type(), "text/plain; charset=utf-8");
    assert_eq!(ExportMode::Zip.content_type(), "application/zip");
    assert_eq!(ExportMode::ZipAndGzip.content_type(), "application/zip");
    assert_eq!(ExportMode::Raw.content_disposition(), None);
    let attachment = Some("attachment; filename=\"documents.zip\"");
    assert_eq!(ExportMode::Zip.content_disposition(), attachment);
    assert_eq!(ExportMode::ZipAndGzip.content_disposition(), attachment);
    assert_eq!(RELAY_CAPACITY, 4096);
}

#[test]
fn workers_prepare_one_entry_per_document() {
    let doc = document("7", "Name 7");
    let plain = prepare_text(&doc).unwrap();
    assert_eq!(plain.name, "7.txt");
    assert_eq!(plain.payload, b"Invoice 7".to_vec());
    assert!(!plain.compressed);
    let packed = prepare_gzip(&doc).unwrap();
    assert_eq!(packed.name, "7.zip");
    assert!(packed.compressed);
    assert_eq!(gunzip(&packed.payload), b"Invoice 7".to_vec());
}

#[test]
fn exports_succeed_whatever_the_documents() {
    assert!(stream_zip(&Vec::new()).is_ok());
    assert!(stream_zip_and_gzip(&Vec::new()).is_ok());
    assert!(stream_zip(&two_documents()).is_ok());
    assert!(stream_zip_and_gzip(&two_documents()).is_ok());
    assert!(write_archive(&vec![None, Some(plain_entry("kept", b"k")), None]).is_ok());
}
