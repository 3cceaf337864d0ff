//! How a reader finds the entries of a finished archive: from the end record
//! to the central directory, and from each central header to the local
//! header and the stored bytes. Everything here is a spec function or a
//! proof; it says what the archives of this library mean to those who read
//! them.

use crate::archive::crc32;
use crate::entry::{
    archive_body, archive_image, directory_records, entry_bytes, entry_length,
    lemma_entry_in_body, lemma_entry_length, lemma_record_at, lemma_record_count, EntryView,
};
use crate::layout::{
    central_directory, central_header, end_record, field16, field32, local_header, low16, low32,
    FileRecord, CENTRAL_HEADER_BASE, END_RECORD_LENGTH, LOCAL_HEADER_BASE,
};
use vstd::bytes::{
    lemma_auto_spec_u16_to_from_le_bytes, lemma_auto_spec_u32_to_from_le_bytes,
    spec_u16_to_le_bytes, spec_u32_to_le_bytes,
};
use vstd::prelude::*;
use vstd::utf8::encode_utf8;

verus! {

/// The entry count that the end record of `image` declares.
pub open spec fn declared_entry_count(image: Seq<u8>) -> u16 {
    field16(image, image.len() - END_RECORD_LENGTH + 10)
}

/// The length of the central directory that the end record declares.
pub open spec fn declared_directory_length(image: Seq<u8>) -> u32 {
    field32(image, image.len() - END_RECORD_LENGTH + 12)
}

/// The offset of the central directory that the end record declares.
pub open spec fn declared_directory_offset(image: Seq<u8>) -> u32 {
    field32(image, image.len() - END_RECORD_LENGTH + 16)
}

/// Where the stored bytes of an entry with this record start: after its
/// local header and name.
pub open spec fn data_start(record: FileRecord) -> int {
    (record.offset + LOCAL_HEADER_BASE + record.name.len()) as int
}

/// The bytes that `image` stores for an entry with this record.
pub open spec fn stored_bytes(image: Seq<u8>, record: FileRecord) -> Seq<u8> {
    image.subrange(data_start(record), data_start(record) + record.size)
}

/// The checksum that the descriptor after an entry's bytes declares.
pub open spec fn declared_checksum(image: Seq<u8>, record: FileRecord) -> u32 {
    field32(image, data_start(record) + record.size + 4)
}

/// What a reader finds of one entry.
pub struct ReadEntry {
    /// The name as bytes.
    pub name: Seq<u8>,
    /// The checksum that the directory declares.
    pub crc: u32,
    /// The bytes extracted.
    pub data: Seq<u8>,
}

/// The length of the central header that starts at `at`: 46 bytes, the name,
/// the extra field and the comment.
pub open spec fn central_header_length(image: Seq<u8>, at: int) -> int {
    CENTRAL_HEADER_BASE + field16(image, at + 28) + field16(image, at + 30) + field16(
        image,
        at + 32,
    )
}

/// Where the stored bytes start of the entry whose local header starts at
/// `at`: after 30 bytes, the name and the extra field.
pub open spec fn local_data_start(image: Seq<u8>, at: int) -> int {
    at + LOCAL_HEADER_BASE + field16(image, at + 26) + field16(image, at + 28)
}

/// The entry that the central header at `at` describes.
#[verifier::opaque]
pub open spec fn read_entry(image: Seq<u8>, at: int) -> ReadEntry {
    let start = local_data_start(image, field32(image, at + 42) as int);
    ReadEntry {
        name: image.subrange(
            at + CENTRAL_HEADER_BASE,
            at + CENTRAL_HEADER_BASE + field16(image, at + 28),
        ),
        crc: field32(image, at + 16),
        data: image.subrange(start, start + field32(image, at + 20)),
    }
}

/// The entries that `count` central headers describe, the first at `at`.
pub open spec fn read_entries(image: Seq<u8>, at: int, count: nat) -> Seq<ReadEntry>
    decreases count,
{
    if count == 0 {
        Seq::empty()
    } else {
        seq![read_entry(image, at)] + read_entries(
            image,
            at + central_header_length(image, at),
            (count - 1) as nat,
        )
    }
}

/// The entries of an archive, as its end record and directory give them.
#[verifier::opaque]
pub open spec fn read_archive(image: Seq<u8>) -> Seq<ReadEntry> {
    read_entries(
        image,
        declared_directory_offset(image) as int,
        declared_entry_count(image) as nat,
    )
}

/// What a reader should find of an entry that was written.
pub open spec fn as_read(entry: EntryView) -> ReadEntry {
    ReadEntry { name: encode_utf8(entry.name), crc: crc32(entry.payload), data: entry.payload }
}

/// Whether the entries fit the fields of the format: at most 65,535 entries,
/// names of at most 65,535 bytes, and an archive body of less than 4 GiB.
pub open spec fn fits_format(entries: Seq<EntryView>) -> bool {
    &&& entries.len() <= 0xffff
    &&& archive_body(entries).len() <= 0xffff_ffff
    &&& forall|i: int|
        0 <= i < entries.len() ==> encode_utf8((#[trigger] entries[i]).name).len() <= 0xffff
}

/// Where the central header of the entry at position `k` starts in the
/// finished archive of `entries`.
pub open spec fn header_position(entries: Seq<EntryView>, k: int) -> int {
    (archive_body(entries).len() + central_directory(
        directory_records(entries).take(k),
    ).len()) as int
}

/// A finished archive is its body, its directory and 22 bytes of end record,
/// whose fields hold the count, the directory's length and the body's
/// length, each in the width of its field.
pub proof fn lemma_end_record(entries: Seq<EntryView>)
    ensures
        archive_image(entries).len() == archive_body(entries).len() + central_directory(
            directory_records(entries),
        ).len() + 22,
        archive_image(entries).subrange(
            archive_body(entries).len() as int,
            archive_image(entries).len() - 22,
        ) == central_directory(directory_records(entries)),
        declared_entry_count(archive_image(entries)) == low16(entries.len()),
        declared_directory_length(archive_image(entries)) == low32(
            central_directory(directory_records(entries)).len(),
        ),
        declared_directory_offset(archive_image(entries)) == low32(archive_body(entries).len()),
{
    reveal(archive_image);
    reveal(end_record);
    lemma_auto_spec_u16_to_from_le_bytes();
    lemma_auto_spec_u32_to_from_le_bytes();
    lemma_record_count(entries);
    let records = directory_records(entries);
    let body = archive_body(entries);
    let directory = central_directory(records);
    let end = end_record(records.len(), directory.len(), body.len());
    let image = archive_image(entries);
    assert(image == body + (directory + end));
    assert(end.len() == 22);
    let base = image.len() - 22;
    assert(image.subrange(body.len() as int, base) =~= directory);
    assert(image.subrange(base + 10, base + 12) =~= end.subrange(10, 12));
    assert(end.subrange(10, 12) =~= spec_u16_to_le_bytes(low16(records.len())));
    assert(image.subrange(base + 12, base + 16) =~= end.subrange(12, 16));
    assert(end.subrange(12, 16) =~= spec_u32_to_le_bytes(low32(directory.len())));
    assert(image.subrange(base + 16, base + 20) =~= end.subrange(16, 20));
    assert(end.subrange(16, 20) =~= spec_u32_to_le_bytes(low32(body.len())));
}

/// The header of the record at position `k` stands in the directory after
/// the headers of the records before it.
pub proof fn lemma_directory_prefix(records: Seq<FileRecord>, k: int)
    requires
        0 <= k < records.len(),
    ensures
        central_directory(records.take(k)).len() + central_header(records[k]).len()
            <= central_directory(records).len(),
        central_directory(records).subrange(
            central_directory(records.take(k)).len() as int,
            (central_directory(records.take(k)).len() + central_header(records[k]).len()) as int,
        ) == central_header(records[k]),
    decreases records.len(),
{
    let shorter = records.drop_last();
    if k == records.len() - 1 {
        assert(records.take(k) =~= shorter);
        assert(central_directory(records).subrange(
            central_directory(shorter).len() as int,
            (central_directory(shorter).len() + central_header(records[k]).len()) as int,
        ) =~= central_header(records[k]));
    } else {
        lemma_directory_prefix(shorter, k);
        assert(shorter.take(k) =~= records.take(k));
        assert(shorter[k] == records[k]);
        let from = central_directory(records.take(k)).len() as int;
        let to = from + central_header(records[k]).len();
        assert(central_directory(records).subrange(from, to) =~= central_directory(
            shorter,
        ).subrange(from, to));
    }
}

/// The directory of the first `k + 1` records is that of the first `k` and
/// the header of the next.
pub proof fn lemma_directory_step(records: Seq<FileRecord>, k: int)
    requires
        0 <= k < records.len(),
    ensures
        central_directory(records.take(k + 1)) == central_directory(records.take(k))
            + central_header(records[k]),
{
    assert(records.take(k + 1).drop_last() =~= records.take(k));
    assert(records.take(k + 1).last() == records[k]);
}

/// The fields that a reader takes from a central header.
pub proof fn lemma_central_header_fields(image: Seq<u8>, at: int, record: FileRecord)
    requires
        0 <= at,
        at + central_header(record).len() <= image.len(),
        image.subrange(at, at + central_header(record).len()) == central_header(record),
        record.name.len() <= 0xffff,
        record.size <= 0xffff_ffff,
        record.offset <= 0xffff_ffff,
    ensures
        central_header(record).len() == 46 + record.name.len(),
        central_header_length(image, at) == 46 + record.name.len(),
        field32(image, at + 16) == record.crc,
        field32(image, at + 20) == record.size,
        field32(image, at + 42) == record.offset,
        field16(image, at + 28) == record.name.len(),
        image.subrange(at + 46, at + 46 + record.name.len()) == record.name,
{
    reveal(central_header);
    lemma_auto_spec_u16_to_from_le_bytes();
    lemma_auto_spec_u32_to_from_le_bytes();
    let header = central_header(record);
    let length = header.len() as int;
    assert(length == 46 + record.name.len());
    let window = image.subrange(at, at + length);
    assert(image.subrange(at + 16, at + 20) =~= window.subrange(16, 20));
    assert(header.subrange(16, 20) =~= spec_u32_to_le_bytes(record.crc));
    assert(image.subrange(at + 20, at + 24) =~= window.subrange(20, 24));
    assert(header.subrange(20, 24) =~= spec_u32_to_le_bytes(record.size as u32));
    assert(image.subrange(at + 28, at + 30) =~= window.subrange(28, 30));
    assert(header.subrange(28, 30) =~= spec_u16_to_le_bytes(record.name.len() as u16));
    assert(image.subrange(at + 30, at + 32) =~= window.subrange(30, 32));
    assert(header.subrange(30, 32) =~= spec_u16_to_le_bytes(0));
    assert(image.subrange(at + 32, at + 34) =~= window.subrange(32, 34));
    assert(header.subrange(32, 34) =~= spec_u16_to_le_bytes(0));
    assert(image.subrange(at + 42, at + 46) =~= window.subrange(42, 46));
    assert(header.subrange(42, 46) =~= spec_u32_to_le_bytes(record.offset as u32));
    assert(image.subrange(at + 46, at + 46 + record.name.len()) =~= window.subrange(46, length));
    assert(header.subrange(46, length) =~= record.name);
}

/// The stored bytes of a written entry start after its local header and
/// name, where a reader looks for them.
pub proof fn lemma_local_header_fields(image: Seq<u8>, at: int, entry: EntryView)
    requires
        0 <= at,
        at + entry_length(entry) <= image.len(),
        image.subrange(at, at + entry_length(entry)) == entry_bytes(entry),
        encode_utf8(entry.name).len() <= 0xffff,
    ensures
        local_data_start(image, at) == at + 30 + encode_utf8(entry.name).len(),
        image.subrange(
            local_data_start(image, at),
            local_data_start(image, at) + entry.payload.len(),
        ) == entry.payload,
{
    reveal(local_header);
    lemma_auto_spec_u16_to_from_le_bytes();
    lemma_auto_spec_u32_to_from_le_bytes();
    lemma_entry_length(entry);
    let name = encode_utf8(entry.name);
    let bytes = entry_bytes(entry);
    let length = bytes.len() as int;
    let window = image.subrange(at, at + length);
    let skip = (30 + name.len()) as int;
    let size = entry.payload.len() as int;
    assert(image.subrange(at + 26, at + 28) =~= window.subrange(26, 28));
    assert(bytes.subrange(26, 28) =~= spec_u16_to_le_bytes(name.len() as u16));
    assert(image.subrange(at + 28, at + 30) =~= window.subrange(28, 30));
    assert(bytes.subrange(28, 30) =~= spec_u16_to_le_bytes(0));
    assert(image.subrange(at + skip, at + skip + size) =~= window.subrange(skip, skip + size));
    assert(bytes.subrange(skip, skip + size) =~= entry.payload);
}

/// The central header at position `k` of a finished archive describes the
/// entry written at position `k`.
pub proof fn lemma_read_entry_at(entries: Seq<EntryView>, k: int)
    requires
        fits_format(entries),
        0 <= k < entries.len(),
    ensures
        read_entry(archive_image(entries), header_position(entries, k)) == as_read(entries[k]),
        central_header_length(archive_image(entries), header_position(entries, k))
            == central_header(directory_records(entries)[k]).len(),
{
    reveal(read_entry);
    let image = archive_image(entries);
    let body = archive_body(entries);
    let records = directory_records(entries);
    let directory = central_directory(records);
    lemma_end_record(entries);
    lemma_record_at(entries, k);
    lemma_entry_in_body(entries, k);
    lemma_directory_prefix(records, k);
    lemma_entry_length(entries[k]);
    let record = records[k];
    let header = central_header(record);
    let from = central_directory(records.take(k)).len() as int;
    let at = body.len() + from;
    assert(image.subrange(at, at + header.len()) =~= directory.subrange(
        from,
        from + header.len(),
    ));
    assert(record.size <= body.len());
    assert(record.offset <= body.len());
    lemma_central_header_fields(image, at, record);
    let start = record.offset as int;
    let end = start + entry_length(entries[k]);
    assert(image.subrange(start, end) =~= body.subrange(start, end)) by {
        reveal(archive_image);
    }
    lemma_local_header_fields(image, start, entries[k]);
}

/// Reading the central headers from position `k` on gives the entries
/// written from position `k` on.
pub proof fn lemma_read_from(entries: Seq<EntryView>, k: int)
    requires
        fits_format(entries),
        0 <= k <= entries.len(),
    ensures
        read_entries(
            archive_image(entries),
            header_position(entries, k),
            (entries.len() - k) as nat,
        ) == entries.skip(k).map_values(|entry: EntryView| as_read(entry)),
    decreases entries.len() - k,
{
    let image = archive_image(entries);
    let records = directory_records(entries);
    let at = header_position(entries, k);
    let expected = entries.skip(k).map_values(|entry: EntryView| as_read(entry));
    lemma_record_count(entries);
    if k == entries.len() {
        assert(read_entries(image, at, 0) =~= expected);
    } else {
        let count = (entries.len() - k) as nat;
        let next = at + central_header_length(image, at);
        let rest = entries.skip(k + 1).map_values(|entry: EntryView| as_read(entry));
        assert(next == header_position(entries, k + 1)) by {
            lemma_read_entry_at(entries, k);
            lemma_directory_step(records, k);
        }
        assert(read_entry(image, at) == as_read(entries[k])) by {
            lemma_read_entry_at(entries, k);
        }
        assert(read_entries(image, next, (count - 1) as nat) == rest) by {
            lemma_read_from(entries, k + 1);
        }
        assert(read_entries(image, at, count) == seq![read_entry(image, at)] + read_entries(
            image,
            next,
            (count - 1) as nat,
        ));
        assert(expected =~= seq![as_read(entries[k])] + rest);
    }
}

/// Reading a finished archive whose entries fit the format gives the
/// entries written, in write order.
pub proof fn lemma_read_archive(entries: Seq<EntryView>)
    requires
        fits_format(entries),
    ensures
        read_archive(archive_image(entries)) == entries.map_values(
            |entry: EntryView| as_read(entry),
        ),
{
    reveal(read_archive);
    lemma_end_record(entries);
    lemma_read_from(entries, 0);
    assert(directory_records(entries).take(0) =~= Seq::<FileRecord>::empty());
    assert(entries.skip(0) =~= entries);
}

} // verus!
