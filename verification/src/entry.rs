//! Entries, the records kept of them, and the bytes of a whole archive as a
//! function of the entries written to it.

use crate::archive::crc32;
use crate::layout::{
    descriptor, local_entry, local_header, trailer, FileRecord, FileStamp, DESCRIPTOR_LENGTH,
    LOCAL_HEADER_BASE,
};
use vstd::bytes::{lemma_auto_spec_u16_to_from_le_bytes, lemma_auto_spec_u32_to_from_le_bytes};
use vstd::prelude::*;
use vstd::utf8::encode_utf8;

verus! {

/// One item as the container sees it, ready to be written.
#[derive(Debug, Clone)]
pub struct Entry {
    /// The entry's name, unique within the archive.
    pub name: String,
    /// The bytes to store.
    pub payload: Vec<u8>,
    /// Whether the payload went through the compression stage.
    pub compressed: bool,
    /// The date and time written beside the entry.
    pub modified: FileStamp,
}

/// An entry as plain values.
pub struct EntryView {
    pub name: Seq<char>,
    pub payload: Seq<u8>,
    pub compressed: bool,
    pub modified: FileStamp,
}

impl View for Entry {
    type V = EntryView;

    open spec fn view(&self) -> EntryView {
        EntryView {
            name: self.name@,
            payload: self.payload@,
            compressed: self.compressed,
            modified: self.modified,
        }
    }
}

/// What the encoder keeps of an entry once its bytes are written.
#[derive(Debug, Clone)]
pub struct DirectoryRecord {
    pub name: String,
    pub crc32: u32,
    /// The number of bytes stored in the container.
    pub compressed_size: u64,
    /// The number of bytes that extraction yields: entries are stored as they
    /// are, so this equals `compressed_size`.
    pub uncompressed_size: u64,
    pub local_header_offset: u64,
    pub modified: FileStamp,
}

impl View for DirectoryRecord {
    type V = FileRecord;

    open spec fn view(&self) -> FileRecord {
        FileRecord {
            name: encode_utf8(self.name@),
            size: self.compressed_size as nat,
            crc: self.crc32,
            offset: self.local_header_offset as nat,
            date: self.modified.dos_date(),
            time: self.modified.dos_time(),
        }
    }
}

/// The bytes that writing one entry emits.
pub open spec fn entry_bytes(entry: EntryView) -> Seq<u8> {
    local_entry(
        encode_utf8(entry.name),
        entry.modified.dos_date(),
        entry.modified.dos_time(),
        crc32(entry.payload),
        entry.payload,
    )
}

/// The record kept of an entry whose local header starts at `offset`.
pub open spec fn entry_record(entry: EntryView, offset: nat) -> FileRecord {
    FileRecord {
        name: encode_utf8(entry.name),
        size: entry.payload.len(),
        crc: crc32(entry.payload),
        offset,
        date: entry.modified.dos_date(),
        time: entry.modified.dos_time(),
    }
}

/// The bytes emitted for a sequence of entries, before the directory.
pub open spec fn archive_body(entries: Seq<EntryView>) -> Seq<u8>
    decreases entries.len(),
{
    if entries.len() == 0 {
        Seq::empty()
    } else {
        archive_body(entries.drop_last()) + entry_bytes(entries.last())
    }
}

/// The records kept for a sequence of entries: each starts where the bytes
/// of those before it end.
pub open spec fn directory_records(entries: Seq<EntryView>) -> Seq<FileRecord>
    decreases entries.len(),
{
    if entries.len() == 0 {
        Seq::empty()
    } else {
        directory_records(entries.drop_last()).push(
            entry_record(entries.last(), archive_body(entries.drop_last()).len()),
        )
    }
}

/// The finished archive of a sequence of entries written in that order.
#[verifier::opaque]
pub open spec fn archive_image(entries: Seq<EntryView>) -> Seq<u8> {
    archive_body(entries) + trailer(directory_records(entries), archive_body(entries).len())
}

/// The number of bytes that one entry adds to the container.
pub open spec fn entry_length(entry: EntryView) -> nat {
    LOCAL_HEADER_BASE as nat + encode_utf8(entry.name).len() + entry.payload.len()
        + DESCRIPTOR_LENGTH as nat
}

/// An entry's bytes are its 30-byte header, its name, its payload and its
/// 16-byte descriptor.
pub proof fn lemma_entry_length(entry: EntryView)
    ensures
        entry_bytes(entry).len() == entry_length(entry),
        local_header(
            encode_utf8(entry.name),
            entry.modified.dos_date(),
            entry.modified.dos_time(),
        ).len() == 30 + encode_utf8(entry.name).len(),
        descriptor(crc32(entry.payload), entry.payload.len()).len() == 16,
{
    reveal(local_header);
    reveal(descriptor);
    lemma_auto_spec_u16_to_from_le_bytes();
    lemma_auto_spec_u32_to_from_le_bytes();
}

/// Writing one more entry appends its bytes and its record.
pub proof fn lemma_push_entry(entries: Seq<EntryView>, entry: EntryView)
    ensures
        archive_body(entries.push(entry)) == archive_body(entries) + entry_bytes(entry),
        directory_records(entries.push(entry)) == directory_records(entries).push(
            entry_record(entry, archive_body(entries).len()),
        ),
{
    assert(entries.push(entry).drop_last() =~= entries);
    assert(entries.push(entry).last() == entry);
}

/// There is one record per entry.
pub proof fn lemma_record_count(entries: Seq<EntryView>)
    ensures
        directory_records(entries).len() == entries.len(),
    decreases entries.len(),
{
    if entries.len() > 0 {
        lemma_record_count(entries.drop_last());
    }
}

/// The first `k` entries are written before the others: their bytes open
/// the body.
pub proof fn lemma_body_prefix(entries: Seq<EntryView>, k: int)
    requires
        0 <= k <= entries.len(),
    ensures
        archive_body(entries.take(k)).len() <= archive_body(entries).len(),
        archive_body(entries).subrange(0, archive_body(entries.take(k)).len() as int)
            == archive_body(entries.take(k)),
    decreases entries.len(),
{
    if k == entries.len() {
        assert(entries.take(k) =~= entries);
        assert(archive_body(entries).subrange(0, archive_body(entries).len() as int)
            =~= archive_body(entries));
    } else {
        lemma_body_prefix(entries.drop_last(), k);
        assert(entries.drop_last().take(k) =~= entries.take(k));
        let shorter = archive_body(entries.drop_last());
        let cut = archive_body(entries.take(k)).len() as int;
        assert(archive_body(entries).subrange(0, cut) =~= shorter.subrange(0, cut));
    }
}

/// The record of the entry at position `i` says that it starts where the
/// entries before it end.
pub proof fn lemma_record_at(entries: Seq<EntryView>, i: int)
    requires
        0 <= i < entries.len(),
    ensures
        directory_records(entries).len() == entries.len(),
        directory_records(entries)[i] == entry_record(
            entries[i],
            archive_body(entries.take(i)).len(),
        ),
    decreases entries.len(),
{
    lemma_record_count(entries);
    lemma_record_count(entries.drop_last());
    if i == entries.len() - 1 {
        assert(entries.take(i) =~= entries.drop_last());
    } else {
        lemma_record_at(entries.drop_last(), i);
        assert(entries.drop_last().take(i) =~= entries.take(i));
    }
}

/// The bytes of the entry at position `i` stand in the body at the offset
/// that its record holds.
pub proof fn lemma_entry_in_body(entries: Seq<EntryView>, i: int)
    requires
        0 <= i < entries.len(),
    ensures
        archive_body(entries.take(i)).len() + entry_length(entries[i]) <= archive_body(
            entries,
        ).len(),
        archive_body(entries).subrange(
            archive_body(entries.take(i)).len() as int,
            (archive_body(entries.take(i)).len() + entry_length(entries[i])) as int,
        ) == entry_bytes(entries[i]),
{
    lemma_body_prefix(entries, i + 1);
    lemma_entry_length(entries[i]);
    let upto = entries.take(i + 1);
    assert(upto.drop_last() =~= entries.take(i));
    assert(upto.last() == entries[i]);
    let start = archive_body(entries.take(i)).len() as int;
    let end = start + entry_length(entries[i]);
    assert(archive_body(upto) == archive_body(entries.take(i)) + entry_bytes(entries[i]));
    assert(archive_body(entries).subrange(start, end) =~= archive_body(entries).subrange(
        0,
        end,
    ).subrange(start, end));
    assert(archive_body(upto).subrange(start, end) =~= entry_bytes(entries[i]));
}

} // verus!
