//! What holds of every archive this library finishes, stated over its bytes
//! as a reader sees them and proved from the contracts of the encoder.

use crate::archive::crc32;
use crate::compress::{best_outcome, gzip_best};
use crate::data::DocumentView;
use crate::entry::{
    archive_body, archive_image, directory_records, entry_bytes, entry_length,
    lemma_entry_in_body, lemma_entry_length, lemma_record_at, lemma_record_count, EntryView,
};
use crate::layout::{central_directory, descriptor, local_header, low16, low32};
use crate::payload::{gzip_entry_of, invoice_bytes, text_entry_of};
use crate::reading::{
    declared_checksum, declared_directory_length, declared_directory_offset,
    declared_entry_count, fits_format, lemma_end_record, lemma_read_archive, read_archive,
    stored_bytes,
};
use crate::route::{compressible, dropped, is_gzip_selection, is_text_selection, kept};
use vstd::bytes::{lemma_auto_spec_u32_to_from_le_bytes, spec_u32_to_le_bytes};
use vstd::prelude::*;
use vstd::utf8::encode_utf8;

verus! {

/// The end record of a finished archive declares the number of entries
/// written and, as the directory's offset, the number of bytes emitted before
/// the directory; each in the width of its field.
pub proof fn law_end_record_fields(entries: Seq<EntryView>)
    ensures
        declared_entry_count(archive_image(entries)) == low16(entries.len()),
        declared_directory_length(archive_image(entries)) == low32(
            central_directory(directory_records(entries)).len(),
        ),
        declared_directory_offset(archive_image(entries)) == low32(archive_body(entries).len()),
{
    lemma_end_record(entries);
}

/// Directory accounting: where the count fits sixteen bits and the body
/// thirty-two, the end record declares exactly the number of entries written
/// and exactly the number of bytes emitted before the directory begins, and
/// the directory stands between that offset and the end record.
pub proof fn law_directory_accounting(entries: Seq<EntryView>)
    requires
        entries.len() <= 0xffff,
        archive_body(entries).len() <= 0xffff_ffff,
    ensures
        declared_entry_count(archive_image(entries)) == entries.len(),
        declared_directory_offset(archive_image(entries)) == archive_body(entries).len(),
        archive_image(entries).len() == archive_body(entries).len() + central_directory(
            directory_records(entries),
        ).len() + 22,
        archive_image(entries).subrange(
            archive_body(entries).len() as int,
            archive_image(entries).len() - 22,
        ) == central_directory(directory_records(entries)),
{
    lemma_end_record(entries);
}

/// Within the bytes of an entry, the payload follows the header and the
/// name, and the checksum stands four bytes into the descriptor.
proof fn lemma_entry_parts(entry: EntryView)
    ensures
        ({
            let skip = (30 + encode_utf8(entry.name).len()) as int;
            let size = entry.payload.len() as int;
            &&& entry_bytes(entry).len() == skip + size + 16
            &&& entry_bytes(entry).subrange(skip, skip + size) == entry.payload
            &&& entry_bytes(entry).subrange(skip + size + 4, skip + size + 8)
                == spec_u32_to_le_bytes(crc32(entry.payload))
        }),
{
    reveal(descriptor);
    lemma_auto_spec_u32_to_from_le_bytes();
    lemma_entry_length(entry);
    let name = encode_utf8(entry.name);
    let header = local_header(name, entry.modified.dos_date(), entry.modified.dos_time());
    let tail = descriptor(crc32(entry.payload), entry.payload.len());
    let skip = (30 + name.len()) as int;
    let size = entry.payload.len() as int;
    assert(entry_bytes(entry) == header + entry.payload + tail);
    assert(entry_bytes(entry).subrange(skip, skip + size) =~= entry.payload);
    assert(entry_bytes(entry).subrange(skip + size, skip + size + 16) =~= tail);
    assert(tail.subrange(4, 8) =~= spec_u32_to_le_bytes(crc32(entry.payload)));
    assert(entry_bytes(entry).subrange(skip + size + 4, skip + size + 8) =~= tail.subrange(4, 8));
}

/// Checksums: the bytes that a finished archive stores for an entry are the
/// entry's payload, and the checksum recorded for the entry, in its record
/// and in the descriptor after its bytes, is the checksum of those bytes.
pub proof fn law_recorded_checksum(entries: Seq<EntryView>, i: int)
    requires
        0 <= i < entries.len(),
    ensures
        directory_records(entries).len() == entries.len(),
        stored_bytes(archive_image(entries), directory_records(entries)[i]) == entries[i].payload,
        directory_records(entries)[i].crc == crc32(
            stored_bytes(archive_image(entries), directory_records(entries)[i]),
        ),
        declared_checksum(archive_image(entries), directory_records(entries)[i]) == crc32(
            stored_bytes(archive_image(entries), directory_records(entries)[i]),
        ),
{
    lemma_record_at(entries, i);
    lemma_entry_in_body(entries, i);
    lemma_entry_parts(entries[i]);
    lemma_end_record(entries);
    lemma_auto_spec_u32_to_from_le_bytes();
    let entry = entries[i];
    let record = directory_records(entries)[i];
    let image = archive_image(entries);
    let body = archive_body(entries);
    let start = record.offset as int;
    let end = start + entry_length(entry);
    let skip = (30 + encode_utf8(entry.name).len()) as int;
    let size = entry.payload.len() as int;
    let window = image.subrange(start, end);
    assert(window =~= body.subrange(start, end)) by {
        reveal(archive_image);
    }
    assert(window == entry_bytes(entry));
    assert(image.subrange(start + skip, start + skip + size) =~= window.subrange(
        skip,
        skip + size,
    ));
    assert(image.subrange(start + skip + size + 4, start + skip + size + 8) =~= window.subrange(
        skip + size + 4,
        skip + size + 8,
    ));
}

/// Round trip through a reader: where the entries fit the fields of the
/// format, reading a finished archive gives exactly one entry per entry
/// written, in write order, each under its name, with its payload as the
/// extracted bytes and the checksum of the extracted bytes as the declared
/// one.
pub proof fn law_reader_round_trip(entries: Seq<EntryView>)
    requires
        fits_format(entries),
    ensures
        read_archive(archive_image(entries)).len() == entries.len(),
        forall|i: int|
            0 <= i < entries.len() ==> {
                let found = #[trigger] read_archive(archive_image(entries))[i];
                &&& found.name == encode_utf8(entries[i].name)
                &&& found.data == entries[i].payload
                &&& found.crc == crc32(found.data)
            },
{
    lemma_read_archive(entries);
}

/// Every prepared item is either kept or dropped.
pub proof fn lemma_kept_and_dropped(items: Seq<Option<EntryView>>)
    ensures
        kept(items).len() + dropped(items) == items.len(),
    decreases items.len(),
{
    if items.len() > 0 {
        lemma_kept_and_dropped(items.drop_last());
    }
}

/// Every document prepared for a container of plain payloads is kept, in
/// order.
pub proof fn lemma_text_selection_kept(
    documents: Seq<DocumentView>,
    items: Seq<Option<EntryView>>,
)
    requires
        is_text_selection(documents, items),
    ensures
        kept(items).len() == documents.len(),
        forall|i: int| 0 <= i < documents.len() ==> items[i] == Some(#[trigger] kept(items)[i]),
    decreases items.len(),
{
    if items.len() > 0 {
        let shorter = items.drop_last();
        assert(is_text_selection(documents.drop_last(), shorter)) by {
            assert forall|j: int| 0 <= j < documents.drop_last().len() implies ((
            #[trigger] shorter[j]) matches Some(entry) && entry == text_entry_of(
                documents.drop_last()[j],
                entry.modified,
            )) by {
                assert(shorter[j] == items[j]);
            }
        }
        lemma_text_selection_kept(documents.drop_last(), shorter);
        assert(items.last() == items[items.len() - 1]);
        assert forall|i: int| 0 <= i < documents.len() implies items[i] == Some(
            #[trigger] kept(items)[i],
        ) by {
            if i < shorter.len() {
                assert(items[i] == shorter[i]);
            }
        }
    }
}

/// Skip on failure: of `items.len()` prepared items of which `dropped(items)`
/// have no entry, the finished archive holds exactly the others, and where
/// they fit the format a reader finds exactly that many entries and the end
/// record declares that count.
pub proof fn law_skip_on_failure(items: Seq<Option<EntryView>>)
    ensures
        kept(items).len() == items.len() - dropped(items),
        directory_records(kept(items)).len() == items.len() - dropped(items),
        fits_format(kept(items)) ==> {
            &&& read_archive(archive_image(kept(items))).len() == items.len() - dropped(items)
            &&& declared_entry_count(archive_image(kept(items))) == items.len() - dropped(items)
        },
{
    lemma_kept_and_dropped(items);
    lemma_record_count(kept(items));
    lemma_end_record(kept(items));
    if fits_format(kept(items)) {
        lemma_read_archive(kept(items));
    }
}

/// Round trip of the plain export: where the entries fit the format, a
/// reader of the archive of the documents finds one entry per document, in
/// order, named `<id>.txt`, and extracts the document's payload from it.
pub proof fn law_text_round_trip(documents: Seq<DocumentView>, items: Seq<Option<EntryView>>)
    requires
        is_text_selection(documents, items),
        fits_format(kept(items)),
    ensures
        read_archive(archive_image(kept(items))).len() == documents.len(),
        forall|i: int|
            0 <= i < documents.len() ==> {
                let found = #[trigger] read_archive(archive_image(kept(items)))[i];
                &&& found.name == encode_utf8(documents[i].id + ".txt"@)
                &&& found.data == invoice_bytes(documents[i])
                &&& found.crc == crc32(found.data)
            },
{
    lemma_text_selection_kept(documents, items);
    lemma_read_archive(kept(items));
    assert forall|i: int| 0 <= i < documents.len() implies {
        let found = #[trigger] read_archive(archive_image(kept(items)))[i];
        &&& found.name == encode_utf8(documents[i].id + ".txt"@)
        &&& found.data == invoice_bytes(documents[i])
        &&& found.crc == crc32(found.data)
    } by {
        assert(items[i] == Some(kept(items)[i]));
    }
}

/// The entries kept of the documents prepared for a container of compressed
/// payloads are those of the documents on whose payload the compressor does
/// not fail, one each and in order.
pub proof fn lemma_gzip_selection_kept(
    documents: Seq<DocumentView>,
    items: Seq<Option<EntryView>>,
)
    requires
        is_gzip_selection(documents, items),
    ensures
        kept(items).len() == compressible(documents).len(),
        forall|k: int|
            0 <= k < kept(items).len() ==> (#[trigger] kept(items)[k]) == gzip_entry_of(
                compressible(documents)[k],
                kept(items)[k].modified,
            ),
    decreases items.len(),
{
    if items.len() > 0 {
        let fewer = documents.drop_last();
        let shorter = items.drop_last();
        assert(is_gzip_selection(fewer, shorter)) by {
            assert forall|j: int| 0 <= j < fewer.len() implies {
                &&& (#[trigger] shorter[j]) is Some <==> best_outcome(invoice_bytes(fewer[j]))
                    is Some
                &&& shorter[j] matches Some(entry) ==> entry == gzip_entry_of(
                    fewer[j],
                    entry.modified,
                )
            } by {
                assert(shorter[j] == items[j]);
            }
        }
        lemma_gzip_selection_kept(fewer, shorter);
        assert(items.last() == items[items.len() - 1]);
        assert(documents.last() == documents[documents.len() - 1]);
        assert forall|k: int| 0 <= k < kept(items).len() implies (#[trigger] kept(items)[k])
            == gzip_entry_of(compressible(documents)[k], kept(items)[k].modified) by {
            if k < kept(shorter).len() {
                assert(kept(items)[k] == kept(shorter)[k]);
                assert(compressible(documents)[k] == compressible(fewer)[k]);
            }
        }
    }
}

/// Round trip of the compressed export: where the entries fit the format, a
/// reader of the archive finds exactly one entry per document on whose
/// payload the compressor does not fail, in the order of the documents; each
/// is named `<id>.zip`, and the bytes extracted from it are the gzip stream
/// of that document's payload.
pub proof fn law_gzip_round_trip(documents: Seq<DocumentView>, items: Seq<Option<EntryView>>)
    requires
        is_gzip_selection(documents, items),
        fits_format(kept(items)),
    ensures
        read_archive(archive_image(kept(items))).len() == compressible(documents).len(),
        compressible(documents).len() == documents.len() - dropped(items),
        forall|k: int|
            0 <= k < compressible(documents).len() ==> {
                let found = #[trigger] read_archive(archive_image(kept(items)))[k];
                &&& found.name == encode_utf8(compressible(documents)[k].id + ".zip"@)
                &&& found.data == gzip_best(invoice_bytes(compressible(documents)[k]))
                &&& found.crc == crc32(found.data)
            },
{
    lemma_kept_and_dropped(items);
    lemma_gzip_selection_kept(documents, items);
    lemma_read_archive(kept(items));
    assert forall|k: int| 0 <= k < compressible(documents).len() implies {
        let found = #[trigger] read_archive(archive_image(kept(items)))[k];
        &&& found.name == encode_utf8(compressible(documents)[k].id + ".zip"@)
        &&& found.data == gzip_best(invoice_bytes(compressible(documents)[k]))
        &&& found.crc == crc32(found.data)
    } by {
        assert(kept(items)[k] == gzip_entry_of(
            compressible(documents)[k],
            kept(items)[k].modified,
        ));
    }
}

} // verus!
