//! The three exports: the raw payloads one after another, a container of
//! plain payloads, and a container of compressed payloads.
//!
//! Items are written in the order of the list. An item whose payload could
//! not be made is left out and the export goes on. The containers are built
//! in memory, where no write fails, so every export succeeds.

use crate::archive::{current_stamp, Encoder};
use crate::compress::{compress, best_outcome};
use crate::coordinator::{Action, Coordinator, Event, Phase};
use crate::data::{Document, DocumentView};
use crate::entry::{archive_image, Entry, EntryView};
use crate::error::ExportError;
use crate::payload::{
    gzip_entry, gzip_entry_of, invoice, invoice_bytes, text_entry, text_entry_of,
};
use vstd::prelude::*;

verus! {

/// The capacity in bytes of the pipe between the encoder and the consumer of
/// an export.
pub const RELAY_CAPACITY: usize = 4096;

/// The three exports.
#[derive(Clone, Copy, Debug, PartialEq, Eq, Structural)]
pub enum ExportMode {
    /// The raw payloads, one after another.
    Raw,
    /// A container of plain payloads.
    Zip,
    /// A container of compressed payloads.
    ZipAndGzip,
}

/// The path under which an export is served.
pub open spec fn path_of(mode: ExportMode) -> Seq<char> {
    match mode {
        ExportMode::Raw => "/stream"@,
        ExportMode::Zip => "/stream-zip"@,
        ExportMode::ZipAndGzip => "/stream-zip-and-gzip"@,
    }
}

/// The content type of an export's response.
pub open spec fn content_type_of(mode: ExportMode) -> Seq<char> {
    match mode {
        ExportMode::Raw => "text/plain; charset=utf-8"@,
        _ => "application/zip"@,
    }
}

/// The content disposition of an export's response: a container is an
/// attachment named `documents.zip`, the raw export has none.
pub open spec fn content_disposition_of(mode: ExportMode) -> Option<Seq<char>> {
    match mode {
        ExportMode::Raw => None,
        _ => Some("attachment; filename=\"documents.zip\""@),
    }
}

impl ExportMode {
    /// The path under which this export is served.
    pub fn path(self) -> (path: &'static str)
        ensures
            path@ == path_of(self),
    {
        match self {
            ExportMode::Raw => "/stream",
            ExportMode::Zip => "/stream-zip",
            ExportMode::ZipAndGzip => "/stream-zip-and-gzip",
        }
    }

    /// The value of the `content-type` header of this export's response.
    pub fn content_type(self) -> (value: &'static str)
        ensures
            value@ == content_type_of(self),
    {
        match self {
            ExportMode::Raw => "text/plain; charset=utf-8",
            _ => "application/zip",
        }
    }

    /// The value of the `content-disposition` header of this export's
    /// response, where it has one.
    pub fn content_disposition(self) -> (value: Option<&'static str>)
        ensures
            value is Some <==> content_disposition_of(self) is Some,
            value matches Some(text) ==> Some(text@) == content_disposition_of(self),
    {
        match self {
            ExportMode::Raw => None,
            _ => Some("attachment; filename=\"documents.zip\""),
        }
    }
}

/// The views of a list of documents, in order.
pub open spec fn document_views(documents: Seq<Document>) -> Seq<DocumentView> {
    documents.map_values(|d: Document| d@)
}

/// The views of a list of prepared items, in order.
pub open spec fn item_views(items: Seq<Option<Entry>>) -> Seq<Option<EntryView>> {
    items.map_values(
        |item: Option<Entry>|
            match item {
                Some(entry) => Some(entry@),
                None => None,
            },
    )
}

/// The payloads of the documents, one after another.
pub open spec fn raw_stream(documents: Seq<DocumentView>) -> Seq<u8>
    decreases documents.len(),
{
    if documents.len() == 0 {
        Seq::empty()
    } else {
        raw_stream(documents.drop_last()) + invoice_bytes(documents.last())
    }
}

/// The entries among the prepared items, in order: an item without an entry
/// is one whose payload could not be made.
pub open spec fn kept(items: Seq<Option<EntryView>>) -> Seq<EntryView>
    decreases items.len(),
{
    if items.len() == 0 {
        Seq::empty()
    } else {
        match items.last() {
            Some(entry) => kept(items.drop_last()).push(entry),
            None => kept(items.drop_last()),
        }
    }
}

/// The number of prepared items without an entry.
pub open spec fn dropped(items: Seq<Option<EntryView>>) -> nat
    decreases items.len(),
{
    if items.len() == 0 {
        0
    } else {
        dropped(items.drop_last()) + if items.last() is None {
            1nat
        } else {
            0nat
        }
    }
}

/// The documents on whose payload the compressor does not fail, in order.
pub open spec fn compressible(documents: Seq<DocumentView>) -> Seq<DocumentView>
    decreases documents.len(),
{
    if documents.len() == 0 {
        Seq::empty()
    } else if best_outcome(invoice_bytes(documents.last())) is Some {
        compressible(documents.drop_last()).push(documents.last())
    } else {
        compressible(documents.drop_last())
    }
}

/// `items` are the documents prepared for a container of plain payloads:
/// every document has its entry, under whatever stamp.
pub open spec fn is_text_selection(
    documents: Seq<DocumentView>,
    items: Seq<Option<EntryView>>,
) -> bool {
    &&& items.len() == documents.len()
    &&& forall|i: int|
        0 <= i < documents.len() ==> ((#[trigger] items[i]) matches Some(entry) && entry
            == text_entry_of(documents[i], entry.modified))
}

/// `items` are the documents prepared for a container of compressed
/// payloads: a document has its entry, under whatever stamp, unless the
/// compressor fails on its payload.
pub open spec fn is_gzip_selection(
    documents: Seq<DocumentView>,
    items: Seq<Option<EntryView>>,
) -> bool {
    &&& items.len() == documents.len()
    &&& forall|i: int|
        0 <= i < documents.len() ==> {
            &&& (#[trigger] items[i]) is Some <==> best_outcome(invoice_bytes(documents[i]))
                is Some
            &&& items[i] matches Some(entry) ==> entry == gzip_entry_of(
                documents[i],
                entry.modified,
            )
        }
}

/// The raw export: the payloads of the documents, one after another.
pub fn stream(documents: &Vec<Document>) -> (body: Vec<u8>)
    ensures
        body@ == raw_stream(document_views(documents@)),
{
    let mut body: Vec<u8> = Vec::new();
    let mut i: usize = 0;
    while i < documents.len()
        invariant
            i <= documents.len(),
            body@ == raw_stream(document_views(documents@).take(i as int)),
        decreases documents.len() - i,
    {
        let mut payload = invoice(&documents[i]);
        body.append(&mut payload);
        proof {
            let views = document_views(documents@);
            assert(views.take(i + 1).drop_last() =~= views.take(i as int));
            assert(views.take(i + 1).last() == documents@[i as int]@);
        }
        i = i + 1;
    }
    assert(document_views(documents@).take(i as int) =~= document_views(documents@));
    body
}

/// What a worker makes of a document for a container of plain payloads:
/// the entry `<id>.txt` with the payload as it is, stamped with the current
/// time. There always is one.
pub fn prepare_text(document: &Document) -> (item: Option<Entry>)
    ensures
        item matches Some(entry) && entry@ == text_entry_of(document@, entry@.modified),
{
    Some(text_entry(document, current_stamp()))
}

/// What a worker makes of a document for a container of compressed
/// payloads: the entry `<id>.zip` with the gzip stream of the payload, stamped
/// with the current time, or nothing where the compressor fails on the
/// payload.
pub fn prepare_gzip(document: &Document) -> (item: Option<Entry>)
    ensures
        item is Some <==> best_outcome(invoice_bytes(document@)) is Some,
        item matches Some(entry) ==> entry@ == gzip_entry_of(document@, entry@.modified),
{
    let payload = invoice(document);
    let compressed = compress(payload.as_slice());
    gzip_entry(document, current_stamp(), compressed)
}

/// Prepares the documents for a container of plain payloads. Each entry is
/// stamped with the time at which it was made.
pub fn text_entries(documents: &Vec<Document>) -> (items: Vec<Option<Entry>>)
    ensures
        is_text_selection(document_views(documents@), item_views(items@)),
{
    let mut items: Vec<Option<Entry>> = Vec::new();
    let mut i: usize = 0;
    while i < documents.len()
        invariant
            i <= documents.len(),
            is_text_selection(document_views(documents@).take(i as int), item_views(items@)),
        decreases documents.len() - i,
    {
        let ghost before = item_views(items@);
        items.push(prepare_text(&documents[i]));
        proof {
            let views = document_views(documents@);
            let after = item_views(items@);
            assert forall|j: int| 0 <= j < i + 1 implies ((#[trigger] after[j]) matches Some(made)
                && made == text_entry_of(views.take(i + 1)[j], made.modified)) by {
                if j < i {
                    assert(after[j] == before[j]);
                    assert(views.take(i + 1)[j] == views.take(i as int)[j]);
                }
            }
        }
        i = i + 1;
    }
    assert(document_views(documents@).take(i as int) =~= document_views(documents@));
    items
}

/// Prepares the documents for a container of compressed payloads. A document
/// whose payload could not be compressed has no entry.
pub fn gzip_entries(documents: &Vec<Document>) -> (items: Vec<Option<Entry>>)
    ensures
        is_gzip_selection(document_views(documents@), item_views(items@)),
{
    let mut items: Vec<Option<Entry>> = Vec::new();
    let mut i: usize = 0;
    while i < documents.len()
        invariant
            i <= documents.len(),
            is_gzip_selection(document_views(documents@).take(i as int), item_views(items@)),
        decreases documents.len() - i,
    {
        let ghost before = item_views(items@);
        items.push(prepare_gzip(&documents[i]));
        proof {
            let views = document_views(documents@);
            let after = item_views(items@);
            assert forall|j: int| 0 <= j < i + 1 implies {
                &&& (#[trigger] after[j]) is Some <==> best_outcome(
                    invoice_bytes(views.take(i + 1)[j]),
                ) is Some
                &&& after[j] matches Some(made) ==> made == gzip_entry_of(
                    views.take(i + 1)[j],
                    made.modified,
                )
            } by {
                if j < i {
                    assert(after[j] == before[j]);
                    assert(views.take(i + 1)[j] == views.take(i as int)[j]);
                }
            }
        }
        i = i + 1;
    }
    assert(document_views(documents@).take(i as int) =~= document_views(documents@));
    items
}

/// Writes the prepared items into a container and finalizes it. The workers
/// of the items run one after another, in the order of the list, under a
/// coordinator: an item without an entry is left out, nothing is written
/// after a failed write, and the join that follows the last worker decides on
/// finalization. No write into memory fails, so the export succeeds, however
/// many items have no entry: the result is the finished archive of the
/// entries that were there.
pub fn write_archive(items: &Vec<Option<Entry>>) -> (outcome: Result<Vec<u8>, ExportError>)
    ensures
        outcome is Ok,
        outcome matches Ok(bytes) ==> bytes@ == archive_image(kept(item_views(items@))),
{
    let mut coordinator = Coordinator::start(items.len());
    let mut encoder = Encoder::new();
    let mut i: usize = 0;
    while i < items.len()
        invariant
            i <= items.len(),
            coordinator@.phase == Phase::Running,
            coordinator@.pending == items.len() - i,
            coordinator@.failed == 0,
            !encoder.is_failed(),
            encoder.written() == kept(item_views(items@).take(i as int)),
        decreases items.len() - i,
    {
        proof {
            let views = item_views(items@);
            assert(views.take(i + 1).drop_last() =~= views.take(i as int));
            assert(views.take(i + 1).last() == views[i as int]);
        }
        let event = match (coordinator.refusal(items[i].is_some()), &items[i]) {
            (None, Some(entry)) => match encoder.append(entry) {
                Ok(_) => Event::ItemWritten,
                Err(_) => Event::WriteFailed,
            },
            (Some(event), _) => event,
            (None, None) => Event::ItemSkipped,
        };
        coordinator.step(event);
        i = i + 1;
    }
    assert(item_views(items@).take(i as int) =~= item_views(items@));
    match coordinator.step(Event::Joined { sole_owner: true }) {
        Action::Finalize => encoder.finish(),
        _ => Err(ExportError::WriteFailure),
    }
}

/// The container of plain payloads: one entry `<id>.txt` per document, in
/// the order of the list, each holding `Invoice <id>`.
pub fn stream_zip(documents: &Vec<Document>) -> (outcome: Result<Vec<u8>, ExportError>)
    ensures
        outcome is Ok,
        outcome matches Ok(bytes) ==> exists|items: Seq<Option<EntryView>>|
            is_text_selection(document_views(documents@), items) && bytes@ == archive_image(
                kept(items),
            ),
{
    let items = text_entries(documents);
    write_archive(&items)
}

/// The container of compressed payloads: one entry `<id>.zip` per document
/// on whose payload the compressor does not fail, in the order of the list,
/// each holding the gzip stream of `Invoice <id>`.
pub fn stream_zip_and_gzip(documents: &Vec<Document>) -> (outcome: Result<Vec<u8>, ExportError>)
    ensures
        outcome is Ok,
        outcome matches Ok(bytes) ==> exists|items: Seq<Option<EntryView>>|
            is_gzip_selection(document_views(documents@), items) && bytes@ == archive_image(
                kept(items),
            ),
{
    let items = gzip_entries(documents);
    write_archive(&items)
}

} // verus!
