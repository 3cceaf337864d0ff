//! The payload generator, and the entry that each export mode makes of a
//! document.

use crate::compress::gzip_best;
use crate::data::{Document, DocumentView};
use crate::entry::{Entry, EntryView};
use crate::layout::FileStamp;
use vstd::prelude::*;
use vstd::string::{StrSliceExecFns, StringExecFns};
use vstd::utf8::encode_utf8;

verus! {

/// The text of a document's payload: `Invoice <id>`.
pub open spec fn invoice_text(doc: DocumentView) -> Seq<char> {
    "Invoice "@ + doc.id
}

/// A document's payload: its text in UTF-8.
pub open spec fn invoice_bytes(doc: DocumentView) -> Seq<u8> {
    encode_utf8(invoice_text(doc))
}

/// The entry of a document in a container of plain payloads: `<id>.txt`
/// holds the payload as it is.
pub open spec fn text_entry_of(doc: DocumentView, modified: FileStamp) -> EntryView {
    EntryView {
        name: doc.id + ".txt"@,
        payload: invoice_bytes(doc),
        compressed: false,
        modified,
    }
}

/// The entry of a document in a container of compressed payloads: `<id>.zip`
/// holds the gzip stream of the payload.
pub open spec fn gzip_entry_of(doc: DocumentView, modified: FileStamp) -> EntryView {
    EntryView {
        name: doc.id + ".zip"@,
        payload: gzip_best(invoice_bytes(doc)),
        compressed: true,
        modified,
    }
}

/// Generates the payload of a document. It depends on the document alone.
pub fn invoice(doc: &Document) -> (payload: Vec<u8>)
    ensures
        payload@ == invoice_bytes(doc@),
{
    let mut text = String::from_str("Invoice ");
    text.append(doc.id.as_str());
    text.as_str().as_bytes_vec()
}

/// The name of a document's entry: its identifier and `suffix`.
fn entry_name(doc: &Document, suffix: &str) -> (name: String)
    ensures
        name@ == doc@.id + suffix@,
{
    let mut name = doc.id.clone();
    name.append(suffix);
    name
}

/// Makes the entry that carries a document's payload as it is.
pub fn text_entry(doc: &Document, modified: FileStamp) -> (entry: Entry)
    ensures
        entry@ == text_entry_of(doc@, modified),
{
    Entry { name: entry_name(doc, ".txt"), payload: invoice(doc), compressed: false, modified }
}

/// Makes the entry that carries a document's compressed payload, given what
/// the compression stage handed on for it. Where compression failed there is
/// no entry.
pub fn gzip_entry(doc: &Document, modified: FileStamp, compressed: Option<Vec<u8>>) -> (entry:
    Option<Entry>)
    ensures
        entry is Some <==> compressed is Some,
        entry matches Some(made) ==> {
            &&& made@.name == doc@.id + ".zip"@
            &&& Some(made.payload) == compressed
            &&& made@.compressed
            &&& made@.modified == modified
        },
{
    match compressed {
        Some(payload) => Some(
            Entry { name: entry_name(doc, ".zip"), payload, compressed: true, modified },
        ),
        None => None,
    }
}

} // verus!
