//! The container encoder: it owns the archive under construction and is the
//! only writer of container bytes. The bytes themselves are produced by the
//! `zipit` crate, writing into memory.

use crate::entry::{
    archive_body, archive_image, directory_records, entry_bytes, entry_record,
    lemma_entry_length, lemma_push_entry, lemma_record_count, DirectoryRecord, Entry, EntryView,
};
use crate::error::ExportError;
use crate::layout::{trailer, FileRecord, FileStamp, DESCRIPTOR_LENGTH, LOCAL_HEADER_BASE};
use vstd::prelude::*;

verus! {

/// `zipit::Archive`: an archive under construction, over its sink.
#[verifier::external_type_specification]
#[verifier::external_body]
#[verifier::reject_recursive_types(W)]
pub struct ExArchive<W>(zipit::Archive<W>);

/// `std::io::Error`: why a write failed.
#[verifier::external_type_specification]
#[verifier::external_body]
pub struct ExIoError(std::io::Error);

/// The bytes that an archive has written to its sink so far.
pub uninterp spec fn archive_sink(archive: zipit::Archive<Vec<u8>>) -> Seq<u8>;

/// The records that an archive keeps for its directory, in write order.
pub uninterp spec fn archive_files(archive: zipit::Archive<Vec<u8>>) -> Seq<FileRecord>;

/// The number of bytes that an archive counts as written.
pub uninterp spec fn archive_written(archive: zipit::Archive<Vec<u8>>) -> nat;

/// The CRC-32 checksum of a sequence of bytes.
pub uninterp spec fn crc32(data: Seq<u8>) -> u32;

/// `zipit::Archive::new` on an empty buffer: nothing is written, no record
/// is kept and the count of written bytes is zero.
#[verifier::external_body]
fn archive_new() -> (archive: zipit::Archive<Vec<u8>>)
    ensures
        archive_sink(archive) == Seq::<u8>::empty(),
        archive_files(archive) == Seq::<FileRecord>::empty(),
        archive_written(archive) == 0,
{
    zipit::Archive::new(Vec::new())
}

/// `zipit::Archive::append`, reading the entry's bytes from memory. The call
/// succeeds: it fails only where the sink fails a write or the reader a read,
/// and here the sink is a buffer in memory and the reader a slice, which
/// complete every write and read at once. The sink has then grown by the
/// entry's local header, its bytes and its descriptor, the count of written
/// bytes by their number, and one record was added that holds the offset
/// counted before the call.
#[verifier::external_body]
fn archive_append(archive: &mut zipit::Archive<Vec<u8>>, entry: &Entry) -> (outcome: Result<
    (),
    std::io::Error,
>)
    ensures
        outcome is Ok,
        archive_sink(*final(archive)) == archive_sink(*old(archive)) + entry_bytes(entry@),
        archive_sink(*final(archive)).len() <= usize::MAX,
        archive_written(*final(archive)) == archive_written(*old(archive)) + entry_bytes(
            entry@,
        ).len(),
        archive_files(*final(archive)) == archive_files(*old(archive)).push(
            entry_record(entry@, archive_written(*old(archive))),
        ),
{
    let when = match entry.modified {
        FileStamp::Zero => zipit::FileDateTime::Zero,
        FileStamp::Custom { year, month, day, hour, minute, second } => {
            zipit::FileDateTime::Custom { year, month, day, hour, minute, second }
        },
    };
    let mut reader = std::io::Cursor::new(entry.payload.as_slice());
    let mut task = Box::pin(archive.append(entry.name.clone(), when, &mut reader));
    let mut context = std::task::Context::from_waker(std::task::Waker::noop());
    match std::future::Future::poll(task.as_mut(), &mut context) {
        std::task::Poll::Ready(outcome) => outcome,
        std::task::Poll::Pending => Err(std::io::Error::from(std::io::ErrorKind::WouldBlock)),
    }
}

/// `zipit::Archive::finalize`. The call succeeds, as the sink is a buffer in
/// memory, and returns the sink, grown by one central header per record and
/// by the end record, which declares the number of records, the directory's
/// length and the count of written bytes as the directory's offset.
#[verifier::external_body]
fn archive_finalize(archive: zipit::Archive<Vec<u8>>) -> (outcome: Result<Vec<u8>, std::io::Error>)
    ensures
        outcome is Ok,
        outcome matches Ok(bytes) ==> bytes@ == archive_sink(archive) + trailer(
            archive_files(archive),
            archive_written(archive),
        ),
{
    let mut task = Box::pin(archive.finalize());
    let mut context = std::task::Context::from_waker(std::task::Waker::noop());
    match std::future::Future::poll(task.as_mut(), &mut context) {
        std::task::Poll::Ready(outcome) => outcome,
        std::task::Poll::Pending => Err(std::io::Error::from(std::io::ErrorKind::WouldBlock)),
    }
}

/// `crc32fast::hash`: the CRC-32 checksum of the bytes.
#[verifier::external_body]
fn checksum(data: &[u8]) -> (crc: u32)
    ensures
        crc == crc32(data@),
{
    crc32fast::hash(data)
}

/// `zipit::FileDateTime::now`: the local date and time of the system.
#[verifier::external_body]
pub(crate) fn current_stamp() -> (stamp: FileStamp) {
    match zipit::FileDateTime::now() {
        zipit::FileDateTime::Zero => FileStamp::Zero,
        zipit::FileDateTime::Custom { year, month, day, hour, minute, second } => {
            FileStamp::Custom { year, month, day, hour, minute, second }
        },
    }
}

/// The container encoder. It owns the archive under construction, remembers
/// one record per written entry and counts the bytes emitted so far.
pub struct Encoder {
    /// The archive; gone once a write has failed.
    inner: Option<zipit::Archive<Vec<u8>>>,
    entries: Vec<DirectoryRecord>,
    offset: u64,
    written: Ghost<Seq<EntryView>>,
}

impl Encoder {
    /// The entries written so far, in write order.
    pub closed spec fn written(&self) -> Seq<EntryView> {
        self.written@
    }

    /// Whether a write has failed. After that nothing more is written.
    pub closed spec fn is_failed(&self) -> bool {
        self.inner is None
    }

    /// The bytes emitted so far.
    pub open spec fn emitted(&self) -> Seq<u8> {
        archive_body(self.written())
    }

    /// The records kept so far.
    pub open spec fn records(&self) -> Seq<FileRecord> {
        directory_records(self.written())
    }

    /// The encoder's invariant: unless a write has failed, the sink holds
    /// exactly the bytes of the entries written, the offset counts them, and
    /// there is one record per entry, in write order.
    #[verifier::type_invariant]
    spec fn wf(&self) -> bool {
        self.inner matches Some(archive) ==> {
            &&& archive_sink(archive) == archive_body(self.written@)
            &&& archive_files(archive) == directory_records(self.written@)
            &&& archive_written(archive) == archive_body(self.written@).len()
            &&& self.offset as nat == archive_body(self.written@).len()
            &&& self.entries@.len() == self.written@.len()
            &&& forall|i: int|
                0 <= i < self.entries@.len() ==> {
                    &&& (#[trigger] self.entries@[i])@ == directory_records(self.written@)[i]
                    &&& self.entries@[i].uncompressed_size == self.entries@[i].compressed_size
                    &&& self.entries@[i].name@ == self.written@[i].name
                    &&& self.entries@[i].modified == self.written@[i].modified
                }
        }
    }

    /// An encoder that has written nothing.
    pub fn new() -> (encoder: Encoder)
        ensures
            !encoder.is_failed(),
            encoder.written() == Seq::<EntryView>::empty(),
    {
        Encoder {
            inner: Some(archive_new()),
            entries: Vec::new(),
            offset: 0,
            written: Ghost(Seq::empty()),
        }
    }

    /// Writes one entry: its local header, its bytes and its descriptor. The
    /// write succeeds unless an earlier one has failed: the entry's record is
    /// kept and returned, and the offset has advanced by the entry's length.
    /// Once a write has failed, this and every later call fail without writing.
    pub fn append(&mut self, entry: &Entry) -> (outcome: Result<DirectoryRecord, ExportError>)
        ensures
            old(self).is_failed() <==> outcome is Err,
            outcome matches Ok(record) ==> {
                &&& !final(self).is_failed()
                &&& final(self).written() == old(self).written().push(entry@)
                &&& record@ == entry_record(entry@, old(self).emitted().len())
                &&& record.name@ == entry@.name
                &&& record.modified == entry@.modified
                &&& record.uncompressed_size == record.compressed_size
            },
            outcome matches Err(error) ==> {
                &&& error == ExportError::WriteFailure
                &&& final(self).is_failed()
                &&& final(self).written() == old(self).written()
            },
    {
        proof {
            use_type_invariant(&*self);
        }
        // While an entry is written the archive is out of the encoder; it
        // comes back when the write has succeeded.
        let mut taken: Option<zipit::Archive<Vec<u8>>> = None;
        std::mem::swap(&mut taken, &mut self.inner);
        let mut archive = match taken {
            Some(archive) => archive,
            None => {
                return Err(ExportError::WriteFailure);
            },
        };
        let crc = checksum(entry.payload.as_slice());
        let outcome = archive_append(&mut archive, entry);
        match outcome {
            Ok(()) => {
                proof {
                    lemma_entry_length(entry@);
                    lemma_push_entry(self.written@, entry@);
                }
                let name_length = entry.name.as_str().len();
                let size = entry.payload.len();
                let start = self.offset;
                self.offset = start + LOCAL_HEADER_BASE as u64 + name_length as u64 + size as u64
                    + DESCRIPTOR_LENGTH as u64;
                let mut entries: Vec<DirectoryRecord> = Vec::new();
                std::mem::swap(&mut entries, &mut self.entries);
                entries.push(
                    DirectoryRecord {
                        name: entry.name.clone(),
                        crc32: crc,
                        compressed_size: size as u64,
                        uncompressed_size: size as u64,
                        local_header_offset: start,
                        modified: entry.modified,
                    },
                );
                self.entries = entries;
                self.written = Ghost(self.written@.push(entry@));
                proof {
                    let before = old(self).written@;
                    lemma_record_count(before);
                    assert forall|i: int| 0 <= i < self.entries@.len() implies {
                        &&& (#[trigger] self.entries@[i])@ == directory_records(self.written@)[i]
                        &&& self.entries@[i].uncompressed_size == self.entries@[i].compressed_size
                        &&& self.entries@[i].name@ == self.written@[i].name
                        &&& self.entries@[i].modified == self.written@[i].modified
                    } by {
                        if i < before.len() {
                            assert(self.entries@[i] == old(self).entries@[i]);
                        }
                    }
                }
                self.inner = Some(archive);
                Ok(
                    DirectoryRecord {
                        name: entry.name.clone(),
                        crc32: crc,
                        compressed_size: size as u64,
                        uncompressed_size: size as u64,
                        local_header_offset: start,
                        modified: entry.modified,
                    },
                )
            },
            Err(_) => Err(ExportError::WriteFailure),
        }
    }

    /// Finalizes the archive: writes the central directory and the end
    /// record and hands out all the bytes. It succeeds unless a write has
    /// failed before; then it fails without writing.
    pub fn finish(self) -> (outcome: Result<Vec<u8>, ExportError>)
        ensures
            self.is_failed() <==> outcome is Err,
            outcome matches Ok(bytes) ==> bytes@ == archive_image(self.written()),
            outcome matches Err(error) ==> error == ExportError::WriteFailure,
    {
        proof {
            use_type_invariant(&self);
            reveal(archive_image);
        }
        match self.inner {
            Some(archive) => match archive_finalize(archive) {
                Ok(bytes) => Ok(bytes),
                Err(_) => Err(ExportError::WriteFailure),
            },
            None => Err(ExportError::WriteFailure),
        }
    }

    /// The number of entries written.
    pub fn entry_count(&self) -> (count: usize)
        ensures
            !self.is_failed() ==> count == self.written().len(),
    {
        proof {
            use_type_invariant(self);
        }
        self.entries.len()
    }

    /// The number of container bytes emitted so far, which is the offset of
    /// the next entry's local header.
    pub fn cumulative_offset(&self) -> (offset: u64)
        ensures
            !self.is_failed() ==> offset == self.emitted().len(),
    {
        proof {
            use_type_invariant(self);
        }
        self.offset
    }

    /// The records kept so far, in write order: one per entry written, each
    /// with the entry's name and stamp, the checksum and length of its bytes,
    /// which are stored as they are, and the offset of its local header.
    pub fn entries(&self) -> (records: &Vec<DirectoryRecord>)
        ensures
            !self.is_failed() ==> {
                &&& records@.len() == self.written().len()
                &&& records@.len() == self.records().len()
                &&& forall|i: int|
                    0 <= i < records@.len() ==> {
                        &&& (#[trigger] records@[i])@ == self.records()[i]
                        &&& records@[i].uncompressed_size == records@[i].compressed_size
                        &&& records@[i].name@ == self.written()[i].name
                        &&& records@[i].modified == self.written()[i].modified
                    }
            },
    {
        proof {
            use_type_invariant(self);
            lemma_record_count(self.written@);
        }
        &self.entries
    }

    /// Whether a write has failed.
    pub fn has_failed(&self) -> (failed: bool)
        ensures
            failed == self.is_failed(),
    {
        self.inner.is_none()
    }
}

} // verus!
