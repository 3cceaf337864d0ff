//! The byte layout of a streamed archive: each entry is a local header that
//! defers its checksum and sizes, the stored bytes, and a trailing descriptor;
//! the archive ends with one central header per entry and an end record.
//!
//! Apart from the stamp, everything here is a spec function. Multi-byte
//! fields are little-endian.

use vstd::bytes::{
    spec_u16_from_le_bytes, spec_u16_to_le_bytes, spec_u32_from_le_bytes, spec_u32_to_le_bytes,
};
use vstd::prelude::*;

verus! {

/// Signature that opens a local file header.
pub const LOCAL_HEADER_SIGNATURE: u32 = 0x0403_4b50;

/// Signature that opens the descriptor trailing an entry's bytes.
pub const DESCRIPTOR_SIGNATURE: u32 = 0x0807_4b50;

/// Signature that opens a central directory header.
pub const CENTRAL_HEADER_SIGNATURE: u32 = 0x0201_4b50;

/// Signature that opens the end-of-central-directory record.
pub const END_RECORD_SIGNATURE: u32 = 0x0605_4b50;

/// Version needed to extract an entry.
pub const VERSION_NEEDED: u16 = 10;

/// Version, and host system, that made the archive.
pub const VERSION_MADE_BY: u16 = 0x031e;

/// General purpose flags: checksum and sizes follow the data (bit 3), and the
/// name is UTF-8 (bit 11).
pub const DEFERRED_SIZES_UTF8: u16 = 0x0808;

/// Compression method of a stored entry.
pub const METHOD_STORED: u16 = 0;

/// External attributes of every entry: a regular file, mode `rw-r--r--`.
pub const REGULAR_FILE_ATTRIBUTES: u32 = 0x81a4_0000;

/// Length of a local header without the name.
pub const LOCAL_HEADER_BASE: usize = 30;

/// Length of a descriptor.
pub const DESCRIPTOR_LENGTH: usize = 16;

/// Length of a central header without the name.
pub const CENTRAL_HEADER_BASE: usize = 46;

/// Length of the end record.
pub const END_RECORD_LENGTH: usize = 22;

/// The date and time written beside an entry, without a time zone.
#[derive(Clone, Copy, Debug, PartialEq, Eq, Structural)]
pub enum FileStamp {
    /// Midnight before the first of January 1980: every field is zero.
    Zero,
    /// A date and time given field by field.
    Custom { year: u16, month: u16, day: u16, hour: u16, minute: u16, second: u16 },
}

impl FileStamp {
    /// The six fields, in the order year, month, day, hour, minute, second.
    pub open spec fn fields(self) -> (u16, u16, u16, u16, u16, u16) {
        match self {
            FileStamp::Zero => (0, 0, 0, 0, 0, 0),
            FileStamp::Custom { year, month, day, hour, minute, second } => (
                year,
                month,
                day,
                hour,
                minute,
                second,
            ),
        }
    }

    /// The 16-bit date field: day, month from bit 5, years since 1980 from
    /// bit 9. Bits shifted beyond the sixteenth are lost.
    pub open spec fn dos_date(self) -> u16 {
        let (year, month, day, _, _, _) = self.fields();
        let since: u16 = if year >= 1980 {
            (year - 1980) as u16
        } else {
            0
        };
        day | (month << 5u16) | (since << 9u16)
    }

    /// The 16-bit time field: half the seconds, minutes from bit 5, hours from
    /// bit 11. Bits shifted beyond the sixteenth are lost.
    pub open spec fn dos_time(self) -> u16 {
        let (_, _, _, hour, minute, second) = self.fields();
        (second / 2) | (minute << 5u16) | (hour << 11u16)
    }
}

/// The low sixteen bits of a length or count.
pub open spec fn low16(n: nat) -> u16 {
    (n % 0x1_0000) as u16
}

/// The low thirty-two bits of a length or offset.
pub open spec fn low32(n: nat) -> u32 {
    (n % 0x1_0000_0000) as u32
}

/// What the directory remembers of one written entry.
pub struct FileRecord {
    /// The name as UTF-8 bytes.
    pub name: Seq<u8>,
    /// The number of stored bytes.
    pub size: nat,
    /// The checksum of the stored bytes.
    pub crc: u32,
    /// Where the entry's local header starts.
    pub offset: nat,
    /// The date field of the entry's stamp.
    pub date: u16,
    /// The time field of the entry's stamp.
    pub time: u16,
}

/// The local header of an entry: checksum and sizes are zero here and follow
/// in the descriptor.
#[verifier::opaque]
pub open spec fn local_header(name: Seq<u8>, date: u16, time: u16) -> Seq<u8> {
    spec_u32_to_le_bytes(LOCAL_HEADER_SIGNATURE) + spec_u16_to_le_bytes(VERSION_NEEDED)
        + spec_u16_to_le_bytes(DEFERRED_SIZES_UTF8) + spec_u16_to_le_bytes(METHOD_STORED)
        + spec_u16_to_le_bytes(time) + spec_u16_to_le_bytes(date) + spec_u32_to_le_bytes(0)
        + spec_u32_to_le_bytes(0) + spec_u32_to_le_bytes(0) + spec_u16_to_le_bytes(
        low16(name.len()),
    ) + spec_u16_to_le_bytes(0) + name
}

/// The descriptor after an entry's bytes: checksum, compressed size and
/// uncompressed size, which are equal for a stored entry.
#[verifier::opaque]
pub open spec fn descriptor(crc: u32, size: nat) -> Seq<u8> {
    spec_u32_to_le_bytes(DESCRIPTOR_SIGNATURE) + spec_u32_to_le_bytes(crc) + spec_u32_to_le_bytes(
        low32(size),
    ) + spec_u32_to_le_bytes(low32(size))
}

/// All the bytes of one entry: header, stored bytes, descriptor.
pub open spec fn local_entry(name: Seq<u8>, date: u16, time: u16, crc: u32, data: Seq<u8>) -> Seq<
    u8,
> {
    local_header(name, date, time) + data + descriptor(crc, data.len())
}

/// The central header that repeats a record's fields and says where its local
/// header starts.
#[verifier::opaque]
pub open spec fn central_header(record: FileRecord) -> Seq<u8> {
    spec_u32_to_le_bytes(CENTRAL_HEADER_SIGNATURE) + spec_u16_to_le_bytes(VERSION_MADE_BY)
        + spec_u16_to_le_bytes(VERSION_NEEDED) + spec_u16_to_le_bytes(DEFERRED_SIZES_UTF8)
        + spec_u16_to_le_bytes(METHOD_STORED) + spec_u16_to_le_bytes(record.time)
        + spec_u16_to_le_bytes(record.date) + spec_u32_to_le_bytes(record.crc)
        + spec_u32_to_le_bytes(low32(record.size)) + spec_u32_to_le_bytes(low32(record.size))
        + spec_u16_to_le_bytes(low16(record.name.len())) + spec_u16_to_le_bytes(0)
        + spec_u16_to_le_bytes(0) + spec_u16_to_le_bytes(0) + spec_u16_to_le_bytes(0)
        + spec_u32_to_le_bytes(REGULAR_FILE_ATTRIBUTES) + spec_u32_to_le_bytes(
        low32(record.offset),
    ) + record.name
}

/// The central directory: one central header per record, in write order.
pub open spec fn central_directory(records: Seq<FileRecord>) -> Seq<u8>
    decreases records.len(),
{
    if records.len() == 0 {
        Seq::empty()
    } else {
        central_directory(records.drop_last()) + central_header(records.last())
    }
}

/// The end record: the entry count (twice), the directory's length and the
/// offset at which the directory starts.
#[verifier::opaque]
pub open spec fn end_record(count: nat, directory_length: nat, directory_offset: nat) -> Seq<u8> {
    spec_u32_to_le_bytes(END_RECORD_SIGNATURE) + spec_u16_to_le_bytes(0) + spec_u16_to_le_bytes(0)
        + spec_u16_to_le_bytes(low16(count)) + spec_u16_to_le_bytes(low16(count))
        + spec_u32_to_le_bytes(low32(directory_length)) + spec_u32_to_le_bytes(
        low32(directory_offset),
    ) + spec_u16_to_le_bytes(0)
}

/// The two-byte field that starts `at` bytes into `image`.
pub open spec fn field16(image: Seq<u8>, at: int) -> u16 {
    spec_u16_from_le_bytes(image.subrange(at, at + 2))
}

/// The four-byte field that starts `at` bytes into `image`.
pub open spec fn field32(image: Seq<u8>, at: int) -> u32 {
    spec_u32_from_le_bytes(image.subrange(at, at + 4))
}

/// What finalization appends to the entries: the directory and the end record.
pub open spec fn trailer(records: Seq<FileRecord>, written: nat) -> Seq<u8> {
    central_directory(records) + end_record(
        records.len(),
        central_directory(records).len(),
        written,
    )
}

} // verus!
