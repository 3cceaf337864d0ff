//! The compression stage: a payload is compressed whole, at the greatest
//! effort, before any of its output is used.

use vstd::prelude::*;

verus! {

/// The level of greatest compression effort.
pub const BEST_LEVEL: u32 = 9;

/// What the compressor makes of a sequence of bytes at a level from 0 to 9:
/// the gzip stream, or nothing where it fails.
pub uninterp spec fn gzip_outcome(data: Seq<u8>, level: u32) -> Option<Seq<u8>>;

/// What the compression stage makes of a payload: the compressor's outcome
/// at its best level.
pub open spec fn best_outcome(data: Seq<u8>) -> Option<Seq<u8>> {
    gzip_outcome(data, BEST_LEVEL)
}

/// The gzip stream of a payload on which the compressor does not fail.
pub open spec fn gzip_best(data: Seq<u8>) -> Seq<u8>
    recommends
        best_outcome(data) is Some,
{
    best_outcome(data).unwrap()
}

/// `flate2::write::GzEncoder` at `flate2::Compression::new(level)`, writing
/// into memory: `new`, `write_all` of all the input, then `finish`. Whether
/// the call succeeds, and with which stream, depends on the input and the
/// level alone: the sink is memory, whose writes do not fail, the header
/// carries no time and no file name, and the compressor reads nothing but its
/// input.
#[verifier::external_body]
fn gzip(data: &[u8], level: u32) -> (outcome: Result<Vec<u8>, std::io::Error>)
    requires
        level <= 9,
    ensures
        outcome matches Ok(bytes) ==> gzip_outcome(data@, level) == Some(bytes@),
        outcome is Err ==> gzip_outcome(data@, level) is None,
{
    let mut encoder = flate2::write::GzEncoder::new(Vec::new(), flate2::Compression::new(level));
    std::io::Write::write_all(&mut encoder, data)?;
    encoder.finish()
}

/// What the compression stage hands on: the compressed bytes, or nothing
/// where the compressor failed. A failure loses the item and no more.
pub fn compressed_or_dropped(outcome: Result<Vec<u8>, std::io::Error>) -> (kept: Option<Vec<u8>>)
    ensures
        outcome is Ok <==> kept is Some,
        outcome matches Ok(bytes) ==> kept == Some(bytes),
{
    match outcome {
        Ok(bytes) => Some(bytes),
        Err(_) => None,
    }
}

/// Compresses a payload at the greatest effort. The result is what the
/// compressor makes of the payload at its best level: its gzip stream, or
/// `None` where the compressor fails on it.
pub fn compress(data: &[u8]) -> (kept: Option<Vec<u8>>)
    ensures
        kept is Some <==> best_outcome(data@) is Some,
        kept matches Some(bytes) ==> bytes@ == gzip_best(data@),
{
    compressed_or_dropped(gzip(data, BEST_LEVEL))
}

} // verus!
