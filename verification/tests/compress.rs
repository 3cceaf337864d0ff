use std::io::Read;

use document_export::compress::{compress, compressed_or_dropped, BEST_LEVEL};

#[test]
fn compressed_payload_is_a_gzip_stream_of_the_input() {
    let input = b"Invoice 01ARZ3NDEKTSV4RRFFQ69G5FAV".to_vec();
    let packed = compress(&input).unwrap();
    assert_ne!(packed, input);
    assert_eq!(&packed[..3], &[0x1f, 0x8b, 8]);
    let mut plain = Vec::new();
    flate2::read::GzDecoder::new(packed.as_slice()).read_to_end(&mut plain).unwrap();
    assert_eq!(plain, input);
}

#[test]
fn compression_depends_on_the_input_alone() {
    let input = vec![7u8; 10_000];
    let first = compress(&input).unwrap();
    let second = compress(&input).unwrap();
    assert_eq!(first, second);
    // No time stamp, best level, unknown system.
    assert_eq!(&first[4..8], &[0, 0, 0, 0]);
    assert_eq!(first[8], 2);
    assert_eq!(first[9], 255);
    assert!(first.len() < input.len());
}

#[test]
fn empty_payload_compresses_to_an_empty_stream() {
    let packed = compress(&[]).unwrap();
    let mut plain = Vec::new();
    flate2::read::GzDecoder::new(packed.as_slice()).read_to_end(&mut plain).unwrap();
    assert!(plain.is_empty());
}

#[test]
fn failed_compression_drops_the_item() {
    let failure = std::io::Error::from(std::io::ErrorKind::Other);
    assert_eq!(compressed_or_dropped(Err(failure)), None);
    assert_eq!(compressed_or_dropped(Ok(vec![1, 2])), Some(vec![1, 2]));
}

#[test]
fn compression_runs_at_the_greatest_effort() {
    assert_eq!(BEST_LEVEL, 9);
    let input = b"Invoice a".to_vec();
    let mut encoder =
        flate2::write::GzEncoder::new(Vec::new(), flate2::Compression::best());
    std::io::Write::write_all(&mut encoder, &input).unwrap();
    assert_eq!(compress(&input).unwrap(), encoder.finish().unwrap());
}
