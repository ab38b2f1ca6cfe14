use v4l2r::error::StreamError;
use v4l2r::vp9::{
    SuperframeHeader, Vp9SuperframeParser, MAX_FRAMES_IN_SUPERFRAME, SUPERFRAME_MARKER,
    SUPERFRAME_MARKER_BITS,
};

/// A 32-byte global header with arbitrary content.
fn header() -> Vec<u8> {
    vec![0xAB; 32]
}

/// One record: 4-byte little-endian length, 8 timestamp bytes, payload.
fn push_record(out: &mut Vec<u8>, ts: u64, payload: &[u8]) {
    let len = payload.len() as u32;
    out.extend_from_slice(&len.to_le_bytes());
    out.extend_from_slice(&ts.to_le_bytes());
    out.extend_from_slice(payload);
}

/// A container that holds the given chunks, one record each.
fn container(chunks: &[&[u8]]) -> Vec<u8> {
    let mut stream = header();
    for (i, c) in chunks.iter().enumerate() {
        push_record(&mut stream, i as u64, c);
    }
    stream
}

/// The marker byte for a superframe index: `110`, then the width code,
/// then the count code, most significant bits first.
fn marker_byte(bytes_per_size: u8, frame_count: u8) -> u8 {
    0b1100_0000 | ((bytes_per_size - 1) << 3) | (frame_count - 1)
}

#[test]
fn constants_match_the_bit_layout() {
    assert_eq!(SUPERFRAME_MARKER, 0x06);
    assert_eq!(SUPERFRAME_MARKER_BITS, 3);
    assert_eq!(MAX_FRAMES_IN_SUPERFRAME, 8);
    assert_eq!(marker_byte(1, 3), 0xC2);
    assert_eq!(
        marker_byte(1, 3) >> (8 - SUPERFRAME_MARKER_BITS),
        SUPERFRAME_MARKER as u8
    );
}

#[test]
fn chunk_without_marker_is_one_frame() {
    // Top 3 bits of the last byte are 0b001, not the marker.
    let chunk: Vec<u8> = vec![1, 2, 3, 4, 0x20];
    let stream = container(&[&chunk]);
    let mut parser = Vp9SuperframeParser::new(stream).unwrap();
    assert_eq!(parser.next().unwrap(), Some(chunk));
    assert_eq!(parser.next().unwrap(), None);
}

#[test]
fn superframe_with_three_frames_is_split() {
    // Three sub-frames of 10, 20 and 30 bytes, one byte per size field:
    // index bytes [0xC2] [10] [20] [30] [0xC2].
    let mut chunk: Vec<u8> = Vec::new();
    for i in 0..60u8 {
        chunk.push(i);
    }
    let m = marker_byte(1, 3);
    chunk.extend_from_slice(&[m, 10, 20, 30, m]);

    let stream = container(&[&chunk]);
    let mut parser = Vp9SuperframeParser::new(stream).unwrap();

    let f0 = parser.next().unwrap().unwrap();
    let f1 = parser.next().unwrap().unwrap();
    let f2 = parser.next().unwrap().unwrap();
    assert_eq!(f0, chunk[0..10].to_vec());
    assert_eq!(f1, chunk[10..30].to_vec());
    assert_eq!(f2, chunk[30..60].to_vec());
    assert_eq!(parser.next().unwrap(), None);
}

#[test]
fn duplicate_marker_mismatch_is_one_frame() {
    // The last byte carries the marker, but the byte where the index
    // would start differs: not a superframe.
    let mut chunk: Vec<u8> = vec![0; 60];
    let m = marker_byte(1, 3);
    chunk.extend_from_slice(&[0x00, 10, 20, 30, m]);

    let stream = container(&[&chunk]);
    let mut parser = Vp9SuperframeParser::new(stream).unwrap();
    assert_eq!(parser.next().unwrap(), Some(chunk));
    assert_eq!(parser.next().unwrap(), None);
}

#[test]
fn index_larger_than_chunk_is_malformed() {
    // The marker announces 3 one-byte sizes (index of 5 bytes) but the
    // chunk only has 2 bytes.
    let m = marker_byte(1, 3);
    let chunk: Vec<u8> = vec![m, m];
    let stream = container(&[&chunk]);
    let mut parser = Vp9SuperframeParser::new(stream).unwrap();
    match parser.next() {
        Err(StreamError::MalformedSuperframeError) => {},
        _ => panic!("expected MalformedSuperframeError"),
    }
}

#[test]
fn empty_chunk_is_malformed() {
    let chunk: Vec<u8> = Vec::new();
    let stream = container(&[&chunk]);
    let mut parser = Vp9SuperframeParser::new(stream).unwrap();
    match parser.next() {
        Err(StreamError::MalformedSuperframeError) => {},
        _ => panic!("expected MalformedSuperframeError"),
    }
}

#[test]
fn frame_size_overrunning_chunk_is_truncated() {
    // One listed frame of 200 bytes in an 8-byte chunk.
    let m = marker_byte(1, 1);
    let mut chunk: Vec<u8> = vec![1, 2, 3, 4, 5];
    chunk.extend_from_slice(&[m, 200, m]);
    let stream = container(&[&chunk]);
    let mut parser = Vp9SuperframeParser::new(stream).unwrap();
    match parser.next() {
        Err(StreamError::TruncatedFrameError) => {},
        _ => panic!("expected TruncatedFrameError"),
    }
}

#[test]
fn frames_concatenate_back_to_the_chunk_when_sizes_cover_it() {
    // Two frames of 3 and 5 bytes over an 8-byte chunk: the second
    // frame is the index block itself, so the sizes cover every byte.
    let m = marker_byte(1, 2);
    let chunk: Vec<u8> = vec![7, 8, 9, 50, m, 3, 5, m];
    assert_eq!(chunk[4], m);

    let stream = container(&[&chunk]);
    let mut parser = Vp9SuperframeParser::new(stream).unwrap();
    let mut rebuilt: Vec<u8> = Vec::new();
    while let Some(frame) = parser.next().unwrap() {
        rebuilt.extend_from_slice(&frame);
    }
    assert_eq!(rebuilt, chunk);
}

#[test]
fn two_byte_size_fields_are_little_endian() {
    // One frame of 4 bytes, two bytes per size field:
    // index bytes [0xC8] [0x04 0x00] [0xC8].
    let m = marker_byte(2, 1);
    let mut chunk: Vec<u8> = vec![11, 22, 33, 44];
    chunk.extend_from_slice(&[m, 0x04, 0x00, m]);

    let stream = container(&[&chunk]);
    let mut parser = Vp9SuperframeParser::new(stream).unwrap();
    assert_eq!(parser.next().unwrap(), Some(vec![11, 22, 33, 44]));
    assert_eq!(parser.next().unwrap(), None);
}

#[test]
fn splitter_walks_several_chunks_in_order() {
    let plain: Vec<u8> = vec![1, 1, 1, 0x00];
    let m = marker_byte(1, 2);
    let mut packed: Vec<u8> = vec![5, 5, 6, 6, 6];
    packed.extend_from_slice(&[m, 2, 3, m]);

    let stream = container(&[&plain, &packed]);
    let mut parser = Vp9SuperframeParser::new(stream).unwrap();
    assert_eq!(parser.next().unwrap(), Some(plain));
    assert_eq!(parser.next().unwrap(), Some(vec![5, 5]));
    assert_eq!(parser.next().unwrap(), Some(vec![6, 6, 6]));
    assert_eq!(parser.next().unwrap(), None);
}

#[test]
fn superframe_with_the_maximum_eight_frames() {
    let m = marker_byte(1, 8);
    let mut chunk: Vec<u8> = (0..8u8).collect();
    chunk.push(m);
    chunk.extend_from_slice(&[1; 8]);
    chunk.push(m);

    let stream = container(&[&chunk]);
    let mut parser = Vp9SuperframeParser::new(stream).unwrap();
    for i in 0..8u8 {
        assert_eq!(parser.next().unwrap(), Some(vec![i]));
    }
    assert_eq!(parser.next().unwrap(), None);
}

#[test]
fn parse_superframe_hdr_reads_the_index() {
    let m = marker_byte(1, 3);
    let mut chunk: Vec<u8> = vec![0xEE; 60];
    chunk.extend_from_slice(&[m, 10, 20, 30, m]);
    let hdr = Vp9SuperframeParser::parse_superframe_hdr(&chunk).unwrap();
    assert_eq!(hdr.frames_in_superframe, 3);
    assert_eq!(hdr.frame_sizes, vec![10, 20, 30]);
}

#[test]
fn parse_superframe_hdr_without_marker_lists_the_whole_chunk() {
    let chunk: Vec<u8> = vec![1, 2, 3, 0x1F];
    let hdr = Vp9SuperframeParser::parse_superframe_hdr(&chunk).unwrap();
    assert_eq!(hdr.frames_in_superframe, 1);
    assert_eq!(hdr.frame_sizes, vec![4]);
}

#[test]
fn parse_superframe_hdr_empty_chunk_is_malformed() {
    let chunk: Vec<u8> = Vec::new();
    match Vp9SuperframeParser::parse_superframe_hdr(&chunk) {
        Err(StreamError::MalformedSuperframeError) => {},
        _ => panic!("expected MalformedSuperframeError"),
    }
}

#[test]
fn default_superframe_header_is_empty() {
    let hdr = SuperframeHeader::default();
    assert_eq!(hdr.frames_in_superframe, 0);
    assert!(hdr.frame_sizes.is_empty());
}

#[test]
fn splitter_header_too_short_is_an_error() {
    let stream: Vec<u8> = vec![0; 10];
    match Vp9SuperframeParser::new(stream) {
        Err(StreamError::HeaderError) => {},
        _ => panic!("expected HeaderError"),
    }
}
