use v4l2r::error::StreamError;
use v4l2r::ivf::IvfReader;

/// A 32-byte global header with arbitrary content.
fn header() -> Vec<u8> {
    let mut h = Vec::new();
    for i in 0..32u8 {
        h.push(i);
    }
    h
}

/// One record: 4-byte little-endian length, 8 timestamp bytes, payload.
fn push_record(out: &mut Vec<u8>, ts: u64, payload: &[u8]) {
    let len = payload.len() as u32;
    out.extend_from_slice(&len.to_le_bytes());
    out.extend_from_slice(&ts.to_le_bytes());
    out.extend_from_slice(payload);
}

#[test]
fn demux_yields_payloads_in_order() {
    let p0: Vec<u8> = vec![1, 2, 3];
    let p1: Vec<u8> = vec![9, 8, 7, 6, 5];
    let p2: Vec<u8> = vec![42];
    let mut stream = header();
    push_record(&mut stream, 100, &p0);
    push_record(&mut stream, 200, &p1);
    push_record(&mut stream, 300, &p2);

    let mut reader = IvfReader::new(stream).unwrap();
    assert_eq!(reader.next(), Some(p0));
    assert_eq!(reader.next(), Some(p1));
    assert_eq!(reader.next(), Some(p2));
    assert_eq!(reader.next(), None);
    assert_eq!(reader.next(), None);
}

#[test]
fn demux_truncated_final_record_ends_cleanly() {
    let p0: Vec<u8> = vec![10, 20, 30, 40];
    let p1: Vec<u8> = vec![50, 60];
    let mut stream = header();
    push_record(&mut stream, 1, &p0);
    push_record(&mut stream, 2, &p1);
    stream.pop();

    let mut reader = IvfReader::new(stream).unwrap();
    assert_eq!(reader.next(), Some(p0));
    assert_eq!(reader.next(), None);
}

#[test]
fn demux_header_too_short_is_an_error() {
    let stream: Vec<u8> = vec![0; 31];
    match IvfReader::new(stream) {
        Err(StreamError::HeaderError) => {},
        _ => panic!("expected HeaderError"),
    }
}

#[test]
fn demux_header_only_yields_nothing() {
    let mut reader = IvfReader::new(header()).unwrap();
    assert_eq!(reader.next(), None);
}

#[test]
fn demux_empty_payload_record() {
    let mut stream = header();
    push_record(&mut stream, 7, &[]);
    let mut reader = IvfReader::new(stream).unwrap();
    assert_eq!(reader.next(), Some(Vec::new()));
    assert_eq!(reader.next(), None);
}

#[test]
fn demux_record_cut_inside_length_field_ends_cleanly() {
    let p0: Vec<u8> = vec![5, 5, 5];
    let mut stream = header();
    push_record(&mut stream, 1, &p0);
    stream.push(9);
    stream.push(0);

    let mut reader = IvfReader::new(stream).unwrap();
    assert_eq!(reader.next(), Some(p0));
    assert_eq!(reader.next(), None);
}
