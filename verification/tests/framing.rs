use kumo::error::WireError;
use kumo::frame::{decode_length, encode_frame, encode_length, frame_header};
use kumo::reader::ExactReader;
use kumo::source::{read_exact_n, read_frame, write_frame, MemorySource};

fn framed(payload: &[u8]) -> Vec<u8> {
    let mut sink = Vec::new();
    write_frame(&mut sink, payload).unwrap();
    sink
}

#[test]
fn header_is_little_endian() {
    assert_eq!(encode_length(0), [0, 0, 0, 0]);
    assert_eq!(encode_length(5), [5, 0, 0, 0]);
    assert_eq!(encode_length(0x0102_0304), [4, 3, 2, 1]);
    assert_eq!(encode_length(u32::MAX), [255, 255, 255, 255]);
    assert_eq!(decode_length(&[4, 3, 2, 1]), 0x0102_0304);
    assert_eq!(decode_length(&[100, 0, 0, 0]), 100);
    assert_eq!(decode_length(&[0, 1, 0, 0]), 256);
    assert_eq!(decode_length(&[255, 255, 255, 255]), u32::MAX);
}

#[test]
fn header_agrees_with_std() {
    for n in [0u32, 1, 255, 256, 65535, 65536, 16_777_215, 16_777_216, 0xdead_beef, u32::MAX] {
        assert_eq!(encode_length(n), n.to_le_bytes());
        assert_eq!(decode_length(&n.to_le_bytes()), n);
    }
}

#[test]
fn frame_is_header_then_payload() {
    assert_eq!(encode_frame(b"{}").unwrap(), vec![2, 0, 0, 0, b'{', b'}']);
    assert_eq!(encode_frame(b"").unwrap(), vec![0, 0, 0, 0]);
    let long = vec![7u8; 300];
    let bytes = encode_frame(&long).unwrap();
    assert_eq!(&bytes[..4], &[44, 1, 0, 0]);
    assert_eq!(&bytes[4..], &long[..]);
}

#[test]
fn write_frame_appends() {
    let mut sink = vec![9u8];
    write_frame(&mut sink, b"ab").unwrap();
    write_frame(&mut sink, b"c").unwrap();
    assert_eq!(sink, vec![9, 2, 0, 0, 0, b'a', b'b', 1, 0, 0, 0, b'c']);
}

#[test]
fn header_refuses_a_length_beyond_four_bytes() {
    assert_eq!(frame_header(0xffff_ffff), Ok([255, 255, 255, 255]));
    let too_long = 0xffff_ffffu64 + 1;
    if let Ok(len) = usize::try_from(too_long) {
        assert_eq!(frame_header(len), Err(WireError::Malformed));
    }
}

#[test]
fn round_trip_framing() {
    let payloads: Vec<Vec<u8>> = vec![
        vec![],
        vec![0],
        b"{\"method\":\"list-views\",\"data\":{}}".to_vec(),
        (0..=255u8).collect(),
        vec![0xff; 70_000],
    ];
    for payload in payloads {
        let mut source = MemorySource::new(framed(&payload));
        assert_eq!(read_frame(&mut source), Ok(payload));
    }
}

#[test]
fn round_trip_framing_in_sequence() {
    let mut wire = framed(b"first");
    wire.extend(framed(b""));
    wire.extend(framed(b"third"));
    let mut source = MemorySource::new(wire);
    assert_eq!(read_frame(&mut source), Ok(b"first".to_vec()));
    assert_eq!(read_frame(&mut source), Ok(vec![]));
    assert_eq!(read_frame(&mut source), Ok(b"third".to_vec()));
    assert_eq!(read_frame(&mut source), Err(WireError::ConnectionClosed));
}

#[test]
fn partial_read_resilience() {
    let data: Vec<u8> = (0..200u8).collect();
    for n in [0usize, 1, 4, 57, 200] {
        let mut whole = MemorySource::new(data.clone());
        let at_once = read_exact_n(&mut whole, n);
        assert_eq!(at_once, Ok(data[..n].to_vec()));
        let mut bytewise = MemorySource::chunked(data.clone(), vec![1; 200]);
        assert_eq!(read_exact_n(&mut bytewise, n), at_once);
        let mut ragged = MemorySource::chunked(data.clone(), vec![3, 0, 1, 7, 2, 50, 1, 1]);
        assert_eq!(read_exact_n(&mut ragged, n), at_once);
    }
}

#[test]
fn partial_reads_leave_the_rest_in_place() {
    let mut source = MemorySource::chunked((0..10u8).collect(), vec![2, 2, 2, 2, 2]);
    assert_eq!(read_exact_n(&mut source, 3), Ok(vec![0, 1, 2]));
    assert_eq!(read_exact_n(&mut source, 3), Ok(vec![3, 4, 5]));
    assert_eq!(read_exact_n(&mut source, 4), Ok(vec![6, 7, 8, 9]));
    assert_eq!(read_exact_n(&mut source, 0), Ok(vec![]));
    assert_eq!(read_exact_n(&mut source, 1), Err(WireError::ConnectionClosed));
}

#[test]
fn read_exact_on_a_short_stream_is_closed() {
    let mut source = MemorySource::new(vec![1, 2, 3]);
    assert_eq!(read_exact_n(&mut source, 4), Err(WireError::ConnectionClosed));
    let mut source = MemorySource::chunked(vec![1, 2, 3], vec![1, 1, 1, 1]);
    assert_eq!(read_exact_n(&mut source, 4), Err(WireError::ConnectionClosed));
}

#[test]
fn framed_read_in_small_pieces() {
    let payload = b"{\"ok\":true}".to_vec();
    let mut source = MemorySource::chunked(framed(&payload), vec![1; 64]);
    assert_eq!(read_frame(&mut source), Ok(payload));
}

#[test]
fn closed_mid_frame_detection() {
    let mut source = MemorySource::new(100u32.to_le_bytes().to_vec());
    assert_eq!(read_frame(&mut source), Err(WireError::ConnectionClosed));
}

#[test]
fn closed_inside_payload_or_header() {
    let mut wire = 100u32.to_le_bytes().to_vec();
    wire.extend(vec![b'x'; 99]);
    let mut source = MemorySource::new(wire);
    assert_eq!(read_frame(&mut source), Err(WireError::ConnectionClosed));
    let mut source = MemorySource::new(vec![5, 0, 0]);
    assert_eq!(read_frame(&mut source), Err(WireError::ConnectionClosed));
    let mut source = MemorySource::new(vec![]);
    assert_eq!(read_frame(&mut source), Err(WireError::ConnectionClosed));
}

#[test]
fn exact_reader_counts_down() {
    let mut reader = ExactReader::new(5);
    assert_eq!(reader.remaining(), 5);
    assert!(!reader.is_complete());
    assert_eq!(reader.feed(b"ab"), Ok(()));
    assert_eq!(reader.remaining(), 3);
    assert_eq!(reader.feed(b"cde"), Ok(()));
    assert!(reader.is_complete());
    assert_eq!(reader.remaining(), 0);
    assert_eq!(reader.feed(b""), Ok(()));
    assert_eq!(reader.into_bytes(), b"abcde".to_vec());
}

#[test]
fn exact_reader_for_nothing_is_complete() {
    let reader = ExactReader::new(0);
    assert!(reader.is_complete());
    assert_eq!(reader.into_bytes(), Vec::<u8>::new());
}

#[test]
fn exact_reader_reports_a_closed_stream() {
    let mut reader = ExactReader::new(3);
    assert_eq!(reader.feed(b"a"), Ok(()));
    assert_eq!(reader.feed(b""), Err(WireError::ConnectionClosed));
    assert_eq!(reader.remaining(), 2);
    assert_eq!(reader.into_bytes(), b"a".to_vec());
}

#[test]
fn exact_reader_refuses_more_than_was_asked() {
    let mut reader = ExactReader::new(3);
    assert_eq!(reader.feed(b"abcd"), Err(WireError::IoError));
    assert_eq!(reader.remaining(), 3);
    assert_eq!(reader.feed(b"abc"), Ok(()));
    assert_eq!(reader.into_bytes(), b"abc".to_vec());
}

#[test]
fn memory_source_follows_its_schedule() {
    let mut source = MemorySource::chunked((1..=10u8).collect(), vec![3, 0, 100]);
    assert_eq!(source.read(2), vec![1, 2]);
    assert_eq!(source.read(8), vec![3]);
    assert_eq!(source.read(4), vec![4, 5, 6, 7]);
    assert_eq!(source.read(0), Vec::<u8>::new());
    assert_eq!(source.read(100), vec![8, 9, 10]);
    assert_eq!(source.read(100), Vec::<u8>::new());
}
