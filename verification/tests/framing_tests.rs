use znet::framing::{BufferReader, encode_records, read_le16, read_le32, Framing};

/// One packet-filter record: 18-byte header (zero timestamp, captured and
/// payload length, header length), payload, zero padding to 4 bytes.
fn record(payload: &[u8]) -> Vec<u8> {
    let d = payload.len();
    let mut rec = vec![0u8; 8];
    for _ in 0..2 {
        rec.push((d % 256) as u8);
        rec.push((d / 256 % 256) as u8);
        rec.push((d / 65536 % 256) as u8);
        rec.push((d / 16777216 % 256) as u8);
    }
    rec.push(18);
    rec.push(0);
    rec.extend_from_slice(payload);
    while rec.len() % 4 != 0 {
        rec.push(0);
    }
    rec
}

#[test]
fn le_field_reads() {
    let b = [0x34u8, 0x12, 0x78, 0x56, 0x01, 0x00];
    assert_eq!(read_le16(&b, 0), 0x1234);
    assert_eq!(read_le16(&b, 2), 0x5678);
    assert_eq!(read_le32(&b, 0), 0x5678_1234);
    assert_eq!(read_le32(&b, 2), 0x0001_5678);
}

#[test]
fn empty_buffer_yields_nothing() {
    let buf: Vec<u8> = Vec::new();
    let mut reader = BufferReader::new(&buf, 0);
    assert_eq!(reader.next(), None);
    assert_eq!(reader.offset(), 0);
    assert_eq!(reader.len(), 0);
}

#[test]
fn single_record() {
    let buf = record(&[0xaa, 0xbb, 0xcc]);
    let n = buf.len();
    let mut reader = BufferReader::new(&buf, n);
    assert_eq!(reader.next(), Some((18, 21)));
    assert_eq!(&buf[18..21], &[0xaa, 0xbb, 0xcc]);
    assert_eq!(reader.next(), None);
}

#[test]
fn well_formed_then_truncated_yields_one_range() {
    // One whole record, then a record whose header claims more payload
    // than the buffer holds: the reader stops after the first range.
    let mut buf = record(&[1, 2, 3, 4]);
    let first_end = buf.len();
    let mut tail = record(&[9; 4]);
    tail[12] = 100; // claimed payload length far past the valid length
    buf.extend_from_slice(&tail);
    let n = buf.len();
    let mut reader = BufferReader::new(&buf, n);
    assert_eq!(reader.next(), Some((18, 22)));
    assert!(reader.offset() <= first_end);
    assert_eq!(reader.next(), None);
    assert_eq!(reader.next(), None);
}

#[test]
fn truncated_header_alone_yields_nothing() {
    // Fewer bytes than one record header: end of sequence, not an error.
    let buf = vec![0u8; 10];
    let mut reader = BufferReader::new(&buf, 10);
    assert_eq!(reader.next(), None);
}

#[test]
fn round_trip_zero_records() {
    let payloads: Vec<Vec<u8>> = Vec::new();
    let buf = encode_records(&payloads).unwrap();
    assert_eq!(buf.len(), 0);
    let mut reader = BufferReader::new(&buf, 0);
    assert_eq!(reader.ranges(), Vec::new());
}

#[test]
fn round_trip_one_record() {
    let payloads = vec![vec![0xde, 0xad, 0xbe, 0xef, 0x99]];
    let buf = encode_records(&payloads).unwrap();
    let n = buf.len();
    let mut reader = BufferReader::new(&buf, n);
    let ranges = reader.ranges();
    assert_eq!(ranges.len(), 1);
    let (s, e) = ranges[0];
    assert_eq!(&buf[s..e], payloads[0].as_slice());
}

#[test]
fn round_trip_five_records() {
    let payloads: Vec<Vec<u8>> = vec![
        vec![],
        vec![1],
        vec![2, 3],
        (0u8..100).collect(),
        vec![0xff; 7],
    ];
    let buf = encode_records(&payloads).unwrap();
    let n = buf.len();
    let mut reader = BufferReader::new(&buf, n);
    let ranges = reader.ranges();
    assert_eq!(ranges.len(), 5);
    for (i, &(s, e)) in ranges.iter().enumerate() {
        assert_eq!(&buf[s..e], payloads[i].as_slice());
    }
}

#[test]
fn ranges_are_increasing_disjoint_and_in_bounds() {
    let payloads: Vec<Vec<u8>> = vec![vec![5; 9], vec![6; 1], vec![7; 30]];
    let buf = encode_records(&payloads).unwrap();
    let n = buf.len();
    let mut reader = BufferReader::new(&buf, n);
    let ranges = reader.ranges();
    assert_eq!(ranges.len(), 3);
    for &(s, e) in &ranges {
        assert!(s <= e && e <= n);
    }
    for w in ranges.windows(2) {
        assert!(w[0].1 < w[1].0);
    }
}

#[test]
fn whole_framing_yields_entire_valid_region_once() {
    let buf = vec![1u8, 2, 3, 4, 5, 6];
    let mut reader = BufferReader::new_whole(&buf, 4);
    assert_eq!(reader.next(), Some((0, 4)));
    assert_eq!(reader.next(), None);

    let mut empty = BufferReader::new_whole(&buf, 0);
    assert_eq!(empty.next(), None);
    assert_eq!(empty.framing, Framing::Whole);
}

#[test]
fn reading_again_from_same_buffer_is_idempotent() {
    let payloads = vec![vec![1, 2, 3], vec![4, 5]];
    let buf = encode_records(&payloads).unwrap();
    let n = buf.len();
    let mut first = BufferReader::new(&buf, n);
    let mut second = BufferReader::new(&buf, n);
    assert_eq!(first.ranges(), second.ranges());
}
