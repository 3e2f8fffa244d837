use walcraft::buffer::Buffer;
use walcraft::replay::{decode_all, ReplayStep, SegmentDecoder, SegmentQueue};

fn encode(payload: &[u8]) -> Vec<u8> {
    let mut buffer = Buffer::new(Some(1 << 20));
    buffer.add(payload);
    buffer.consume(false)
}

#[test]
fn decode_all_reads_records_in_order() {
    let mut bytes = encode(b"first");
    bytes.extend(encode(b"second"));
    bytes.extend(encode(b"third"));
    let records = decode_all(&bytes);
    assert_eq!(
        records,
        vec![b"first".to_vec(), b"second".to_vec(), b"third".to_vec()]
    );
}

#[test]
fn decode_of_nothing_is_nothing() {
    assert_eq!(decode_all(&[]), Vec::<Vec<u8>>::new());
}

#[test]
fn decode_stops_at_padding() {
    let mut bytes = encode(b"kept");
    bytes.extend(vec![0u8; 64]);
    bytes.extend(encode(b"behind the sentinel"));
    // the zero sentinel ends the segment's data
    assert_eq!(decode_all(&bytes), vec![b"kept".to_vec()]);
}

#[test]
fn decode_stops_at_truncated_tail() {
    let mut bytes = encode(b"whole");
    let mut cut = encode(b"interrupted");
    cut.truncate(cut.len() - 3);
    bytes.extend(cut);
    assert_eq!(decode_all(&bytes), vec![b"whole".to_vec()]);
}

#[test]
fn decoder_streams_across_chunks() {
    let mut bytes = encode(b"alpha");
    bytes.extend(encode(b"beta"));
    bytes.extend(encode(b"gamma"));

    let mut decoder = SegmentDecoder::new();
    let mut records: Vec<Vec<u8>> = Vec::new();
    let mut offset = 0;
    loop {
        match decoder.next_record() {
            ReplayStep::Record(r) => records.push(r),
            ReplayStep::NeedData => {
                if offset == bytes.len() {
                    break;
                }
                // feed a few bytes at a time, as a chunked file read would
                let end = (offset + 3).min(bytes.len());
                decoder.compact();
                decoder.feed(&bytes[offset..end]);
                offset = end;
            }
            ReplayStep::EndOfData => break,
        }
    }
    assert_eq!(
        records,
        vec![b"alpha".to_vec(), b"beta".to_vec(), b"gamma".to_vec()]
    );
}

#[test]
fn decoder_signals_end_of_data_on_zero_head() {
    let mut decoder = SegmentDecoder::new();
    decoder.feed(&[0, 5, 3]);
    assert!(matches!(decoder.next_record(), ReplayStep::EndOfData));
    // the sentinel clears everything fed so far
    assert!(matches!(decoder.next_record(), ReplayStep::NeedData));
}

#[test]
fn queue_walks_the_live_range_in_order() {
    let mut queue = SegmentQueue::new(Some((4, 7)));
    assert_eq!(queue.pop(), Some(4));
    assert_eq!(queue.pop(), Some(5));
    assert_eq!(queue.pop(), Some(6));
    assert_eq!(queue.pop(), Some(7));
    assert_eq!(queue.pop(), None);
}

#[test]
fn queue_wraps_around_the_ring() {
    let mut queue = SegmentQueue::new(Some((u64::MAX - 1, 1)));
    assert_eq!(queue.pop(), Some(u64::MAX - 1));
    assert_eq!(queue.pop(), Some(u64::MAX));
    assert_eq!(queue.pop(), Some(0));
    assert_eq!(queue.pop(), Some(1));
    assert_eq!(queue.pop(), None);
}

#[test]
fn queue_with_equal_pointers_holds_one_segment() {
    let mut queue = SegmentQueue::new(Some((3, 3)));
    assert_eq!(queue.pop(), Some(3));
    assert_eq!(queue.pop(), None);
}

#[test]
fn missing_index_means_nothing_to_replay() {
    let mut queue = SegmentQueue::new(None);
    assert_eq!(queue.pop(), None);
}
