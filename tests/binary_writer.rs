use bidstream::binary_writer::{BinaryWriter, WriteError};
use bidstream::event::{Auction, Bid, Event, Person};
use bidstream::record::{BinaryBid, UnsupportedVariant, RECORD_SIZE};

fn bid(auction: usize, bidder: usize, price: f64, date_time: u64, timestamp: u64) -> Event {
    Event::Bid(Bid { auction, bidder, price_bits: price.to_bits(), date_time, timestamp })
}

fn native_record(words: [u64; 5]) -> Vec<u8> {
    let mut out = Vec::new();
    for w in words {
        out.extend_from_slice(&w.to_ne_bytes());
    }
    out
}

/// Splits a stream of frames into their payloads.
fn decode(stream: &[u8]) -> Vec<Vec<u8>> {
    let mut payloads = Vec::new();
    let mut at = 0;
    while at < stream.len() {
        let mut header = [0u8; 8];
        header.copy_from_slice(&stream[at..at + 8]);
        let n = u64::from_le_bytes(header) as usize;
        payloads.push(stream[at + 8..at + 8 + n].to_vec());
        at += 8 + n;
    }
    payloads
}

#[test]
fn capacity_128_with_40_byte_records() {
    let mut w = BinaryWriter::new(128);
    let rec = [7u8; 40];
    for _ in 0..3 {
        assert_eq!(w.write_bytes(&rec), Ok(None));
    }
    let frame = w.write_bytes(&rec).unwrap().expect("the fourth record flushes");
    assert_eq!(frame.len(), 8 + 120);
    assert_eq!(&frame[..8], &120u64.to_le_bytes());
    assert_eq!(&frame[8..], &[7u8; 120][..]);
    let last = w.flush().expect("the fourth record is pending");
    assert_eq!(&last[..8], &40u64.to_le_bytes());
    assert_eq!(last.len(), 48);
}

#[test]
fn flush_threshold_with_records_of_forty_bytes() {
    // (100 - 1) / 40 = 2 records go in without a flush.
    let mut w = BinaryWriter::new(100);
    let a = [1u8; 40];
    let b = [2u8; 40];
    let c = [3u8; 40];
    assert_eq!(w.write_bytes(&a), Ok(None));
    assert_eq!(w.write_bytes(&b), Ok(None));
    let frame = w.write_bytes(&c).unwrap().unwrap();
    let mut expected = 80u64.to_le_bytes().to_vec();
    expected.extend_from_slice(&a);
    expected.extend_from_slice(&b);
    assert_eq!(frame, expected);
    let rest = w.flush().unwrap();
    assert_eq!(&rest[8..], &c[..]);
}

#[test]
fn record_filling_the_buffer_exactly_is_flushed_first() {
    // 40 + 40 = 80 is not strictly below 80.
    let mut w = BinaryWriter::new(80);
    assert_eq!(w.write_bytes(&[1u8; 40]), Ok(None));
    let frame = w.write_bytes(&[2u8; 40]).unwrap().unwrap();
    assert_eq!(&frame[..8], &40u64.to_le_bytes());
}

#[test]
fn second_flush_sends_nothing() {
    let mut w = BinaryWriter::new(64);
    assert_eq!(w.write_bytes(&[9u8; 10]), Ok(None));
    assert!(w.flush().is_some());
    assert_eq!(w.flush(), None);
    assert_eq!(w.flush(), None);
}

#[test]
fn flush_of_empty_writer_sends_nothing() {
    let mut w = BinaryWriter::new(64);
    assert_eq!(w.flush(), None);
}

#[test]
fn length_header_counts_pending_bytes_not_capacity() {
    let mut w = BinaryWriter::new(8192);
    assert_eq!(w.write_bytes(&[5u8; 3]), Ok(None));
    let frame = w.flush().unwrap();
    assert_eq!(frame, vec![3, 0, 0, 0, 0, 0, 0, 0, 5, 5, 5]);
}

#[test]
fn record_not_smaller_than_capacity_is_refused() {
    let mut w = BinaryWriter::new(40);
    assert_eq!(w.write_bytes(&[1u8; 40]), Err(WriteError::RecordTooLarge));
    assert_eq!(w.write_bytes(&[1u8; 41]), Err(WriteError::RecordTooLarge));
    assert_eq!(w.flush(), None);
    let mut z = BinaryWriter::new(0);
    assert_eq!(z.write_bytes(&[]), Err(WriteError::RecordTooLarge));
}

#[test]
fn refused_record_leaves_pending_bytes() {
    let mut w = BinaryWriter::new(16);
    assert_eq!(w.write_bytes(&[4u8; 5]), Ok(None));
    assert_eq!(w.write_bytes(&[1u8; 16]), Err(WriteError::RecordTooLarge));
    assert_eq!(w.flush().unwrap(), vec![5, 0, 0, 0, 0, 0, 0, 0, 4, 4, 4, 4, 4]);
}

#[test]
fn non_bid_events_are_refused() {
    let mut w = BinaryWriter::new(128);
    let person = Event::Person(Person { id: 1, name: "ann".to_string(), date_time: 10, timestamp: 10 });
    let auction = Event::Auction(Auction {
        id: 2,
        item_name: "lamp".to_string(),
        seller: 1,
        date_time: 11,
        timestamp: 11,
    });
    assert_eq!(w.write_event(&person), Err(WriteError::UnsupportedVariant));
    assert_eq!(w.write_event(&auction), Err(WriteError::UnsupportedVariant));
    assert_eq!(w.flush(), None);
    assert_eq!(BinaryBid::try_from_event(&person), Err(UnsupportedVariant));
}

#[test]
fn bid_converts_with_widened_fields() {
    let e = bid(3, 4, 2.5, 1_000, 2_000);
    let b = BinaryBid::try_from_event(&e).unwrap();
    assert_eq!(
        b,
        BinaryBid {
            creation_ts: 1_000,
            auction_id: 3,
            bidder_id: 4,
            timestamp: 2_000,
            price_bits: 2.5f64.to_bits(),
        }
    );
}

#[test]
fn record_bytes_are_the_native_words() {
    let b = BinaryBid { creation_ts: 1, auction_id: 0x0102, bidder_id: 3, timestamp: 4, price_bits: 5 };
    let bytes = b.to_bytes();
    assert_eq!(bytes.len(), RECORD_SIZE);
    assert_eq!(bytes, native_record([1, 0x0102, 3, 4, 5]));
}

#[test]
fn frames_decode_to_the_records_written() {
    let mut w = BinaryWriter::new(128);
    let mut stream = Vec::new();
    let mut expected = Vec::new();
    for i in 0..10u64 {
        let e = bid(i as usize, 100 + i as usize, i as f64 * 1.5, 5_000 + i, 6_000 + i);
        expected.extend(native_record([5_000 + i, i, 100 + i, 6_000 + i, (i as f64 * 1.5).to_bits()]));
        if let Some(frame) = w.write_event(&e).unwrap() {
            stream.extend(frame);
        }
    }
    if let Some(frame) = w.flush() {
        stream.extend(frame);
    }
    let payloads = decode(&stream);
    assert_eq!(payloads.len(), 4);
    for p in &payloads {
        assert_eq!(p.len() % RECORD_SIZE, 0);
    }
    assert_eq!(payloads.concat(), expected);
}

#[test]
fn write_buffer_takes_a_record() {
    let mut w = BinaryWriter::new(64);
    let b = BinaryBid { creation_ts: 9, auction_id: 8, bidder_id: 7, timestamp: 6, price_bits: 5 };
    assert_eq!(w.write_buffer(&b), Ok(None));
    let frame = w.flush().unwrap();
    assert_eq!(&frame[..8], &40u64.to_le_bytes());
    assert_eq!(&frame[8..], &native_record([9, 8, 7, 6, 5])[..]);
}
