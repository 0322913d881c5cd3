//! The fixed 40-byte binary record of a bid: five 64-bit words in the
//! machine's own layout.
use crate::event::{Bid, Event};
use crate::frame::le_bytes;
use vstd::prelude::*;

verus! {

/// Size in bytes of one record.
pub const RECORD_SIZE: usize = 40;

/// The binary projection of a bid. The price is the bit pattern of its float.
#[derive(Clone, Copy, Debug, PartialEq, Eq, Structural)]
pub struct BinaryBid {
    pub creation_ts: u64,
    pub auction_id: u64,
    pub bidder_id: u64,
    pub timestamp: u64,
    pub price_bits: u64,
}

/// Only bids have a binary record.
#[derive(Clone, Copy, Debug, PartialEq, Eq, Structural)]
pub struct UnsupportedVariant;

/// The eight bytes of `x` in the given byte order.
pub open spec fn word_bytes(x: u64, little_endian: bool) -> Seq<u8> {
    if little_endian {
        le_bytes(x)
    } else {
        le_bytes(x).reverse()
    }
}

/// The five words of `w`, one after another, in the given byte order.
pub open spec fn words_bytes(w: Seq<u64>, little_endian: bool) -> Seq<u8>
    recommends
        w.len() == 5,
{
    word_bytes(w[0], little_endian) + word_bytes(w[1], little_endian) + word_bytes(
        w[2],
        little_endian,
    ) + word_bytes(w[3], little_endian) + word_bytes(w[4], little_endian)
}

/// Relies on `bytemuck::bytes_of`, which hands out the memory of a `[u64; 5]`:
/// the five words in order, each in the machine's byte order.
#[verifier::external_body]
fn native_words(a: u64, b: u64, c: u64, d: u64, e: u64) -> (r: Vec<u8>)
    ensures
        r@ == words_bytes(seq![a, b, c, d, e], true) || r@ == words_bytes(
            seq![a, b, c, d, e],
            false,
        ),
{
    bytemuck::bytes_of(&[a, b, c, d, e]).to_vec()
}

impl BinaryBid {
    /// The record made from a bid: every identifier widened to 64 bits.
    pub open spec fn of_bid(b: Bid) -> BinaryBid {
        BinaryBid {
            creation_ts: b.date_time,
            auction_id: b.auction as u64,
            bidder_id: b.bidder as u64,
            timestamp: b.timestamp,
            price_bits: b.price_bits,
        }
    }

    /// The fields in record order.
    pub open spec fn words(self) -> Seq<u64> {
        seq![self.creation_ts, self.auction_id, self.bidder_id, self.timestamp, self.price_bits]
    }

    /// `bytes` is the record of `self` in one of the two byte orders.
    pub open spec fn is_image(self, bytes: Seq<u8>) -> bool {
        bytes == words_bytes(self.words(), true) || bytes == words_bytes(self.words(), false)
    }

    /// The record of a bid event; any other event has none.
    pub fn try_from_event(event: &Event) -> (r: Result<BinaryBid, UnsupportedVariant>)
        ensures
            match event {
                Event::Bid(b) => r == Ok::<BinaryBid, UnsupportedVariant>(BinaryBid::of_bid(*b)),
                _ => r == Err::<BinaryBid, UnsupportedVariant>(UnsupportedVariant),
            },
    {
        match event {
            Event::Bid(b) => Ok(
                BinaryBid {
                    creation_ts: b.date_time,
                    auction_id: b.auction as u64,
                    bidder_id: b.bidder as u64,
                    timestamp: b.timestamp,
                    price_bits: b.price_bits,
                },
            ),
            _ => Err(UnsupportedVariant),
        }
    }

    /// The 40 bytes of the record, in the machine's layout.
    pub fn to_bytes(&self) -> (r: Vec<u8>)
        ensures
            self.is_image(r@),
            r@.len() == RECORD_SIZE,
    {
        let r = native_words(
            self.creation_ts,
            self.auction_id,
            self.bidder_id,
            self.timestamp,
            self.price_bits,
        );
        r
    }
}

} // verus!
