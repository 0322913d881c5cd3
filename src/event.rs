//! The tagged events of the stream. Only a bid has a binary record.
use vstd::prelude::*;

verus! {

/// A new person joins.
#[derive(Debug)]
pub struct Person {
    pub id: u64,
    pub name: String,
    pub date_time: u64,
    pub timestamp: u64,
}

/// A new auction opens.
#[derive(Debug)]
pub struct Auction {
    pub id: u64,
    pub item_name: String,
    pub seller: u64,
    pub date_time: u64,
    pub timestamp: u64,
}

/// A bid on an auction. The price is held as the bits of its 64-bit float.
#[derive(Debug)]
pub struct Bid {
    pub auction: usize,
    pub bidder: usize,
    pub price_bits: u64,
    pub date_time: u64,
    pub timestamp: u64,
}

#[derive(Debug)]
pub enum Event {
    Person(Person),
    Auction(Auction),
    Bid(Bid),
}

/// The logical timestamp, in milliseconds, that an event carries.
pub open spec fn timestamp_of(e: Event) -> u64 {
    match e {
        Event::Person(p) => p.timestamp,
        Event::Auction(a) => a.timestamp,
        Event::Bid(b) => b.timestamp,
    }
}

impl Event {
    pub fn timestamp(&self) -> (r: u64)
        ensures
            r == timestamp_of(*self),
    {
        match self {
            Event::Person(p) => p.timestamp,
            Event::Auction(a) => a.timestamp,
            Event::Bid(b) => b.timestamp,
        }
    }

    pub fn is_bid(&self) -> (r: bool)
        ensures
            r == (*self is Bid),
    {
        match self {
            Event::Bid(_) => true,
            _ => false,
        }
    }
}

} // verus!
