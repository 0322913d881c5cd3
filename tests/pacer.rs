use bidstream::args::{Args, Format, Type};
use bidstream::event::{Bid, Event, Person};
use bidstream::pacer::EmissionPacer;

#[test]
fn waits_until_the_event_is_due() {
    let p = EmissionPacer::new(false, 1_000);
    assert_eq!(p.delay_nanos(1_000, 0), 0);
    assert_eq!(p.delay_nanos(1_250, 0), 250_000_000);
    assert_eq!(p.delay_nanos(1_250, 100_000_000), 150_000_000);
}

#[test]
fn late_event_is_released_at_once() {
    let p = EmissionPacer::new(false, 1_000);
    assert_eq!(p.delay_nanos(1_250, 250_000_000), 0);
    assert_eq!(p.delay_nanos(1_250, 900_000_000), 0);
}

#[test]
fn consecutive_releases_keep_the_timestamp_gap() {
    let p = EmissionPacer::new(false, 0);
    let first = 10 + p.delay_nanos(100, 10);
    assert_eq!(first, 100_000_000);
    let second = first + p.delay_nanos(130, first);
    assert_eq!(second - first, 30_000_000);
}

#[test]
fn no_wait_never_waits() {
    let p = EmissionPacer::new(true, 0);
    assert_eq!(p.delay_nanos(u64::MAX, 0), 0);
    assert_eq!(p.delay_nanos(5, 0), 0);
}

#[test]
fn largest_timestamp_gap_does_not_overflow() {
    let p = EmissionPacer::new(false, 0);
    assert_eq!(p.delay_nanos(u64::MAX, 0), u64::MAX as u128 * 1_000_000);
}

fn args(type_: Type, offset: u64, step: u64) -> Args {
    Args { type_, number: None, offset, step, format: Format::Json, no_wait: true }
}

#[test]
fn selection_by_offset_step_and_type() {
    let bid = Event::Bid(Bid { auction: 1, bidder: 2, price_bits: 0, date_time: 0, timestamp: 0 });
    let person = Event::Person(Person { id: 1, name: String::new(), date_time: 0, timestamp: 0 });
    let a = args(Type::All, 2, 3);
    assert!(!a.selects(0, &bid));
    assert!(a.selects(2, &bid));
    assert!(!a.selects(3, &bid));
    assert!(a.selects(5, &person));
    let b = args(Type::Bid, 0, 1);
    assert!(b.selects(4, &bid));
    assert!(!b.selects(4, &person));
    let z = args(Type::Person, 1, 0);
    assert!(z.selects(1, &person));
    assert!(!z.selects(2, &person));
}

#[test]
fn limit_defaults_to_unbounded() {
    let mut a = args(Type::All, 0, 1);
    assert_eq!(a.limit(), usize::MAX);
    a.number = Some(7);
    assert_eq!(a.limit(), 7);
}

#[test]
fn event_timestamp_and_kind() {
    let bid = Event::Bid(Bid { auction: 1, bidder: 2, price_bits: 0, date_time: 3, timestamp: 44 });
    assert_eq!(bid.timestamp(), 44);
    assert!(bid.is_bid());
    assert!(Type::Bid.admits(&bid));
    assert!(!Type::Auction.admits(&bid));
}
