//! The settings of one run, and which events of the source it emits.
use crate::event::Event;
use vstd::prelude::*;

verus! {

/// Which kinds of event a run emits.
#[derive(Clone, Copy, Debug, PartialEq, Eq, Structural)]
pub enum Type {
    All,
    Person,
    Auction,
    Bid,
}

/// How a run writes its events.
#[derive(Clone, Copy, Debug, PartialEq, Eq, Structural)]
pub enum Format {
    /// Comma-separated values.
    CSV,
    /// One JSON object per line.
    Json,
    /// Rust debug format.
    Rust,
    /// Length-framed bid records.
    Binary,
}

/// The settings of one run.
#[derive(Clone, Copy, Debug)]
pub struct Args {
    /// The kind of events to emit.
    pub type_: Type,
    /// How many events to emit; without it, no limit.
    pub number: Option<usize>,
    /// The number of the first event of the source to take.
    pub offset: u64,
    /// The distance between the numbers of consecutive events taken.
    pub step: u64,
    /// How the events are written.
    pub format: Format,
    /// Emit every event at once instead of pacing them.
    pub no_wait: bool,
}

/// The events that the filter `t` lets through.
pub open spec fn admitted(t: Type, e: Event) -> bool {
    match t {
        Type::All => true,
        Type::Person => e is Person,
        Type::Auction => e is Auction,
        Type::Bid => e is Bid,
    }
}

/// The source's event number `index` is taken: it is `offset`, or lies a whole
/// number of steps after it. With a step of zero only `offset` itself is.
pub open spec fn index_taken(offset: u64, step: u64, index: u64) -> bool {
    index >= offset && if step == 0 {
        index == offset
    } else {
        (index - offset) % (step as int) == 0
    }
}

impl Type {
    pub fn admits(&self, event: &Event) -> (r: bool)
        ensures
            r == admitted(*self, *event),
    {
        match self {
            Type::All => true,
            Type::Person => matches!(event, Event::Person(_)),
            Type::Auction => matches!(event, Event::Auction(_)),
            Type::Bid => matches!(event, Event::Bid(_)),
        }
    }
}

impl Args {
    /// The most events the run emits.
    pub fn limit(&self) -> (r: usize)
        ensures
            r == match self.number {
                Some(n) => n,
                None => usize::MAX,
            },
    {
        match self.number {
            Some(n) => n,
            None => usize::MAX,
        }
    }

    /// Whether the source's event number `index` is taken.
    pub fn takes_index(&self, index: u64) -> (r: bool)
        ensures
            r == index_taken(self.offset, self.step, index),
    {
        if index < self.offset {
            false
        } else if self.step == 0 {
            index == self.offset
        } else {
            (index - self.offset) % self.step == 0
        }
    }

    /// Whether the run emits the source's event number `index`.
    pub fn selects(&self, index: u64, event: &Event) -> (r: bool)
        ensures
            r == (index_taken(self.offset, self.step, index) && admitted(self.type_, *event)),
    {
        self.takes_index(index) && self.type_.admits(event)
    }
}

} // verus!
