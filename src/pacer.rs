//! Pacing: releasing each event no earlier than its logical timestamp, taken
//! relative to the first event of the stream, says it is due on the wall clock.
use vstd::prelude::*;

verus! {

/// Nanoseconds in one millisecond of logical time.
pub const NANOS_PER_MILLI: u128 = 1_000_000;

/// When, in nanoseconds after the pacer started, the event stamped `timestamp`
/// is due, for a stream whose first event is stamped `start`.
pub open spec fn due_nanos(start: u64, timestamp: u64) -> int {
    (timestamp - start) * 1_000_000
}

/// How long to wait before releasing an event that is due at `due` when
/// `elapsed` nanoseconds have passed: until it is due, or not at all once it
/// is, or in no-wait mode.
pub open spec fn wait_nanos(no_wait: bool, due: int, elapsed: int) -> int {
    if no_wait || due <= elapsed {
        0
    } else {
        due - elapsed
    }
}

/// The pacing discipline of one run.
pub struct EmissionPacer {
    /// Release every event at once.
    pub no_wait: bool,
    /// The logical timestamp of the first event of the stream.
    pub start_timestamp: u64,
}

impl EmissionPacer {
    pub fn new(no_wait: bool, start_timestamp: u64) -> (r: Self)
        ensures
            r.no_wait == no_wait,
            r.start_timestamp == start_timestamp,
    {
        EmissionPacer { no_wait, start_timestamp }
    }

    /// Nanoseconds to block before releasing the event stamped `timestamp`,
    /// `elapsed_nanos` after the pacer started.
    pub fn delay_nanos(&self, timestamp: u64, elapsed_nanos: u128) -> (r: u128)
        requires
            self.start_timestamp <= timestamp,
        ensures
            r == wait_nanos(
                self.no_wait,
                due_nanos(self.start_timestamp, timestamp),
                elapsed_nanos as int,
            ),
    {
        if self.no_wait {
            return 0;
        }
        let offset: u64 = timestamp - self.start_timestamp;
        assert(offset as int * 1_000_000 <= u64::MAX as int * 1_000_000) by (nonlinear_arith)
            requires
                offset <= u64::MAX,
        ;
        let due: u128 = offset as u128 * NANOS_PER_MILLI;
        if due > elapsed_nanos {
            due - elapsed_nanos
        } else {
            0
        }
    }
}

/// Pacing lower bound: with waiting on, no event is released before it is due,
/// and when an event stamped `ts_j` is examined after an earlier one stamped
/// `ts_i` was released, the gap between their releases is at least the gap
/// between their timestamps, less how late the earlier one already was.
pub proof fn law_pacing_lower_bound(
    start: u64,
    ts_i: u64,
    ts_j: u64,
    elapsed_i: nat,
    elapsed_j: nat,
)
    requires
        start <= ts_i <= ts_j,
        elapsed_j >= elapsed_i + wait_nanos(false, due_nanos(start, ts_i), elapsed_i as int),
    ensures
        ({
            let due_i = due_nanos(start, ts_i);
            let due_j = due_nanos(start, ts_j);
            let release_i = elapsed_i + wait_nanos(false, due_i, elapsed_i as int);
            let release_j = elapsed_j + wait_nanos(false, due_j, elapsed_j as int);
            &&& release_i >= due_i
            &&& release_j >= due_j
            &&& release_j - release_i >= (ts_j - ts_i) * 1_000_000 - (release_i - due_i)
            &&& elapsed_i <= due_i ==> release_i == due_i
        }),
{
    assert((ts_j - start) * 1_000_000 == (ts_i - start) * 1_000_000 + (ts_j - ts_i) * 1_000_000)
        by (nonlinear_arith);
}

/// No-wait bypass: in no-wait mode nothing ever waits, whatever the timestamps,
/// so the release time is the time at which the event is examined.
pub proof fn law_no_wait(start: u64, timestamp: u64, elapsed: nat)
    ensures
        wait_nanos(true, due_nanos(start, timestamp), elapsed as int) == 0,
{
}

} // verus!
