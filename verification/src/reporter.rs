//! The live status: once per tick, the progress of the run and the statistics so far.
//! The driver sleeps, reads the clock and writes the line; what the line says is
//! computed here.

use crate::cli::NANOS_PER_SEC;
use crate::stats::{summary_of, Statistics, Summary};
use vstd::prelude::*;

verus! {

/// The time between two status lines: one second, in nanoseconds.
pub const TICK: u128 = 1_000_000_000;

/// What one status line shows.
#[derive(Debug, Clone, Copy, PartialEq, Eq)]
pub struct StatusLine {
    /// The time since collection began, in nanoseconds.
    pub elapsed: u128,
    /// The configured duration of the run, in nanoseconds.
    pub total: u128,
    /// The requests completed per second since the line before.
    pub requests_per_second: usize,
    /// The statistics of all samples so far, zero where there are none.
    pub summary: Summary,
}

/// The requests completed between two lines, where the count went from `previous` to
/// `current`. A count never goes down; if it did, that would be no progress.
pub open spec fn progress(previous: nat, current: nat) -> nat {
    if current >= previous {
        (current - previous) as nat
    } else {
        0
    }
}

/// `completed` requests in `nanos` nanoseconds, as whole requests per second, rounded
/// down and at most `usize::MAX`. In no time at all, no request is a rate of zero, and
/// any request is a rate beyond every number.
pub open spec fn throughput(completed: nat, nanos: u128) -> usize {
    if completed == 0 {
        0
    } else if nanos == 0 {
        usize::MAX
    } else {
        let rate = (completed * NANOS_PER_SEC) / (nanos as int);
        if rate >= usize::MAX {
            usize::MAX
        } else {
            rate as usize
        }
    }
}

/// The reporter: it remembers the count that its last line was based on.
#[derive(Debug)]
pub struct Reporter {
    previous_count: usize,
}

impl View for Reporter {
    type V = nat;

    /// The count at the last tick.
    closed spec fn view(&self) -> nat {
        self.previous_count as nat
    }
}

impl Reporter {
    /// A reporter that has seen no request yet.
    pub fn new() -> (r: Reporter)
        ensures
            r@ == 0,
    {
        Reporter { previous_count: 0 }
    }

    /// One tick: reads the statistics and makes up the status line. `elapsed` is the
    /// time since collection began, `total` the configured duration and `since_last` the
    /// time since the tick before, all in nanoseconds. An empty record is in order: its
    /// statistics show as zero.
    pub fn tick(
        &mut self,
        statistics: &Statistics,
        elapsed: u128,
        total: u128,
        since_last: u128,
    ) -> (line: StatusLine)
        ensures
            final(self)@ == statistics@.len(),
            line.elapsed == elapsed,
            line.total == total,
            line.requests_per_second == throughput(
                progress(old(self)@, statistics@.len()),
                since_last,
            ),
            line.summary == summary_of(statistics@),
    {
        let current = statistics.request_count();
        let completed = if current >= self.previous_count {
            current - self.previous_count
        } else {
            0
        };
        let rate = if completed == 0 {
            0
        } else if since_last == 0 {
            usize::MAX
        } else {
            assert(completed as u128 * NANOS_PER_SEC <= u128::MAX) by (nonlinear_arith)
                requires
                    completed <= u64::MAX,
                    NANOS_PER_SEC == 1_000_000_000,
            ;
            let rate: u128 = (completed as u128 * NANOS_PER_SEC) / since_last;
            if rate >= usize::MAX as u128 {
                usize::MAX
            } else {
                rate as usize
            }
        };
        self.previous_count = current;
        StatusLine { elapsed, total, requests_per_second: rate, summary: statistics.summary() }
    }
}

} // verus!
