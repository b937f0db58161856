//! The loop of one worker, as a state machine. The driver makes the exchanges and talks
//! to the result channel; the machine says what comes next.
//!
//! A worker makes one exchange after another, as fast as it can, and submits one result
//! for each. A failed exchange is reported like any other and does not stop the worker.
//! It stops when the channel no longer takes its results, or when it is told to.

use crate::error::RequestError;
use vstd::prelude::*;

verus! {

/// What one attempt gave: the time that the exchange took, in nanoseconds, or the cause
/// of its failure.
pub type SampleResult = Result<u128, RequestError>;

/// Where a worker stands in its loop.
#[derive(Debug, Clone, Copy, PartialEq, Eq)]
pub enum WorkerState {
    /// An exchange is due or under way.
    Exchanging,
    /// A result is on its way to the channel.
    Submitting,
    /// The loop has ended.
    Stopped,
}

/// What happened to a worker.
#[derive(Debug)]
pub enum WorkerEvent {
    /// The exchange ended, `elapsed` nanoseconds after it began.
    Finished { outcome: Result<(), RequestError>, elapsed: u128 },
    /// The channel took the result.
    Accepted,
    /// The channel is closed: nobody receives any more.
    Refused,
    /// The worker is told to stop.
    StopRequested,
}

/// What a worker does next.
#[derive(Debug)]
pub enum WorkerAction {
    /// Note the time and make one exchange.
    Exchange,
    /// Hand this result to the channel.
    Submit(SampleResult),
    /// Leave the loop.
    Exit,
}

/// The result that a worker submits for an exchange: the elapsed time where it
/// succeeded, its cause where it failed.
pub open spec fn sample_of(outcome: Result<(), RequestError>, elapsed: u128) -> SampleResult {
    match outcome {
        Ok(()) => Ok(elapsed),
        Err(cause) => Err(cause),
    }
}

/// The state of a worker after `event`.
pub open spec fn next_state(state: WorkerState, event: WorkerEvent) -> WorkerState {
    match (state, event) {
        (WorkerState::Exchanging, WorkerEvent::Finished { .. }) => WorkerState::Submitting,
        (WorkerState::Submitting, WorkerEvent::Accepted) => WorkerState::Exchanging,
        _ => WorkerState::Stopped,
    }
}

/// What a worker in `state` does on `event`. An event that the state does not await
/// ends the loop.
pub open spec fn next_action(state: WorkerState, event: WorkerEvent) -> WorkerAction {
    match (state, event) {
        (WorkerState::Exchanging, WorkerEvent::Finished { outcome, elapsed }) => WorkerAction::Submit(
            sample_of(outcome, elapsed),
        ),
        (WorkerState::Submitting, WorkerEvent::Accepted) => WorkerAction::Exchange,
        _ => WorkerAction::Exit,
    }
}

/// One worker.
#[derive(Debug)]
pub struct Worker {
    pub state: WorkerState,
}

impl Worker {
    /// A worker about to make its first exchange.
    pub fn new() -> (r: Worker)
        ensures
            r.state == WorkerState::Exchanging,
    {
        Worker { state: WorkerState::Exchanging }
    }

    /// Takes `event` and says what to do next.
    pub fn step(&mut self, event: WorkerEvent) -> (action: WorkerAction)
        ensures
            final(self).state == next_state(old(self).state, event),
            action == next_action(old(self).state, event),
    {
        match self.state {
            WorkerState::Exchanging => match event {
                WorkerEvent::Finished { outcome, elapsed } => {
                    self.state = WorkerState::Submitting;
                    match outcome {
                        Ok(()) => WorkerAction::Submit(Ok(elapsed)),
                        Err(cause) => WorkerAction::Submit(Err(cause)),
                    }
                },
                _ => {
                    self.state = WorkerState::Stopped;
                    WorkerAction::Exit
                },
            },
            WorkerState::Submitting => match event {
                WorkerEvent::Accepted => {
                    self.state = WorkerState::Exchanging;
                    WorkerAction::Exchange
                },
                _ => {
                    self.state = WorkerState::Stopped;
                    WorkerAction::Exit
                },
            },
            WorkerState::Stopped => WorkerAction::Exit,
        }
    }
}

/// A worker goes on exactly where an exchange ended or the channel took its result: a
/// failed exchange does not stop it, a closed channel and a request to stop do, and a
/// stopped worker stays stopped.
pub proof fn lemma_worker_stops(state: WorkerState, event: WorkerEvent)
    ensures
        state == WorkerState::Exchanging && event is Finished ==> next_state(state, event)
            == WorkerState::Submitting && next_action(state, event) is Submit,
        state == WorkerState::Submitting && event is Accepted ==> next_state(state, event)
            == WorkerState::Exchanging && next_action(state, event) is Exchange,
        event is Refused || event is StopRequested || state == WorkerState::Stopped
            ==> next_state(state, event) == WorkerState::Stopped && next_action(state, event) is Exit,
        next_action(state, event) is Exit <==> next_state(state, event) == WorkerState::Stopped,
{
}

} // verus!
