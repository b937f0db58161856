//! The life cycle of a run, as a state machine: `Configuring`, `Starting`, `Collecting`,
//! `Draining`, `Reporting`, `Done`.
//!
//! The driver owns the threads, the result channel and the clock. It tells the
//! orchestrator what happened and does what the orchestrator answers. The orchestrator
//! owns the statistics: samples enter them while it collects and at no other time.

use crate::endpoint::{endpoint_of, Endpoint, EndpointView, Entry};
use crate::error::{ConfigError, RunError, UnsupportedFeatureError};
use crate::stats::{summary_of, Statistics, Summary};
use crate::worker::SampleResult;
use vstd::prelude::*;

verus! {

/// How long a run collects, and with how many workers: at least one.
#[derive(Debug)]
pub struct RunConfig {
    duration: u128,
    parallelism: usize,
}

impl RunConfig {
    /// The time for which samples are collected, in nanoseconds.
    pub closed spec fn spec_duration(&self) -> u128 {
        self.duration
    }

    /// The number of workers.
    pub closed spec fn spec_parallelism(&self) -> usize {
        self.parallelism
    }

    #[verifier::type_invariant]
    spec fn has_workers(&self) -> bool {
        self.parallelism >= 1
    }

    /// A run of `duration` nanoseconds with `parallelism` workers. A run without workers
    /// is refused.
    pub fn new(duration: u128, parallelism: usize) -> (r: Result<RunConfig, ConfigError>)
        ensures
            match r {
                Ok(config) => parallelism >= 1 && config.spec_duration() == duration
                    && config.spec_parallelism() == parallelism,
                Err(e) => parallelism == 0 && e == ConfigError::NoWorkers,
            },
    {
        if parallelism == 0 {
            Err(ConfigError::NoWorkers)
        } else {
            Ok(RunConfig { duration, parallelism })
        }
    }

    /// The time for which samples are collected, in nanoseconds.
    #[verifier::when_used_as_spec(spec_duration)]
    pub fn duration(&self) -> (r: u128)
        ensures
            r == self.spec_duration(),
    {
        self.duration
    }

    /// The number of workers, at least one.
    #[verifier::when_used_as_spec(spec_parallelism)]
    pub fn parallelism(&self) -> (r: usize)
        ensures
            r == self.spec_parallelism(),
            r >= 1,
    {
        proof {
            use_type_invariant(self);
        }
        self.parallelism
    }
}

/// The states of a run.
#[derive(Debug, Clone, Copy, PartialEq, Eq)]
pub enum Phase {
    /// The request file is being read.
    Configuring,
    /// The workers and the reporter are being spawned.
    Starting,
    /// Results are received and tracked, until the duration has passed.
    Collecting,
    /// The channel is closed and the workers are joined.
    Draining,
    /// The final summary is printed.
    Reporting,
    /// The run is over.
    Done,
}

/// What happened, as the driver tells the orchestrator.
#[derive(Debug)]
pub enum Event {
    /// The request file was read: these are its entries.
    Loaded { entries: Vec<Entry> },
    /// The workers and the reporter run. Collection begins now: the clock counts from
    /// here.
    Started,
    /// The clock was read, `elapsed` nanoseconds after collection began.
    Clock { elapsed: u128 },
    /// The channel gave a result.
    Sample(SampleResult),
    /// The channel gave nothing and never will: every worker has gone.
    Disconnected,
    /// The receiving end is dropped and every worker is joined; `failed` of them did not
    /// end in order.
    Joined { failed: usize },
    /// The final summary is printed.
    Reported,
}

/// What the driver is to do next.
#[derive(Debug, Clone, Copy, PartialEq, Eq)]
pub enum Action {
    /// Spawn this many workers, each with a copy of the endpoint and a sending end of
    /// the channel, and the reporter; then tell `Started`.
    Start { workers: usize },
    /// Read the clock and tell `Clock`.
    ReadClock,
    /// Wait for a result and tell `Sample`, or `Disconnected`.
    Receive,
    /// Drop the receiving end of the channel, join every worker and tell `Joined`.
    Drain,
    /// Print this summary and tell `Reported`.
    Report(Summary),
    /// Exit, with success or with the failure that the orchestrator holds.
    Finish { success: bool },
    /// Nothing: the event was not awaited and changed nothing.
    Idle,
}

/// A run as the contracts see it.
pub struct RunView {
    pub phase: Phase,
    /// The configured duration, in nanoseconds.
    pub duration: u128,
    /// The configured number of workers.
    pub parallelism: usize,
    /// The request of the run, known from `Starting` on.
    pub endpoint: Option<EndpointView>,
    /// The samples tracked so far, in the order in which they came.
    pub samples: Seq<u128>,
    /// Why the run failed, if it did.
    pub failure: Option<RunError>,
}

/// The failure of a run that ends with `failed` workers not in order: the failure that
/// it had before, if any, else that of the workers.
pub open spec fn failure_after_join(before: Option<RunError>, failed: usize) -> Option<RunError> {
    if before is Some {
        before
    } else if failed > 0 {
        Some(RunError::WorkerFailed)
    } else {
        None
    }
}

/// The run after `event`, and what the driver is to do then.
///
/// - `Configuring`: a request file without entries is a configuration error; the first
///   entry is the request, and a placeholder in it is unsupported. Either ends the run
///   before any worker starts.
/// - `Collecting`: a sample is tracked; the first failed attempt ends collection, and so
///   does a channel without workers. The clock ends it once more than the duration has
///   passed. The clock is asked after each sample, so a result that is under way at the
///   deadline is still awaited.
/// - `Draining`: a failure, of an attempt or of a worker, ends the run without a report.
/// - An event that the state does not await changes nothing.
pub open spec fn transition(pre: RunView, event: Event) -> (RunView, Action) {
    match (pre.phase, event) {
        (Phase::Configuring, Event::Loaded { entries }) => {
            if entries@.len() == 0 {
                (
                    RunView {
                        phase: Phase::Done,
                        failure: Some(RunError::Config(ConfigError::NoEntry)),
                        ..pre
                    },
                    Action::Finish { success: false },
                )
            } else {
                match endpoint_of(entries@[0]) {
                    None => (
                        RunView {
                            phase: Phase::Done,
                            failure: Some(
                                RunError::Unsupported(UnsupportedFeatureError::Placeholder),
                            ),
                            ..pre
                        },
                        Action::Finish { success: false },
                    ),
                    Some(endpoint) => (
                        RunView { phase: Phase::Starting, endpoint: Some(endpoint), ..pre },
                        Action::Start { workers: pre.parallelism },
                    ),
                }
            }
        },
        (Phase::Starting, Event::Started) => (
            RunView { phase: Phase::Collecting, ..pre },
            Action::ReadClock,
        ),
        (Phase::Collecting, Event::Clock { elapsed }) => {
            if elapsed > pre.duration {
                (RunView { phase: Phase::Draining, ..pre }, Action::Drain)
            } else {
                (pre, Action::Receive)
            }
        },
        (Phase::Collecting, Event::Sample(Ok(elapsed))) => (
            RunView { samples: pre.samples.push(elapsed), ..pre },
            Action::ReadClock,
        ),
        (Phase::Collecting, Event::Sample(Err(cause))) => (
            RunView { phase: Phase::Draining, failure: Some(RunError::Request(cause)), ..pre },
            Action::Drain,
        ),
        (Phase::Collecting, Event::Disconnected) => (
            RunView { phase: Phase::Draining, failure: Some(RunError::Disconnected), ..pre },
            Action::Drain,
        ),
        (Phase::Draining, Event::Joined { failed }) => {
            let failure = failure_after_join(pre.failure, failed);
            if failure is Some {
                (RunView { phase: Phase::Done, failure, ..pre }, Action::Finish { success: false })
            } else {
                (
                    RunView { phase: Phase::Reporting, ..pre },
                    Action::Report(summary_of(pre.samples)),
                )
            }
        },
        (Phase::Reporting, Event::Reported) => (
            RunView { phase: Phase::Done, ..pre },
            Action::Finish { success: true },
        ),
        _ => (pre, Action::Idle),
    }
}

/// The place of a phase in the life cycle.
pub open spec fn phase_rank(phase: Phase) -> nat {
    match phase {
        Phase::Configuring => 0,
        Phase::Starting => 1,
        Phase::Collecting => 2,
        Phase::Draining => 3,
        Phase::Reporting => 4,
        Phase::Done => 5,
    }
}

/// What holds of a run in every state: from `Starting` until it is over the request is
/// known and there is a worker to send it; a failed run is draining or done; and the
/// final report is for a run that did not fail.
pub open spec fn consistent(run: RunView) -> bool {
    &&& run.parallelism >= 1
    &&& (run.phase != Phase::Configuring && run.phase != Phase::Done ==> run.endpoint is Some)
    &&& (run.failure is Some ==> run.phase == Phase::Draining || run.phase == Phase::Done)
    &&& (run.phase == Phase::Configuring ==> run.samples.len() == 0 && run.endpoint is None)
    &&& (run.phase == Phase::Starting ==> run.samples.len() == 0)
}

/// No event breaks what holds of a run in every state.
pub proof fn lemma_transition_keeps_consistent(pre: RunView, event: Event)
    requires
        consistent(pre),
    ensures
        consistent(transition(pre, event).0),
{
}

/// A run only moves forward, and the driver is told to finish exactly when the run
/// becomes done.
pub proof fn lemma_phases_advance(pre: RunView, event: Event)
    ensures
        phase_rank(pre.phase) <= phase_rank(transition(pre, event).0.phase),
        transition(pre, event).1 is Finish <==> transition(pre, event).0.phase == Phase::Done
            && pre.phase != Phase::Done,
{
}

/// A failure stays: the first one is the one that the run ends with, and a run finishes
/// with success exactly where nothing failed.
pub proof fn lemma_failure_is_final(pre: RunView, event: Event)
    requires
        consistent(pre),
    ensures
        pre.failure is Some ==> transition(pre, event).0.failure == pre.failure,
        transition(pre, event).1 matches Action::Finish { success } ==> (success <==> transition(
            pre,
            event,
        ).0.failure is None),
{
}

/// A sample, once tracked, is never removed or altered, so the count never goes down;
/// and samples enter the statistics only while the run collects: from `Draining` on
/// they are frozen.
pub proof fn lemma_samples_are_kept(pre: RunView, event: Event)
    ensures
        pre.samples.is_prefix_of(transition(pre, event).0.samples),
        pre.samples.len() <= transition(pre, event).0.samples.len() <= pre.samples.len() + 1,
        pre.phase != Phase::Collecting ==> transition(pre, event).0.samples == pre.samples,
{
    let post = transition(pre, event).0;
    assert(pre.samples =~= post.samples.subrange(0, pre.samples.len() as int));
}

/// Workers are started once, in the number configured and at least one, and only for a
/// request file with an entry whose templates resolve: a file without entries ends the
/// run with a configuration error before any worker, and so any exchange, exists.
pub proof fn lemma_workers_need_an_entry(pre: RunView, event: Event)
    requires
        consistent(pre),
    ensures
        transition(pre, event).1 matches Action::Start { workers } ==> {
            &&& pre.phase == Phase::Configuring
            &&& workers == pre.parallelism
            &&& workers >= 1
            &&& event matches Event::Loaded { entries }
            &&& entries@.len() > 0
            &&& transition(pre, event).0.endpoint == endpoint_of(entries@[0])
            &&& endpoint_of(entries@[0]) is Some
        },
        pre.phase == Phase::Configuring && (event matches Event::Loaded { entries }
            && entries@.len() == 0) ==> transition(pre, event) == (
            RunView {
                phase: Phase::Done,
                failure: Some(RunError::Config(ConfigError::NoEntry)),
                ..pre
            },
            Action::Finish { success: false },
        ),
{
}

/// The first failed attempt ends collection at once, whatever the clock says, and the
/// run then ends without a report.
pub proof fn lemma_failure_ends_run(pre: RunView, event: Event, failed: usize)
    requires
        pre.phase == Phase::Collecting,
        event matches Event::Sample(Err(_)),
    ensures
        transition(pre, event).1 == Action::Drain,
        transition(pre, event).0.phase == Phase::Draining,
        transition(pre, event).0.samples == pre.samples,
        transition(transition(pre, event).0, Event::Joined { failed }).1 == (Action::Finish {
            success: false,
        }),
{
}

/// The orchestrator of one run.
#[derive(Debug)]
pub struct Orchestrator {
    phase: Phase,
    config: RunConfig,
    endpoint: Option<Endpoint>,
    statistics: Statistics,
    failure: Option<RunError>,
}

impl View for Orchestrator {
    type V = RunView;

    closed spec fn view(&self) -> RunView {
        RunView {
            phase: self.phase,
            duration: self.config.spec_duration(),
            parallelism: self.config.spec_parallelism(),
            endpoint: match self.endpoint {
                Some(endpoint) => Some(endpoint@),
                None => None,
            },
            samples: self.statistics@,
            failure: self.failure,
        }
    }
}

impl Orchestrator {
    /// A run that is being configured: nothing is tracked and nothing has failed.
    pub fn new(config: RunConfig) -> (r: Orchestrator)
        ensures
            r@ == (RunView {
                phase: Phase::Configuring,
                duration: config.spec_duration(),
                parallelism: config.spec_parallelism(),
                endpoint: None,
                samples: Seq::empty(),
                failure: None,
            }),
            consistent(r@),
    {
        proof {
            use_type_invariant(&config);
        }
        Orchestrator {
            phase: Phase::Configuring,
            config,
            endpoint: None,
            statistics: Statistics::new(),
            failure: None,
        }
    }

    /// Takes `event` and says what the driver is to do next.
    pub fn step(&mut self, event: Event) -> (action: Action)
        ensures
            (final(self)@, action) == transition(old(self)@, event),
            consistent(old(self)@) ==> consistent(final(self)@),
    {
        match self.phase {
            Phase::Configuring => match event {
                Event::Loaded { entries } => {
                    if entries.len() == 0 {
                        self.failure = Some(RunError::Config(ConfigError::NoEntry));
                        self.phase = Phase::Done;
                        Action::Finish { success: false }
                    } else {
                        match Endpoint::new(&entries[0]) {
                            Ok(endpoint) => {
                                self.endpoint = Some(endpoint);
                                self.phase = Phase::Starting;
                                Action::Start { workers: self.config.parallelism() }
                            },
                            Err(e) => {
                                self.failure = Some(RunError::Unsupported(e));
                                self.phase = Phase::Done;
                                Action::Finish { success: false }
                            },
                        }
                    }
                },
                _ => Action::Idle,
            },
            Phase::Starting => match event {
                Event::Started => {
                    self.phase = Phase::Collecting;
                    Action::ReadClock
                },
                _ => Action::Idle,
            },
            Phase::Collecting => match event {
                Event::Clock { elapsed } => {
                    if elapsed > self.config.duration() {
                        self.phase = Phase::Draining;
                        Action::Drain
                    } else {
                        Action::Receive
                    }
                },
                Event::Sample(Ok(elapsed)) => {
                    self.statistics.track(elapsed);
                    Action::ReadClock
                },
                Event::Sample(Err(cause)) => {
                    self.failure = Some(RunError::Request(cause));
                    self.phase = Phase::Draining;
                    Action::Drain
                },
                Event::Disconnected => {
                    self.failure = Some(RunError::Disconnected);
                    self.phase = Phase::Draining;
                    Action::Drain
                },
                _ => Action::Idle,
            },
            Phase::Draining => match event {
                Event::Joined { failed } => {
                    if self.failure.is_none() && failed > 0 {
                        self.failure = Some(RunError::WorkerFailed);
                    }
                    if self.failure.is_some() {
                        self.phase = Phase::Done;
                        Action::Finish { success: false }
                    } else {
                        self.phase = Phase::Reporting;
                        Action::Report(self.statistics.summary())
                    }
                },
                _ => Action::Idle,
            },
            Phase::Reporting => match event {
                Event::Reported => {
                    self.phase = Phase::Done;
                    Action::Finish { success: true }
                },
                _ => Action::Idle,
            },
            Phase::Done => Action::Idle,
        }
    }

    /// The state of the run.
    pub fn phase(&self) -> (r: Phase)
        ensures
            r == self@.phase,
    {
        self.phase
    }

    /// The configuration of the run.
    pub fn config(&self) -> (r: &RunConfig)
        ensures
            r.spec_duration() == self@.duration,
            r.spec_parallelism() == self@.parallelism,
    {
        &self.config
    }

    /// The request of the run: `None` until the request file is read.
    pub fn endpoint(&self) -> (r: Option<&Endpoint>)
        ensures
            match r {
                Some(endpoint) => self@.endpoint == Some(endpoint@),
                None => self@.endpoint is None,
            },
    {
        self.endpoint.as_ref()
    }

    /// The statistics of the samples tracked so far.
    pub fn statistics(&self) -> (r: &Statistics)
        ensures
            r@ == self@.samples,
    {
        &self.statistics
    }

    /// Why the run failed: `None` while it has not.
    pub fn failure(&self) -> (r: Option<&RunError>)
        ensures
            match r {
                Some(failure) => self@.failure == Some(*failure),
                None => self@.failure is None,
            },
    {
        self.failure.as_ref()
    }
}

} // verus!
