//! The ways in which setting up or running a benchmark fails.

use vstd::prelude::*;

verus! {

/// The command line or the request file is unusable. Fatal before any worker starts.
#[derive(Debug, Clone, Copy, PartialEq, Eq)]
pub enum ConfigError {
    /// A flag stands last, without its value, or no file path was given.
    MissingArgument,
    /// A duration is empty: it has neither a number nor a unit.
    MissingSuffix,
    /// The number of a duration or of the parallelism is not a decimal number, or does
    /// not fit.
    InvalidNumber,
    /// The unit of a duration, given here in lower case, is neither `s` nor `m`.
    UnknownTimeModifier(u8),
    /// The parallelism is zero: a run needs a worker.
    NoWorkers,
    /// The request file holds no entry.
    NoEntry,
}

/// The request asks for something that this benchmark cannot do.
#[derive(Debug, Clone, Copy, PartialEq, Eq)]
pub enum UnsupportedFeatureError {
    /// A template holds a placeholder: only literal text can be resolved.
    Placeholder,
    /// The method is none of `GET`, `POST` and `PUT`.
    Method,
}

/// One attempt at the request failed.
#[derive(Debug)]
pub enum RequestError {
    /// The endpoint asks for what the transport cannot do.
    Unsupported(UnsupportedFeatureError),
    /// The client refused a setting, or the exchange failed.
    Transport(curl::Error),
}

/// Why a run ended without its final report.
#[derive(Debug)]
pub enum RunError {
    /// The run could not be set up.
    Config(ConfigError),
    /// The request asks for something unsupported.
    Unsupported(UnsupportedFeatureError),
    /// An attempt failed. One failure ends the run: none is retried or tolerated.
    Request(RequestError),
    /// Every worker has gone while results were still awaited.
    Disconnected,
    /// A worker did not end in order.
    WorkerFailed,
}

} // verus!
