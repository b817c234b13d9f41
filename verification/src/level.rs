//! Severities, and the bridge from one configured threshold to the level
//! tokens of the two logging facilities.

use vstd::prelude::*;

verus! {

/// A configured severity threshold. `Off` lets nothing through.
#[derive(Clone, Copy, Debug, PartialEq, Eq, PartialOrd, Ord, Hash, Structural)]
pub enum LevelFilter {
    Off,
    Error,
    Warn,
    Info,
    Debug,
    Trace,
}

/// A severity of the leveled logging facility.
#[derive(Clone, Copy, Debug, PartialEq, Eq, PartialOrd, Ord, Hash, Structural)]
pub enum LogLevel {
    Error,
    Warn,
    Info,
    Debug,
    Trace,
}

/// A severity of the tracing facility.
#[derive(Clone, Copy, Debug, PartialEq, Eq, PartialOrd, Ord, Hash, Structural)]
pub enum TracingLevel {
    Error,
    Warn,
    Info,
    Debug,
    Trace,
}

impl LevelFilter {
    /// The place of the threshold in the order of severities, `Off` being 0.
    pub open spec fn rank(self) -> nat {
        match self {
            LevelFilter::Off => 0,
            LevelFilter::Error => 1,
            LevelFilter::Warn => 2,
            LevelFilter::Info => 3,
            LevelFilter::Debug => 4,
            LevelFilter::Trace => 5,
        }
    }
}

impl LogLevel {
    /// The place of the level in the order of severities, `Error` being 1.
    pub open spec fn rank(self) -> nat {
        match self {
            LogLevel::Error => 1,
            LogLevel::Warn => 2,
            LogLevel::Info => 3,
            LogLevel::Debug => 4,
            LogLevel::Trace => 5,
        }
    }
}

impl TracingLevel {
    /// The place of the level in the order of severities, `Error` being 1.
    pub open spec fn rank(self) -> nat {
        match self {
            TracingLevel::Error => 1,
            TracingLevel::Warn => 2,
            TracingLevel::Info => 3,
            TracingLevel::Debug => 4,
            TracingLevel::Trace => 5,
        }
    }
}

/// The level of the leveled facility that a threshold stands for.
pub open spec fn log_level_of(filter: LevelFilter) -> Option<LogLevel> {
    match filter {
        LevelFilter::Off => None,
        LevelFilter::Error => Some(LogLevel::Error),
        LevelFilter::Warn => Some(LogLevel::Warn),
        LevelFilter::Info => Some(LogLevel::Info),
        LevelFilter::Debug => Some(LogLevel::Debug),
        LevelFilter::Trace => Some(LogLevel::Trace),
    }
}

/// The level of the tracing facility that a threshold stands for.
pub open spec fn tracing_level_of(filter: LevelFilter) -> Option<TracingLevel> {
    match filter {
        LevelFilter::Off => None,
        LevelFilter::Error => Some(TracingLevel::Error),
        LevelFilter::Warn => Some(TracingLevel::Warn),
        LevelFilter::Info => Some(TracingLevel::Info),
        LevelFilter::Debug => Some(TracingLevel::Debug),
        LevelFilter::Trace => Some(TracingLevel::Trace),
    }
}

/// The two level tokens that a threshold stands for, and none for `Off`.
pub open spec fn levels_of(filter: LevelFilter) -> Option<(TracingLevel, LogLevel)> {
    match (tracing_level_of(filter), log_level_of(filter)) {
        (Some(tracing_level), Some(log_level)) => Some((tracing_level, log_level)),
        _ => None,
    }
}

/// Asks the `log` crate, by `log::LevelFilter::to_level`, for the level
/// that a threshold stands for. Taken on trust: the level has the name of
/// the threshold, and `Off` has none.
#[verifier::external_body]
fn filter_to_level(filter: LevelFilter) -> (r: Option<LogLevel>)
    ensures
        r == log_level_of(filter),
{
    (match filter {
        LevelFilter::Off => log::LevelFilter::Off,
        LevelFilter::Error => log::LevelFilter::Error,
        LevelFilter::Warn => log::LevelFilter::Warn,
        LevelFilter::Info => log::LevelFilter::Info,
        LevelFilter::Debug => log::LevelFilter::Debug,
        LevelFilter::Trace => log::LevelFilter::Trace,
    }).to_level().map(|level| match level {
        log::Level::Error => LogLevel::Error,
        log::Level::Warn => LogLevel::Warn,
        log::Level::Info => LogLevel::Info,
        log::Level::Debug => LogLevel::Debug,
        log::Level::Trace => LogLevel::Trace,
    })
}

/// The level tokens of both facilities for one threshold: the pair of the
/// same severity, and `None` exactly for `Off`.
pub fn private_level_filter_to_levels(filter: LevelFilter) -> (r: Option<(TracingLevel, LogLevel)>)
    ensures
        r == levels_of(filter),
{
    let tracing_level = match filter {
        LevelFilter::Error => Some(TracingLevel::Error),
        LevelFilter::Warn => Some(TracingLevel::Warn),
        LevelFilter::Info => Some(TracingLevel::Info),
        LevelFilter::Debug => Some(TracingLevel::Debug),
        LevelFilter::Trace => Some(TracingLevel::Trace),
        LevelFilter::Off => None,
    };
    match (tracing_level, filter_to_level(filter)) {
        (Some(tracing_level), Some(log_level)) => Some((tracing_level, log_level)),
        _ => None,
    }
}

/// Whether a record is wanted: a level is active as soon as one of the two
/// facilities has it enabled for the target.
pub fn is_active(enabled_in_log: bool, enabled_in_tracing: bool) -> (r: bool)
    ensures
        r == (enabled_in_log || enabled_in_tracing),
{
    enabled_in_log || enabled_in_tracing
}

/// A threshold has level tokens unless it is `Off`, and both tokens then
/// have the severity of the threshold.
pub proof fn lemma_levels_agree(filter: LevelFilter)
    ensures
        levels_of(filter) is None <==> filter == LevelFilter::Off,
        levels_of(filter) matches Some((tracing_level, log_level)) ==> tracing_level.rank()
            == filter.rank() && log_level.rank() == filter.rank(),
{
}

} // verus!
