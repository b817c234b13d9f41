//! How statements are to be logged.

use crate::level::LevelFilter;
use vstd::prelude::*;

verus! {

/// A span of time in nanoseconds.
#[derive(Clone, Copy, Debug, PartialEq, Eq, Hash, Structural)]
pub struct Duration {
    pub nanos: u128,
}

/// How statements are logged.
#[derive(Clone, Copy, Debug, PartialEq, Eq, Structural)]
pub struct LogSettings {
    /// The severity of the record of a statement that was not slow.
    pub statements_level: LevelFilter,
    /// The severity of the record of a slow statement.
    pub slow_statements_level: LevelFilter,
    /// The time from which on a statement is slow.
    pub slow_statements_duration: Duration,
}

} // verus!
