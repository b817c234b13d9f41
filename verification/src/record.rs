//! The record of one statement.

use crate::level::{LogLevel, TracingLevel};
use crate::settings::Duration;
use vstd::prelude::*;

verus! {

/// The message of the record of a slow statement.
pub const SLOW_MESSAGE: &'static str = "slow statement: execution time exceeded alert threshold";

/// Whether `part` stands in `text` from position `i` on.
pub open spec fn occurs_at(text: Seq<char>, part: Seq<char>, i: int) -> bool {
    0 <= i && i + part.len() <= text.len() && text.subrange(i, i + part.len()) == part
}

/// Whether `text` holds `part` as a stretch of neighbouring characters.
pub open spec fn contains_text(text: Seq<char>, part: Seq<char>) -> bool {
    exists|i: int| occurs_at(text, part, i)
}

/// What the record of a statement holds.
pub struct RecordView {
    pub tracing_level: TracingLevel,
    pub log_level: LogLevel,
    pub summary: Seq<char>,
    pub statement: Seq<char>,
    pub rows_affected: nat,
    pub rows_returned: nat,
    pub elapsed: Duration,
    pub slow_threshold: Option<Duration>,
    pub message: Option<Seq<char>>,
}

/// The record of one statement, ready to be handed to the facilities.
#[derive(Debug, PartialEq, Eq)]
pub struct QueryRecord {
    /// The severity in the tracing facility.
    pub tracing_level: TracingLevel,
    /// The severity in the leveled facility.
    pub log_level: LogLevel,
    /// The first words of the statement.
    pub summary: String,
    /// The whole statement for verbose display, or nothing where the
    /// summary already is the statement.
    pub statement: String,
    pub rows_affected: u64,
    pub rows_returned: u64,
    /// How long the statement took.
    pub elapsed: Duration,
    /// The time from which on a statement is slow, for a slow statement.
    pub slow_threshold: Option<Duration>,
    /// The message, for a slow statement.
    pub message: Option<&'static str>,
}

impl View for QueryRecord {
    type V = RecordView;

    open spec fn view(&self) -> RecordView {
        RecordView {
            tracing_level: self.tracing_level,
            log_level: self.log_level,
            summary: self.summary@,
            statement: self.statement@,
            rows_affected: self.rows_affected as nat,
            rows_returned: self.rows_returned as nat,
            elapsed: self.elapsed,
            slow_threshold: self.slow_threshold,
            message: match self.message {
                Some(text) => Some(text@),
                None => None,
            },
        }
    }
}

} // verus!
