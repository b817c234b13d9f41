//! The logger of one statement: counters that grow while rows arrive, one
//! finalization, and at most one record.

use crate::chars::{append_chars, from_chars, same_chars, to_chars};
use crate::dedent::{dedent, dedent_chars, trim_query};
use crate::level::{levels_of, private_level_filter_to_levels, LogLevel, TracingLevel};
use crate::record::{QueryRecord, SLOW_MESSAGE};
use crate::settings::{Duration, LogSettings};
use crate::state::{Event, LoggerState, Pending, Phase};
use crate::summary::{summary, summary_chars};
use vstd::prelude::*;

verus! {

/// The target under which the record of a statement is logged.
pub const QUERY_TARGET: &'static str = "sqlx::query";

/// The target of the tracing context that is open while a statement runs.
pub const SPAN_TARGET: &'static str = "sqlx::query-trace";

/// What is to be done when a statement ends.
#[derive(Clone, Copy, Debug, PartialEq, Eq)]
pub struct Finalization {
    /// The number of rows to put on the tracing context.
    pub row_count: u64,
    /// Whether the statement was slow.
    pub was_slow: bool,
    /// The levels to ask the facilities about, unless the severity is off.
    pub probe: Option<(TracingLevel, LogLevel)>,
}

/// Where a logger stands in its life, with what was settled when the
/// statement ended.
#[derive(Clone, Copy)]
enum Stage {
    Running,
    Probing {
        elapsed: Duration,
        tracing_level: TracingLevel,
        log_level: LogLevel,
        rows_affected: u64,
        rows_returned: u64,
    },
    Finished,
}

impl View for Stage {
    type V = Phase;

    closed spec fn view(&self) -> Phase {
        match *self {
            Stage::Running => Phase::Running,
            Stage::Probing { elapsed, tracing_level, log_level, rows_affected, rows_returned } => {
                Phase::Probing(
                    Pending {
                        elapsed,
                        tracing_level,
                        log_level,
                        rows_affected: rows_affected as nat,
                        rows_returned: rows_returned as nat,
                    },
                )
            },
            Stage::Finished => Phase::Finished,
        }
    }
}

/// Follows one statement from its dispatch to its record.
pub struct QueryLogger<'q> {
    sql: &'q str,
    label: String,
    rows_returned: u64,
    rows_affected: u64,
    settings: LogSettings,
    stage: Stage,
}

impl<'q> View for QueryLogger<'q> {
    type V = LoggerState;

    closed spec fn view(&self) -> LoggerState {
        LoggerState {
            sql: self.sql@,
            label: self.label@,
            rows_returned: self.rows_returned as nat,
            rows_affected: self.rows_affected as nat,
            settings: self.settings,
            phase: self.stage@,
        }
    }
}

impl<'q> QueryLogger<'q> {
    #[verifier::type_invariant]
    spec fn labelled(&self) -> bool {
        self.label@ == dedent(self.sql@)
    }

    /// A logger for the statement `sql`, with no rows counted yet.
    pub fn new(sql: &'q str, settings: LogSettings) -> (logger: Self)
        ensures
            logger@ == LoggerState::start(sql@, settings),
    {
        QueryLogger {
            sql,
            label: trim_query(sql),
            rows_returned: 0,
            rows_affected: 0,
            settings,
            stage: Stage::Running,
        }
    }

    /// The statement without the indentation that its lines share: the
    /// name under which its tracing context is opened.
    pub fn label(&self) -> (label: &str)
        ensures
            label@ == self@.label,
            label@ == dedent(self@.sql),
    {
        proof {
            use_type_invariant(self);
        }
        self.label.as_str()
    }

    /// The rows returned so far.
    pub fn rows_returned(&self) -> (n: u64)
        ensures
            n == self@.rows_returned,
    {
        self.rows_returned
    }

    /// The rows changed so far.
    pub fn rows_affected(&self) -> (n: u64)
        ensures
            n == self@.rows_affected,
    {
        self.rows_affected
    }

    /// Counts one more returned row.
    pub fn increment_rows_returned(&mut self)
        requires
            old(self)@.rows_returned < u64::MAX,
        ensures
            final(self)@ == old(self)@.step(Event::RowReturned),
    {
        proof {
            use_type_invariant(&*self);
        }
        self.rows_returned += 1;
    }

    /// Counts `n` more changed rows.
    pub fn increase_rows_affected(&mut self, n: u64)
        requires
            old(self)@.rows_affected + n <= u64::MAX,
        ensures
            final(self)@ == old(self)@.step(Event::RowsAffected(n)),
    {
        proof {
            use_type_invariant(&*self);
        }
        self.rows_affected += n;
    }

    /// Ends the statement after `elapsed`. The first call says what is to be
    /// done: the row count for the tracing context, and the levels to ask
    /// the facilities about unless the chosen severity is off. Every later
    /// call changes nothing and returns `None`.
    pub fn finish(&mut self, elapsed: Duration) -> (r: Option<Finalization>)
        ensures
            final(self)@ == old(self)@.step(Event::Finish(elapsed)),
            old(self)@.phase is Running <==> r is Some,
            r matches Some(todo) ==> {
                &&& todo.row_count == old(self)@.row_count()
                &&& todo.was_slow == old(self)@.was_slow(elapsed)
                &&& todo.probe == levels_of(old(self)@.level(elapsed))
            },
    {
        proof {
            use_type_invariant(&*self);
        }
        match self.stage {
            Stage::Running => {
                let row_count = if self.rows_affected > 0 {
                    self.rows_affected
                } else {
                    self.rows_returned
                };
                let was_slow = elapsed.nanos >= self.settings.slow_statements_duration.nanos;
                let level = if was_slow {
                    self.settings.slow_statements_level
                } else {
                    self.settings.statements_level
                };
                let probe = private_level_filter_to_levels(level);
                self.stage = match probe {
                    Some((tracing_level, log_level)) => Stage::Probing {
                        elapsed,
                        tracing_level,
                        log_level,
                        rows_affected: self.rows_affected,
                        rows_returned: self.rows_returned,
                    },
                    None => Stage::Finished,
                };
                Some(Finalization { row_count, was_slow, probe })
            },
            _ => None,
        }
    }

    /// Takes the answer of the facilities. Where the logger waits for it and
    /// the level is active, the record comes back; in every other case
    /// nothing does, and nothing is rendered.
    pub fn report(&mut self, active: bool) -> (r: Option<QueryRecord>)
        ensures
            final(self)@ == old(self)@.step(Event::Report(active)),
            match r {
                Some(record) => old(self)@.emitted(Event::Report(active)) == Some(record@),
                None => old(self)@.emitted(Event::Report(active)) is None,
            },
    {
        proof {
            use_type_invariant(&*self);
        }
        match self.stage {
            Stage::Probing { elapsed, tracing_level, log_level, rows_affected, rows_returned } => {
                self.stage = Stage::Finished;
                if active {
                    let was_slow = elapsed.nanos >= self.settings.slow_statements_duration.nanos;
                    let (summary, statement) = self.render();
                    Some(
                        QueryRecord {
                            tracing_level,
                            log_level,
                            summary,
                            statement,
                            rows_affected,
                            rows_returned,
                            elapsed,
                            slow_threshold: if was_slow {
                                Some(self.settings.slow_statements_duration)
                            } else {
                                None
                            },
                            message: if was_slow {
                                Some(SLOW_MESSAGE)
                            } else {
                                None
                            },
                        },
                    )
                } else {
                    None
                }
            },
            _ => None,
        }
    }

    /// The two renderings of the statement: its summary, and the whole of
    /// it for verbose display where the summary is not the whole already.
    fn render(&self) -> (r: (String, String))
        ensures
            r.0@ == summary(self@.sql),
            r.1@ == if self@.truncated() {
                seq!['\n', '\n'] + dedent(self@.sql) + seq!['\n']
            } else {
                Seq::empty()
            },
    {
        let text = to_chars(self.sql);
        let short = summary_chars(&text);
        let mut statement: Vec<char> = Vec::new();
        if !same_chars(&short, &text) {
            statement.push('\n');
            statement.push('\n');
            append_chars(&mut statement, &dedent_chars(&text));
            statement.push('\n');
            proof {
                assert(statement@ =~= seq!['\n', '\n'] + dedent(self@.sql) + seq!['\n']);
            }
        }
        (from_chars(&short), from_chars(&statement))
    }
}

} // verus!
