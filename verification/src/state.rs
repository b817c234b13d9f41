//! The life of a logger as a state and the events that change it, and what
//! holds of every such life.

use crate::dedent::dedent;
use crate::level::{levels_of, LevelFilter, LogLevel, TracingLevel};
use crate::record::{contains_text, occurs_at, RecordView, SLOW_MESSAGE};
use crate::settings::{Duration, LogSettings};
use crate::summary::summary;
use vstd::prelude::*;

verus! {

/// What is settled about a statement when it ends, for the record that may
/// follow.
pub struct Pending {
    pub elapsed: Duration,
    pub tracing_level: TracingLevel,
    pub log_level: LogLevel,
    pub rows_affected: nat,
    pub rows_returned: nat,
}

/// Where a logger stands in its life.
pub enum Phase {
    /// Rows are still counted; nothing was decided yet.
    Running,
    /// The statement is finalized, and the facilities are being asked
    /// whether the chosen level is active.
    Probing(Pending),
    /// Nothing more will be recorded.
    Finished,
}

/// What happens to a logger.
pub enum Event {
    /// One more row came back.
    RowReturned,
    /// The statement changed that many more rows.
    RowsAffected(u64),
    /// The statement ended after the given time.
    Finish(Duration),
    /// The facilities answered whether the chosen level is active.
    Report(bool),
}

/// What a logger knows: the view of a `QueryLogger`.
pub struct LoggerState {
    pub sql: Seq<char>,
    pub label: Seq<char>,
    pub rows_returned: nat,
    pub rows_affected: nat,
    pub settings: LogSettings,
    pub phase: Phase,
}

impl LoggerState {
    /// The state of a logger that was just made.
    pub open spec fn start(sql: Seq<char>, settings: LogSettings) -> LoggerState {
        LoggerState {
            sql,
            label: dedent(sql),
            rows_returned: 0,
            rows_affected: 0,
            settings,
            phase: Phase::Running,
        }
    }

    /// The number of rows that stands for the work done: the rows changed
    /// where there are any, else the rows returned.
    pub open spec fn row_count(self) -> nat {
        if self.rows_affected > 0 {
            self.rows_affected
        } else {
            self.rows_returned
        }
    }

    /// Whether a statement that took `elapsed` was slow.
    pub open spec fn was_slow(self, elapsed: Duration) -> bool {
        elapsed.nanos >= self.settings.slow_statements_duration.nanos
    }

    /// The severity of the record of a statement that took `elapsed`.
    pub open spec fn level(self, elapsed: Duration) -> LevelFilter {
        if self.was_slow(elapsed) {
            self.settings.slow_statements_level
        } else {
            self.settings.statements_level
        }
    }

    /// Whether the summary is anything but the statement itself.
    pub open spec fn truncated(self) -> bool {
        summary(self.sql) != self.sql
    }

    /// The record of the statement, from what was settled when it ended.
    pub open spec fn record(self, settled: Pending) -> RecordView {
        RecordView {
            tracing_level: settled.tracing_level,
            log_level: settled.log_level,
            summary: summary(self.sql),
            statement: if self.truncated() {
                seq!['\n', '\n'] + dedent(self.sql) + seq!['\n']
            } else {
                Seq::empty()
            },
            rows_affected: settled.rows_affected,
            rows_returned: settled.rows_returned,
            elapsed: settled.elapsed,
            slow_threshold: if self.was_slow(settled.elapsed) {
                Some(self.settings.slow_statements_duration)
            } else {
                None
            },
            message: if self.was_slow(settled.elapsed) {
                Some(SLOW_MESSAGE@)
            } else {
                None
            },
        }
    }

    /// The record that an event brings forth, if it does: the answer that
    /// the level is active, given while the logger waits for it.
    pub open spec fn emitted(self, event: Event) -> Option<RecordView> {
        match (self.phase, event) {
            (Phase::Probing(settled), Event::Report(true)) => Some(self.record(settled)),
            _ => None,
        }
    }

    /// The state after an event.
    pub open spec fn step(self, event: Event) -> LoggerState {
        match event {
            Event::RowReturned => LoggerState { rows_returned: self.rows_returned + 1, ..self },
            Event::RowsAffected(n) => LoggerState {
                rows_affected: self.rows_affected + n as nat,
                ..self
            },
            Event::Finish(elapsed) => match self.phase {
                Phase::Running => LoggerState {
                    phase: match levels_of(self.level(elapsed)) {
                        Some((tracing_level, log_level)) => Phase::Probing(
                            Pending {
                                elapsed,
                                tracing_level,
                                log_level,
                                rows_affected: self.rows_affected,
                                rows_returned: self.rows_returned,
                            },
                        ),
                        None => Phase::Finished,
                    },
                    ..self
                },
                _ => self,
            },
            Event::Report(_) => match self.phase {
                Phase::Probing(_) => LoggerState { phase: Phase::Finished, ..self },
                _ => self,
            },
        }
    }

    /// The state after a run of events.
    pub open spec fn run(self, events: Seq<Event>) -> LoggerState
        decreases events.len(),
    {
        if events.len() == 0 {
            self
        } else {
            self.step(events.first()).run(events.drop_first())
        }
    }

    /// The number of records that a run of events brings forth.
    pub open spec fn records(self, events: Seq<Event>) -> nat
        decreases events.len(),
    {
        if events.len() == 0 {
            0
        } else {
            (if self.emitted(events.first()) is Some {
                1nat
            } else {
                0nat
            }) + self.step(events.first()).records(events.drop_first())
        }
    }

    /// The number of events of a run that finalize the statement: the
    /// `Finish` events that find the logger running.
    pub open spec fn finalizations(self, events: Seq<Event>) -> nat
        decreases events.len(),
    {
        if events.len() == 0 {
            0
        } else {
            (if events.first() is Finish && self.phase is Running {
                1nat
            } else {
                0nat
            }) + self.step(events.first()).finalizations(events.drop_first())
        }
    }
}

/// The sum of the numbers of `ns`.
pub open spec fn total(ns: Seq<u64>) -> nat
    decreases ns.len(),
{
    if ns.len() == 0 {
        0
    } else {
        total(ns.drop_last()) + ns.last() as nat
    }
}

/// One `RowsAffected` event for each number of `ns`.
pub open spec fn rows_affected_events(ns: Seq<u64>) -> Seq<Event> {
    Seq::new(ns.len(), |i: int| Event::RowsAffected(ns[i]))
}

/// Whether the events of `events` count rows and do nothing else.
pub open spec fn only_rows(events: Seq<Event>) -> bool {
    forall|i: int|
        0 <= i < events.len() ==> (#[trigger] events[i] is RowReturned || events[i] is RowsAffected)
}

/// Whether no statement that ends in `events` is both slow and to be
/// recorded at a slow severity other than off.
pub open spec fn slow_is_silent(settings: LogSettings, events: Seq<Event>) -> bool {
    forall|i: int|
        0 <= i < events.len() ==> (#[trigger] events[i] matches Event::Finish(elapsed) ==> elapsed.nanos
            < settings.slow_statements_duration.nanos || settings.slow_statements_level
            == LevelFilter::Off)
}

/// A run of events is the run of all but the last, and then the last.
proof fn lemma_run_last(state: LoggerState, events: Seq<Event>)
    requires
        events.len() > 0,
    ensures
        state.run(events) == state.run(events.drop_last()).step(events.last()),
    decreases events.len(),
{
    if events.len() == 1 {
        assert(events.drop_first() =~= Seq::<Event>::empty());
        assert(events.drop_last() =~= Seq::<Event>::empty());
        assert(state.run(events) == state.step(events.first()).run(events.drop_first()));
    } else {
        let next = state.step(events.first());
        lemma_run_last(next, events.drop_first());
        assert(events.drop_first().drop_last() =~= events.drop_last().drop_first());
        assert(events.drop_last().first() == events.first());
        assert(events.drop_first().last() == events.last());
    }
}

/// Over its whole life a logger brings forth at most one record, whatever
/// happens to it and in whatever order, and a finished one brings none.
pub proof fn lemma_at_most_one_record(state: LoggerState, events: Seq<Event>)
    ensures
        state.records(events) <= 1,
        state.phase is Finished ==> state.records(events) == 0,
    decreases events.len(),
{
    if events.len() > 0 {
        lemma_at_most_one_record(state.step(events.first()), events.drop_first());
    }
}

/// A statement is finalized at most once: of all the `Finish` events of a
/// run only the first finds the logger running.
pub proof fn lemma_at_most_one_finalization(state: LoggerState, events: Seq<Event>)
    ensures
        state.finalizations(events) <= 1,
        !(state.phase is Running) ==> state.finalizations(events) == 0,
    decreases events.len(),
{
    if events.len() > 0 {
        lemma_at_most_one_finalization(state.step(events.first()), events.drop_first());
    }
}

/// The finalizations of a run are those of all its events but the last,
/// and one more where the last is a `Finish` that finds the logger running.
proof fn lemma_finalizations_last(state: LoggerState, events: Seq<Event>)
    requires
        events.len() > 0,
    ensures
        state.finalizations(events) == state.finalizations(events.drop_last()) + (if events.last() is Finish
            && state.run(events.drop_last()).phase is Running {
            1nat
        } else {
            0nat
        }),
    decreases events.len(),
{
    if events.len() == 1 {
        let none = Seq::<Event>::empty();
        assert(events.drop_first() =~= none);
        assert(events.drop_last() =~= none);
        assert(events.first() == events.last());
        assert(state.run(none) == state);
        assert(state.finalizations(none) == 0);
        assert(state.step(events.first()).finalizations(none) == 0);
    } else {
        let next = state.step(events.first());
        lemma_finalizations_last(next, events.drop_first());
        assert(events.drop_first().drop_last() =~= events.drop_last().drop_first());
        assert(events.drop_last().first() == events.first());
        assert(events.drop_first().last() == events.last());
    }
}

/// A logger that was running is still running after a run of events
/// exactly if none of them finalized the statement.
proof fn lemma_running_until_finalized(state: LoggerState, events: Seq<Event>)
    requires
        state.phase is Running,
    ensures
        state.run(events).phase is Running <==> state.finalizations(events) == 0,
    decreases events.len(),
{
    if events.len() > 0 {
        let next = state.step(events.first());
        if next.phase is Running {
            lemma_running_until_finalized(next, events.drop_first());
        } else {
            lemma_at_most_one_finalization(next, events.drop_first());
            lemma_stays_ended(next, events.drop_first());
        }
    }
}

/// A logger that is not running does not run again.
proof fn lemma_stays_ended(state: LoggerState, events: Seq<Event>)
    requires
        !(state.phase is Running),
    ensures
        !(state.run(events).phase is Running),
    decreases events.len(),
{
    if events.len() > 0 {
        lemma_stays_ended(state.step(events.first()), events.drop_first());
    }
}

/// Once the life of a logger has ended with a `Finish`, the statement has
/// been finalized exactly once, whether or not it was finished before and
/// whatever else happened.
pub proof fn lemma_finalized_exactly_once(state: LoggerState, events: Seq<Event>, elapsed: Duration)
    requires
        state.phase is Running,
    ensures
        state.finalizations(events.push(Event::Finish(elapsed))) == 1,
{
    let all = events.push(Event::Finish(elapsed));
    assert(all.drop_last() =~= events);
    lemma_finalizations_last(state, all);
    lemma_running_until_finalized(state, events);
    lemma_at_most_one_finalization(state, events);
}

/// No record comes before the statement has ended: a running logger to
/// which no `Finish` happens brings none forth and goes on running.
pub proof fn lemma_no_record_before_finish(state: LoggerState, events: Seq<Event>)
    requires
        state.phase is Running,
        forall|i: int| 0 <= i < events.len() ==> !(#[trigger] events[i] is Finish),
    ensures
        state.records(events) == 0,
        state.run(events).phase is Running,
    decreases events.len(),
{
    if events.len() > 0 {
        let rest = events.drop_first();
        assert(events[0] == events.first());
        assert forall|i: int| 0 <= i < rest.len() implies !(#[trigger] rest[i] is Finish) by {
            assert(rest[i] == events[i + 1]);
        }
        lemma_no_record_before_finish(state.step(events.first()), rest);
    }
}

/// With the severity of statements off, a logger that does not already
/// wait for the answer of the facilities never brings a record forth,
/// whatever its row counts and whatever the facilities answer, as long as
/// no statement that ends is slow while the slow severity is on.
pub proof fn lemma_off_is_silent(state: LoggerState, events: Seq<Event>)
    requires
        state.settings.statements_level == LevelFilter::Off,
        !(state.phase is Probing),
        slow_is_silent(state.settings, events),
    ensures
        state.records(events) == 0,
        !(state.run(events).phase is Probing),
    decreases events.len(),
{
    if events.len() > 0 {
        let next = state.step(events.first());
        let rest = events.drop_first();
        assert(events[0] == events.first());
        assert forall|i: int| 0 <= i < rest.len() implies (#[trigger] rest[i] matches Event::Finish(
            elapsed,
        ) ==> elapsed.nanos < state.settings.slow_statements_duration.nanos
            || state.settings.slow_statements_level == LevelFilter::Off) by {
            assert(rest[i] == events[i + 1]);
        }
        lemma_off_is_silent(next, rest);
    }
}

/// The record of a statement that took the slow threshold or longer has the
/// slow severity, names the threshold, and has a message with the word
/// "slow" in it; with the slow severity off there is none.
pub proof fn lemma_slow_record(state: LoggerState, elapsed: Duration)
    requires
        state.phase is Running,
        state.was_slow(elapsed),
    ensures
        match state.step(Event::Finish(elapsed)).emitted(Event::Report(true)) {
            Some(record) => {
                &&& levels_of(state.settings.slow_statements_level) == Some(
                    (record.tracing_level, record.log_level),
                )
                &&& record.slow_threshold == Some(state.settings.slow_statements_duration)
                &&& record.message matches Some(message) && contains_text(message, "slow"@)
            },
            None => state.settings.slow_statements_level == LevelFilter::Off,
        },
{
    reveal_strlit("slow statement: execution time exceeded alert threshold");
    reveal_strlit("slow");
    assert(SLOW_MESSAGE@.subrange(0, 4) =~= "slow"@);
    assert(occurs_at(SLOW_MESSAGE@, "slow"@, 0));
}

/// The record of a statement that took less than the slow threshold has the
/// severity of statements, and neither a threshold nor a message.
pub proof fn lemma_plain_record(state: LoggerState, elapsed: Duration)
    requires
        state.phase is Running,
        !state.was_slow(elapsed),
    ensures
        match state.step(Event::Finish(elapsed)).emitted(Event::Report(true)) {
            Some(record) => {
                &&& levels_of(state.settings.statements_level) == Some(
                    (record.tracing_level, record.log_level),
                )
                &&& record.slow_threshold is None
                &&& record.message is None
            },
            None => state.settings.statements_level == LevelFilter::Off,
        },
{
}

/// Changed rows add up: after one `RowsAffected` event for each number of
/// `ns` the logger has counted their sum more, and nothing else about it
/// has changed.
pub proof fn lemma_rows_affected_add_up(state: LoggerState, ns: Seq<u64>)
    ensures
        state.run(rows_affected_events(ns)) == (LoggerState {
            rows_affected: state.rows_affected + total(ns),
            ..state
        }),
    decreases ns.len(),
{
    let events = rows_affected_events(ns);
    if ns.len() > 0 {
        lemma_rows_affected_add_up(state, ns.drop_last());
        assert(events.drop_last() =~= rows_affected_events(ns.drop_last()));
        lemma_run_last(state, events);
    }
}

/// The row count of a finalization is the sum of the changed rows where
/// that is not zero, and else the number of returned rows.
pub proof fn lemma_row_count_after(state: LoggerState, ns: Seq<u64>)
    ensures
        state.run(rows_affected_events(ns)).row_count() == if state.rows_affected + total(ns) > 0 {
            state.rows_affected + total(ns)
        } else {
            state.rows_returned
        },
{
    lemma_rows_affected_add_up(state, ns);
}

/// Counting rows changes the counters and nothing else.
proof fn lemma_rows_change_counters_only(state: LoggerState, events: Seq<Event>)
    requires
        only_rows(events),
    ensures
        state.run(events).phase == state.phase,
        state.run(events).sql == state.sql,
        state.run(events).label == state.label,
        state.run(events).settings == state.settings,
    decreases events.len(),
{
    if events.len() > 0 {
        let rest = events.drop_first();
        assert(events[0] == events.first());
        assert forall|i: int| 0 <= i < rest.len() implies (#[trigger] rest[i] is RowReturned
            || rest[i] is RowsAffected) by {
            assert(rest[i] == events[i + 1]);
        }
        lemma_rows_change_counters_only(state.step(events.first()), rest);
    }
}

/// The record is settled when the statement ends: it holds the rows
/// counted until then, and rows counted afterwards do not change it.
pub proof fn lemma_record_settled_at_finish(
    state: LoggerState,
    elapsed: Duration,
    events: Seq<Event>,
)
    requires
        state.phase is Running,
        only_rows(events),
    ensures
        state.step(Event::Finish(elapsed)).run(events).emitted(Event::Report(true)) == state.step(
            Event::Finish(elapsed),
        ).emitted(Event::Report(true)),
        state.step(Event::Finish(elapsed)).emitted(Event::Report(true)) matches Some(record) ==> {
            &&& record.rows_affected == state.rows_affected
            &&& record.rows_returned == state.rows_returned
            &&& record.elapsed == elapsed
            &&& record.summary == summary(state.sql)
        },
{
    lemma_rows_change_counters_only(state.step(Event::Finish(elapsed)), events);
}

} // verus!
