use query_logger::{
    Duration, Finalization, LevelFilter, LogLevel, LogSettings, QueryLogger, QueryRecord,
    TracingLevel, SLOW_MESSAGE,
};

const SECOND: u128 = 1_000_000_000;

fn settings(statements: LevelFilter, slow: LevelFilter, threshold: u128) -> LogSettings {
    LogSettings {
        statements_level: statements,
        slow_statements_level: slow,
        slow_statements_duration: Duration { nanos: threshold },
    }
}

fn usual() -> LogSettings {
    settings(LevelFilter::Debug, LevelFilter::Warn, SECOND)
}

#[test]
fn a_new_logger_has_counted_nothing() {
    let logger = QueryLogger::new("SELECT 1", usual());
    assert_eq!(logger.rows_returned(), 0);
    assert_eq!(logger.rows_affected(), 0);
}

#[test]
fn the_label_is_the_dedented_statement() {
    let logger = QueryLogger::new("\n    SELECT id\n      FROM users\n", usual());
    assert_eq!(logger.label(), "SELECT id\nFROM users");
}

#[test]
fn returned_rows_are_counted_one_by_one() {
    let mut logger = QueryLogger::new("SELECT 1", usual());
    logger.increment_rows_returned();
    logger.increment_rows_returned();
    logger.increment_rows_returned();
    assert_eq!(logger.rows_returned(), 3);
    assert_eq!(logger.rows_affected(), 0);
}

#[test]
fn affected_rows_add_up() {
    let mut logger = QueryLogger::new("UPDATE t SET x = 1", usual());
    logger.increase_rows_affected(2);
    logger.increase_rows_affected(0);
    logger.increase_rows_affected(40);
    assert_eq!(logger.rows_affected(), 42);
    assert_eq!(logger.rows_returned(), 0);
}

#[test]
fn the_row_count_is_the_affected_rows_where_there_are_any() {
    let mut logger = QueryLogger::new("UPDATE t SET x = 1", usual());
    logger.increment_rows_returned();
    logger.increase_rows_affected(3);
    logger.increase_rows_affected(4);
    let todo = logger.finish(Duration { nanos: 5 }).unwrap();
    assert_eq!(todo.row_count, 7);
}

#[test]
fn the_row_count_is_the_returned_rows_where_none_was_affected() {
    let mut logger = QueryLogger::new("SELECT 1", usual());
    logger.increment_rows_returned();
    logger.increment_rows_returned();
    logger.increase_rows_affected(0);
    let todo = logger.finish(Duration { nanos: 5 }).unwrap();
    assert_eq!(todo.row_count, 2);
}

#[test]
fn a_quick_statement_is_probed_at_the_statements_level() {
    let mut logger = QueryLogger::new("SELECT 1", usual());
    assert_eq!(
        logger.finish(Duration { nanos: SECOND - 1 }),
        Some(Finalization {
            row_count: 0,
            was_slow: false,
            probe: Some((TracingLevel::Debug, LogLevel::Debug)),
        })
    );
}

#[test]
fn a_statement_is_slow_from_the_threshold_on() {
    let mut logger = QueryLogger::new("SELECT 1", usual());
    assert_eq!(
        logger.finish(Duration { nanos: SECOND }),
        Some(Finalization {
            row_count: 0,
            was_slow: true,
            probe: Some((TracingLevel::Warn, LogLevel::Warn)),
        })
    );
    let mut logger = QueryLogger::new("SELECT 1", settings(LevelFilter::Info, LevelFilter::Error, 0));
    assert_eq!(
        logger.finish(Duration { nanos: 0 }),
        Some(Finalization {
            row_count: 0,
            was_slow: true,
            probe: Some((TracingLevel::Error, LogLevel::Error)),
        })
    );
}

#[test]
fn a_statement_is_finalized_once() {
    let mut logger = QueryLogger::new("SELECT 1", usual());
    assert!(logger.finish(Duration { nanos: 1 }).is_some());
    assert_eq!(logger.finish(Duration { nanos: 1 }), None);
    assert_eq!(logger.finish(Duration { nanos: 2 * SECOND }), None);
    assert!(logger.report(true).is_some());
    assert_eq!(logger.finish(Duration { nanos: 1 }), None);
}

#[test]
fn a_logger_gives_one_record_at_most() {
    let mut logger = QueryLogger::new("SELECT 1", usual());
    assert_eq!(logger.report(true), None);
    logger.finish(Duration { nanos: 1 });
    assert!(logger.report(true).is_some());
    assert_eq!(logger.report(true), None);
    logger.finish(Duration { nanos: 1 });
    assert_eq!(logger.report(true), None);
}

#[test]
fn no_record_where_the_level_is_not_active() {
    let mut logger = QueryLogger::new("SELECT 1", usual());
    logger.finish(Duration { nanos: 1 });
    assert_eq!(logger.report(false), None);
    assert_eq!(logger.report(true), None);
}

#[test]
fn nothing_is_recorded_with_the_statements_level_off() {
    for threshold in [1, SECOND, u128::MAX] {
        let mut logger = QueryLogger::new(
            "SELECT id, name FROM users WHERE age > 18",
            settings(LevelFilter::Off, LevelFilter::Off, threshold),
        );
        logger.increment_rows_returned();
        logger.increase_rows_affected(9);
        let todo = logger.finish(Duration { nanos: threshold }).unwrap();
        assert_eq!(todo.probe, None);
        assert_eq!(logger.report(true), None);
    }
    let mut logger = QueryLogger::new("SELECT 1", settings(LevelFilter::Off, LevelFilter::Warn, SECOND));
    let todo = logger.finish(Duration { nanos: SECOND - 1 }).unwrap();
    assert_eq!(todo.probe, None);
    assert_eq!(logger.report(true), None);
}

#[test]
fn a_slow_statement_is_recorded_though_the_statements_level_is_off() {
    let mut logger = QueryLogger::new("SELECT 1", settings(LevelFilter::Off, LevelFilter::Warn, SECOND));
    let todo = logger.finish(Duration { nanos: 2 * SECOND }).unwrap();
    assert_eq!(todo.probe, Some((TracingLevel::Warn, LogLevel::Warn)));
    assert!(logger.report(true).is_some());
}

#[test]
fn the_record_of_a_quick_statement() {
    let mut logger = QueryLogger::new(
        "\n    SELECT id, name\n      FROM users\n     WHERE age > 18\n",
        usual(),
    );
    logger.increment_rows_returned();
    logger.increment_rows_returned();
    logger.finish(Duration { nanos: 1_500_000 });
    assert_eq!(
        logger.report(true),
        Some(QueryRecord {
            tracing_level: TracingLevel::Debug,
            log_level: LogLevel::Debug,
            summary: String::from("SELECT id, name FROM"),
            statement: String::from("\n\nSELECT id, name\n FROM users\nWHERE age > 18\n"),
            rows_affected: 0,
            rows_returned: 2,
            elapsed: Duration { nanos: 1_500_000 },
            slow_threshold: None,
            message: None,
        })
    );
}

#[test]
fn the_record_of_a_slow_statement() {
    let mut logger = QueryLogger::new("DELETE FROM users", usual());
    logger.increase_rows_affected(12);
    logger.finish(Duration { nanos: 3 * SECOND });
    let record = logger.report(true).unwrap();
    assert_eq!(
        record,
        QueryRecord {
            tracing_level: TracingLevel::Warn,
            log_level: LogLevel::Warn,
            summary: String::from("DELETE FROM users"),
            statement: String::new(),
            rows_affected: 12,
            rows_returned: 0,
            elapsed: Duration { nanos: 3 * SECOND },
            slow_threshold: Some(Duration { nanos: SECOND }),
            message: Some("slow statement: execution time exceeded alert threshold"),
        }
    );
    assert!(record.message.unwrap().contains("slow"));
    assert!(SLOW_MESSAGE.contains("slow"));
}

#[test]
fn a_statement_that_is_its_own_summary_has_no_verbose_form() {
    for sql in ["", "COMMIT", "SELECT 1", "a b c d"] {
        let mut logger = QueryLogger::new(sql, usual());
        logger.finish(Duration { nanos: 1 });
        let record = logger.report(true).unwrap();
        assert_eq!(record.summary, sql);
        assert_eq!(record.statement, "");
    }
}

#[test]
fn a_statement_of_four_words_and_more_whitespace_has_a_verbose_form() {
    let mut logger = QueryLogger::new("SELECT  1\n  FROM t", usual());
    logger.finish(Duration { nanos: 1 });
    let record = logger.report(true).unwrap();
    assert_eq!(record.summary, "SELECT 1 FROM t");
    assert_eq!(record.statement, "\n\nSELECT  1\nFROM t\n");
}

#[test]
fn the_record_holds_the_rows_counted_until_the_end() {
    let mut logger = QueryLogger::new("UPDATE t SET x = 1", usual());
    logger.increment_rows_returned();
    logger.increase_rows_affected(3);
    let todo = logger.finish(Duration { nanos: 1 }).unwrap();
    assert_eq!(todo.row_count, 3);
    logger.increment_rows_returned();
    logger.increase_rows_affected(4);
    assert_eq!(logger.rows_returned(), 2);
    assert_eq!(logger.rows_affected(), 7);
    let record = logger.report(true).unwrap();
    assert_eq!(record.rows_returned, 1);
    assert_eq!(record.rows_affected, 3);
}

#[test]
fn the_summary_of_the_record_is_the_summary_of_the_statement() {
    for sql in [
        "SELECT id, name FROM users WHERE age > 18",
        "\n    SELECT 1;\n",
        "a b c d",
        "a  b  c  d  e",
        "",
    ] {
        let mut logger = QueryLogger::new(sql, usual());
        logger.finish(Duration { nanos: 1 });
        let record = logger.report(true).unwrap();
        assert_eq!(record.summary, query_logger::parse_query_summary(sql));
        if record.summary == sql {
            assert_eq!(record.statement, "");
        } else {
            assert_eq!(
                record.statement,
                format!("\n\n{}\n", query_logger::trim_query(sql))
            );
        }
    }
}
