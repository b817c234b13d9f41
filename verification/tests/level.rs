use query_logger::{is_active, private_level_filter_to_levels, LevelFilter, LogLevel, TracingLevel};

#[test]
fn off_has_no_levels() {
    assert_eq!(private_level_filter_to_levels(LevelFilter::Off), None);
}

#[test]
fn every_other_threshold_has_the_levels_of_its_name() {
    assert_eq!(
        private_level_filter_to_levels(LevelFilter::Error),
        Some((TracingLevel::Error, LogLevel::Error))
    );
    assert_eq!(
        private_level_filter_to_levels(LevelFilter::Warn),
        Some((TracingLevel::Warn, LogLevel::Warn))
    );
    assert_eq!(
        private_level_filter_to_levels(LevelFilter::Info),
        Some((TracingLevel::Info, LogLevel::Info))
    );
    assert_eq!(
        private_level_filter_to_levels(LevelFilter::Debug),
        Some((TracingLevel::Debug, LogLevel::Debug))
    );
    assert_eq!(
        private_level_filter_to_levels(LevelFilter::Trace),
        Some((TracingLevel::Trace, LogLevel::Trace))
    );
}

#[test]
fn severities_are_ordered() {
    assert!(LevelFilter::Off < LevelFilter::Error);
    assert!(LevelFilter::Error < LevelFilter::Warn);
    assert!(LevelFilter::Warn < LevelFilter::Info);
    assert!(LevelFilter::Info < LevelFilter::Debug);
    assert!(LevelFilter::Debug < LevelFilter::Trace);
    assert!(LogLevel::Error < LogLevel::Trace);
    assert!(TracingLevel::Error < TracingLevel::Trace);
}

#[test]
fn a_level_is_active_if_either_facility_has_it() {
    assert!(!is_active(false, false));
    assert!(is_active(true, false));
    assert!(is_active(false, true));
    assert!(is_active(true, true));
}
