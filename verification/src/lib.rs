//! Decisions and text renderings for logging one executed SQL statement.
//!
//! The crate measures nothing and writes nothing by itself: a caller hands it
//! the elapsed time and the answers of the logging facilities, and gets back
//! what is to be recorded.

pub mod chars;
pub mod dedent;
pub mod level;
pub mod logger;
pub mod record;
pub mod settings;
pub mod state;
pub mod summary;

pub use crate::dedent::trim_query;
pub use crate::level::{
    is_active, private_level_filter_to_levels, LevelFilter, LogLevel, TracingLevel,
};
pub use crate::logger::{Finalization, QueryLogger, QUERY_TARGET, SPAN_TARGET};
pub use crate::record::{QueryRecord, SLOW_MESSAGE};
pub use crate::settings::{Duration, LogSettings};
pub use crate::summary::parse_query_summary;
