//! Blocks until a set of conditions all hold: processes that end, files
//! that appear, and lines that a log reports.  Each condition is checked
//! once when it is started and then polled at a fixed interval.

pub mod text;
pub mod sleeper;
pub mod file_waiter;
pub mod process_waiter;
pub mod steam_waiter;
pub mod aggregator;
