//! Git commit statistics: calendar-correct aggregation of commit records into
//! daily, weekly, monthly and yearly buckets, text export of the result, and
//! the state machine of an interactive dashboard.

pub mod cli;
pub mod config;
pub mod date;
pub mod error;
pub mod git;
pub mod output;
pub mod stats;
pub mod text;
pub mod tui;

pub use error::StatsError;
