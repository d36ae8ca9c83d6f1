//! The statistics engine: buckets, aggregation over periods, and totals.

pub mod aggregator;
pub mod collector;
pub mod grouping;
pub mod laws;
pub mod types;

pub use crate::date::{DateRange, Days};
pub use aggregator::{filter_non_zero, merge_stats, running_totals};
pub use collector::{
    aggregate_by_month, aggregate_by_week, aggregate_by_year, collect_stats, is_countable,
};
pub use types::{ActivityStats, AnalysisResult, PeriodStats, TotalStats, Totals};
