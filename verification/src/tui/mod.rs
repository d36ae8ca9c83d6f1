//! The interactive dashboard: its state, its events and its transitions.

pub mod app;
pub mod event;
pub mod mvu;
pub mod ui;

pub use app::{App, ChartType, Metric};
