//! Export of an analysis as text.

pub mod csv;
pub mod format;
pub mod json;

pub use csv::CsvFormatter;
pub use format::Formatter;
pub use json::JsonFormatter;
