//! What every export format offers.

use crate::error::StatsError;
use crate::stats::types::AnalysisResult;
use vstd::prelude::*;

verus! {

/// An export format.
pub trait Formatter {
    /// The analysis as text in this format.
    fn format(&self, result: &AnalysisResult) -> Result<String, StatsError>;
}

} // verus!
