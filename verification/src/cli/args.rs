//! Values that the command line selects.

use vstd::prelude::*;

verus! {

/// Granularity of the periods that statistics are reported for.
#[derive(Debug, Clone, Copy, PartialEq, Eq, Structural)]
pub enum Period {
    Daily,
    Weekly,
    Monthly,
    Yearly,
}

impl Period {
    /// The lower-case name of the granularity.
    pub open spec fn spec_name(self) -> Seq<char> {
        match self {
            Period::Daily => "daily"@,
            Period::Weekly => "weekly"@,
            Period::Monthly => "monthly"@,
            Period::Yearly => "yearly"@,
        }
    }

    /// The lower-case name of the granularity.
    pub fn name(self) -> (r: &'static str)
        ensures
            r@ == self.spec_name(),
    {
        match self {
            Period::Daily => "daily",
            Period::Weekly => "weekly",
            Period::Monthly => "monthly",
            Period::Yearly => "yearly",
        }
    }

    /// The name as an owned string.
    pub fn to_string(self) -> (r: String)
        ensures
            r@ == self.spec_name(),
    {
        String::from_str(self.name())
    }
}

impl Default for Period {
    fn default() -> (r: Period)
        ensures
            r == Period::Daily,
    {
        Period::Daily
    }
}

/// Where the statistics go.
#[derive(Debug, Clone, Copy, PartialEq, Eq, Structural)]
pub enum OutputFormat {
    /// The interactive dashboard.
    Tui,
    /// A JSON document on standard output.
    Json,
    /// CSV rows on standard output.
    Csv,
}

impl Default for OutputFormat {
    fn default() -> (r: OutputFormat)
        ensures
            r == OutputFormat::Tui,
    {
        OutputFormat::Tui
    }
}

} // verus!
