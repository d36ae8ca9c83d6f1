//! What the command line selects, and which repositories it means.

pub mod args;
pub mod run;

pub use args::{OutputFormat, Period};
pub use run::{filter_and_validate_repos, RepoInfo};
